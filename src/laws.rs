//! What holds of the filter's output over whole inputs.
use vstd::prelude::*;
use crate::fixer::JsonFixer;
use crate::machine::{
    drain, feed, fixed, is_json_space, lemma_feed_append, lemma_feed_cons, lemma_feed_one,
    read_step, reads_input, State, BSLSH, CLBRC, CLSQR,
    COMMA, NEWLN, QUOTE, SLASH, STAR,
};

verus! {

/// `input` read from `s` is strict JSON as the filter sees it: no `/` outside
/// strings, and no comma followed by whitespace, `/`, `]`, `}` or the end.
/// `s` is one of `Main`, `Quote`, `QuoteEscapeGetChar` and `Comma`.
pub open spec fn clean_from(s: State, input: Seq<u8>) -> bool
    decreases input.len(),
{
    if input.len() == 0 {
        s == State::Main || s == State::Quote || s == State::QuoteEscapeGetChar
    } else {
        let x = input[0];
        let rest = input.drop_first();
        match s {
            State::Main => if x == SLASH {
                false
            } else if x == QUOTE {
                clean_from(State::Quote, rest)
            } else if x == COMMA {
                clean_from(State::Comma, rest)
            } else {
                clean_from(State::Main, rest)
            },
            State::Quote => if x == QUOTE {
                clean_from(State::Main, rest)
            } else if x == BSLSH {
                clean_from(State::QuoteEscapeGetChar, rest)
            } else {
                clean_from(State::Quote, rest)
            },
            State::QuoteEscapeGetChar => clean_from(State::Quote, rest),
            State::Comma => if is_json_space(x) || x == SLASH || x == CLSQR || x == CLBRC {
                false
            } else if x == QUOTE {
                clean_from(State::Quote, rest)
            } else {
                clean_from(State::Main, rest)
            },
            _ => false,
        }
    }
}

/// A whole input that is strict JSON with no comment, no trailing comma and
/// no whitespace right after a comma.
pub open spec fn is_clean(input: Seq<u8>) -> bool {
    clean_from(State::Main, input)
}

/// The comma that state `s` still owes.
pub open spec fn owed(s: State) -> Seq<u8> {
    if s == State::Comma {
        seq![COMMA]
    } else {
        Seq::empty()
    }
}

proof fn lemma_clean_from(s: State, input: Seq<u8>)
    requires
        clean_from(s, input),
    ensures
        feed(s, input).1 == owed(s) + input,
    decreases input.len(),
{
    if input.len() == 0 {
        assert(owed(s) + input =~= Seq::<u8>::empty());
    } else {
        let x = input[0];
        let rest = input.drop_first();
        assert(input =~= seq![x] + rest);
        lemma_feed_cons(s, x, rest);
        let t = drain(read_step(s, x)).0;
        lemma_clean_from(t, rest);
        assert(owed(s) + input =~= drain(read_step(s, x)).1 + (owed(t) + rest));
    }
}

/// Strict JSON comes out as it went in, byte for byte.
pub proof fn lemma_clean_unchanged(input: Seq<u8>)
    requires
        is_clean(input),
    ensures
        fixed(input) == input,
{
    lemma_clean_from(State::Main, input);
    assert(owed(State::Main) + input =~= input);
}

/// The contents of a string between its quotes: no unescaped `"`, and no
/// `\` without a byte after it.
pub open spec fn string_body(b: Seq<u8>) -> bool
    decreases b.len(),
{
    if b.len() == 0 {
        true
    } else if b[0] == BSLSH {
        b.len() >= 2 && string_body(b.subrange(2, b.len() as int))
    } else {
        b[0] != QUOTE && string_body(b.drop_first())
    }
}

proof fn lemma_string_body(b: Seq<u8>)
    requires
        string_body(b),
    ensures
        feed(State::Quote, b) == (State::Quote, b),
    decreases b.len(),
{
    if b.len() == 0 {
    } else if b[0] == BSLSH {
        let y = b[1];
        let rest = b.subrange(2, b.len() as int);
        assert(b =~= seq![BSLSH] + (seq![y] + rest));
        lemma_feed_cons(State::Quote, BSLSH, seq![y] + rest);
        lemma_feed_cons(State::QuoteEscapeGetChar, y, rest);
        lemma_string_body(rest);
        assert(b =~= seq![BSLSH] + (seq![y] + rest));
    } else {
        let rest = b.drop_first();
        assert(b =~= seq![b[0]] + rest);
        lemma_feed_cons(State::Quote, b[0], rest);
        lemma_string_body(rest);
    }
}

/// A string outside which the filter stands, in its default mode or with a
/// comma pending, passes through whole, whatever it holds: comment openers
/// and commas before a bracket inside it are kept. A pending comma is
/// written before it.
pub proof fn lemma_string_untouched(s: State, b: Seq<u8>, rest: Seq<u8>)
    requires
        s == State::Main || s == State::Comma,
        string_body(b),
    ensures
        feed(s, seq![QUOTE] + b + seq![QUOTE] + rest) == (
            feed(State::Main, rest).0,
            owed(s) + seq![QUOTE] + b + seq![QUOTE] + feed(State::Main, rest).1,
        ),
{
    let tail = seq![QUOTE] + rest;
    assert(seq![QUOTE] + b + seq![QUOTE] + rest =~= seq![QUOTE] + (b + tail));
    lemma_feed_cons(s, QUOTE, b + tail);
    lemma_feed_append(State::Quote, b, tail);
    lemma_string_body(b);
    lemma_feed_cons(State::Quote, QUOTE, rest);
    assert(owed(s) + seq![QUOTE] + b + seq![QUOTE] + feed(State::Main, rest).1 =~= drain(
        read_step(s, QUOTE),
    ).1 + (b + (seq![QUOTE] + feed(State::Main, rest).1)));
}

/// A line comment: `//`, bytes other than a newline, and the newline that
/// ends it.
pub open spec fn is_line_comment(p: Seq<u8>) -> bool {
    &&& p.len() >= 3
    &&& p[0] == SLASH
    &&& p[1] == SLASH
    &&& p.last() == NEWLN
    &&& forall|i: int| 2 <= i < p.len() - 1 ==> p[i] != NEWLN
}

/// A block comment: `/*`, bytes in which `*/` does not occur, and `*/`.
pub open spec fn is_block_comment(p: Seq<u8>) -> bool {
    &&& p.len() >= 4
    &&& p[0] == SLASH
    &&& p[1] == STAR
    &&& p[p.len() - 2] == STAR
    &&& p[p.len() - 1] == SLASH
    &&& forall|i: int| 2 <= i && i + 1 < p.len() - 2 ==> !(#[trigger] p[i] == STAR && p[i + 1] == SLASH)
}

spec fn line_state(s: State) -> State {
    if s == State::Comma {
        State::CommaLineComment
    } else {
        State::LineComment
    }
}

spec fn block_state(s: State) -> State {
    if s == State::Comma {
        State::CommaMultiComment
    } else {
        State::MultiComment
    }
}

spec fn star_state(s: State) -> State {
    if s == State::Comma {
        State::CommaMultiCommentStar
    } else {
        State::MultiCommentStar
    }
}

proof fn lemma_feed_two(s: State, x: u8, y: u8)
    requires
        reads_input(s),
        reads_input(drain(read_step(s, x)).0),
        drain(read_step(s, x)).1.len() == 0,
    ensures
        feed(s, seq![x, y]) == drain(read_step(drain(read_step(s, x)).0, y)),
{
    lemma_feed_one(s, x);
    assert(seq![x, y].drop_last() =~= seq![x]);
    assert(Seq::<u8>::empty() + drain(read_step(drain(read_step(s, x)).0, y)).1 =~= drain(
        read_step(drain(read_step(s, x)).0, y),
    ).1);
}

proof fn lemma_line_body(s: State, c: Seq<u8>)
    requires
        s == State::Main || s == State::Comma,
        forall|i: int| 0 <= i < c.len() ==> c[i] != NEWLN,
    ensures
        feed(line_state(s), c) == (line_state(s), Seq::<u8>::empty()),
    decreases c.len(),
{
    if c.len() > 0 {
        lemma_line_body(s, c.drop_last());
        assert(Seq::<u8>::empty() + Seq::<u8>::empty() =~= Seq::<u8>::empty());
    }
}

proof fn lemma_block_body(s: State, c: Seq<u8>)
    requires
        s == State::Main || s == State::Comma,
        forall|i: int| 0 <= i && i + 1 < c.len() ==> !(#[trigger] c[i] == STAR && c[i + 1] == SLASH),
    ensures
        feed(block_state(s), c) == (
            if c.len() > 0 && c.last() == STAR {
                star_state(s)
            } else {
                block_state(s)
            },
            Seq::<u8>::empty(),
        ),
    decreases c.len(),
{
    if c.len() > 0 {
        let c0 = c.drop_last();
        assert(c0.len() > 0 ==> c0.last() == c[c.len() - 2]);
        lemma_block_body(s, c0);
        assert(Seq::<u8>::empty() + Seq::<u8>::empty() =~= Seq::<u8>::empty());
    }
}

/// A comment read outside a string, in the default mode or with a comma
/// pending, leaves no trace: it writes nothing, and the filter goes on in
/// the mode it was in.
pub proof fn lemma_comment_fragment(s: State, p: Seq<u8>)
    requires
        s == State::Main || s == State::Comma,
        is_line_comment(p) || is_block_comment(p),
    ensures
        feed(s, p) == (s, Seq::<u8>::empty()),
{
    let n = p.len();
    assert(Seq::<u8>::empty() + Seq::<u8>::empty() =~= Seq::<u8>::empty());
    if is_line_comment(p) {
        let c = p.subrange(2, n - 1);
        lemma_feed_two(s, SLASH, SLASH);
        assert(p.subrange(0, 2) =~= seq![SLASH, SLASH]);
        assert(p.drop_last() =~= seq![SLASH, SLASH] + c);
        lemma_feed_append(s, seq![SLASH, SLASH], c);
        assert forall|i: int| 0 <= i < c.len() implies c[i] != NEWLN by {
            assert(c[i] == p[i + 2]);
        }
        lemma_line_body(s, c);
        assert(feed(s, p.drop_last()) == (line_state(s), Seq::<u8>::empty()));
        assert(p.last() == NEWLN);
        assert(drain(read_step(line_state(s), NEWLN)) == (s, Seq::<u8>::empty()));
    } else {
        let c = p.subrange(2, n - 2);
        lemma_feed_two(s, SLASH, STAR);
        assert(p.drop_last().drop_last() =~= seq![SLASH, STAR] + c);
        lemma_feed_append(s, seq![SLASH, STAR], c);
        assert forall|i: int| 0 <= i && i + 1 < c.len() implies !(#[trigger] c[i] == STAR && c[i
            + 1] == SLASH) by {
            assert(c[i] == p[i + 2]);
            assert(c[i + 1] == p[i + 3]);
        }
        lemma_block_body(s, c);
        let q = p.drop_last();
        assert(q.last() == STAR);
        assert(q.drop_last().len() == n - 2);
        let m = feed(s, q.drop_last()).0;
        assert(m == block_state(s) || m == star_state(s));
        assert(feed(s, q) == drain(read_step(m, STAR)));
        assert(feed(s, q) == (star_state(s), Seq::<u8>::empty()));
        assert(feed(s, p) == drain(read_step(star_state(s), SLASH)));
    }
}

/// Elision of comments: a comment read outside a string is absent from the
/// output, its closing newline or `*/` included, and what follows it comes
/// out as it would without it.
pub proof fn lemma_comment_elided(s: State, p: Seq<u8>, rest: Seq<u8>)
    requires
        s == State::Main || s == State::Comma,
        is_line_comment(p) || is_block_comment(p),
    ensures
        feed(s, p + rest) == feed(s, rest),
{
    lemma_feed_append(s, p, rest);
    lemma_comment_fragment(s, p);
    assert(Seq::<u8>::empty() + feed(s, rest).1 =~= feed(s, rest).1);
}

/// What may stand between a comma and the next token: one whitespace byte,
/// or a comment.
pub open spec fn is_filler(p: Seq<u8>) -> bool {
    (p.len() == 1 && is_json_space(p[0])) || is_line_comment(p) || is_block_comment(p)
}

/// The pieces written one after the other.
pub open spec fn flatten(ps: Seq<Seq<u8>>) -> Seq<u8>
    decreases ps.len(),
{
    if ps.len() == 0 {
        Seq::empty()
    } else {
        flatten(ps.drop_last()) + ps.last()
    }
}

/// The whitespace among the pieces, in order; comments left out.
pub open spec fn spaces_of(ps: Seq<Seq<u8>>) -> Seq<u8>
    decreases ps.len(),
{
    if ps.len() == 0 {
        Seq::empty()
    } else if ps.last().len() == 1 {
        spaces_of(ps.drop_last()) + ps.last()
    } else {
        spaces_of(ps.drop_last())
    }
}

/// While a comma is pending, whitespace and comments keep it pending; the
/// whitespace is written at once and the comments are dropped.
pub proof fn lemma_gap(ps: Seq<Seq<u8>>)
    requires
        forall|i: int| 0 <= i < ps.len() ==> is_filler(#[trigger] ps[i]),
    ensures
        feed(State::Comma, flatten(ps)) == (State::Comma, spaces_of(ps)),
    decreases ps.len(),
{
    if ps.len() > 0 {
        let ps0 = ps.drop_last();
        let p = ps.last();
        assert(is_filler(ps[ps.len() - 1]));
        assert forall|i: int| 0 <= i < ps0.len() implies is_filler(#[trigger] ps0[i]) by {
            assert(ps0[i] == ps[i]);
        }
        lemma_gap(ps0);
        lemma_feed_append(State::Comma, flatten(ps0), p);
        if p.len() == 1 {
            assert(p =~= seq![p[0]]);
            lemma_feed_one(State::Comma, p[0]);
        } else {
            lemma_comment_fragment(State::Comma, p);
            assert(spaces_of(ps0) + Seq::<u8>::empty() =~= spaces_of(ps0));
        }
    }
}

proof fn lemma_comma_then(ps: Seq<Seq<u8>>, b: u8, rest: Seq<u8>)
    requires
        forall|i: int| 0 <= i < ps.len() ==> is_filler(#[trigger] ps[i]),
    ensures
        feed(State::Main, seq![COMMA] + flatten(ps) + seq![b] + rest) == (
            feed(drain(read_step(State::Comma, b)).0, rest).0,
            spaces_of(ps) + drain(read_step(State::Comma, b)).1 + feed(
                drain(read_step(State::Comma, b)).0,
                rest,
            ).1,
        ),
{
    let g = flatten(ps);
    assert(seq![COMMA] + g + seq![b] + rest =~= seq![COMMA] + (g + (seq![b] + rest)));
    lemma_feed_cons(State::Main, COMMA, g + (seq![b] + rest));
    lemma_feed_append(State::Comma, g, seq![b] + rest);
    lemma_gap(ps);
    lemma_feed_cons(State::Comma, b, rest);
    let d = drain(read_step(State::Comma, b));
    let f = feed(d.0, rest);
    assert(Seq::<u8>::empty() + (spaces_of(ps) + (d.1 + f.1)) =~= spaces_of(ps) + d.1 + f.1);
}

/// A comma followed, through any whitespace and comments, by `]` or `}` is
/// dropped; the whitespace and the bracket are kept.
pub proof fn lemma_trailing_comma_dropped(ps: Seq<Seq<u8>>, close: u8, rest: Seq<u8>)
    requires
        forall|i: int| 0 <= i < ps.len() ==> is_filler(#[trigger] ps[i]),
        close == CLSQR || close == CLBRC,
    ensures
        feed(State::Main, seq![COMMA] + flatten(ps) + seq![close] + rest) == (
            feed(State::Main, rest).0,
            spaces_of(ps) + seq![close] + feed(State::Main, rest).1,
        ),
{
    lemma_comma_then(ps, close, rest);
}

/// A comma followed, through any whitespace and comments, by other content
/// than `]`, `}` or a `/` that opens no comment is kept, and is written
/// right before that content.
pub proof fn lemma_separator_comma_kept(ps: Seq<Seq<u8>>, b: u8, rest: Seq<u8>)
    requires
        forall|i: int| 0 <= i < ps.len() ==> is_filler(#[trigger] ps[i]),
        !is_json_space(b),
        b != SLASH,
        b != CLSQR,
        b != CLBRC,
    ensures
        feed(State::Main, seq![COMMA] + flatten(ps) + seq![b] + rest) == (
            feed(
                if b == QUOTE {
                    State::Quote
                } else {
                    State::Main
                },
                rest,
            ).0,
            spaces_of(ps) + seq![COMMA, b] + feed(
                if b == QUOTE {
                    State::Quote
                } else {
                    State::Main
                },
                rest,
            ).1,
        ),
{
    lemma_comma_then(ps, b, rest);
}

/// Two filters that have taken the same input and owe nothing more have
/// handed out the same bytes, the output for that input, however their
/// callers pulled it and however the source split it.
pub proof fn lemma_same_input_same_output<R, S>(f: JsonFixer<R>, g: JsonFixer<S>)
    requires
        f.wf(),
        g.wf(),
        reads_input(f.state_spec()),
        reads_input(g.state_spec()),
        f.consumed() == g.consumed(),
    ensures
        f.produced() == fixed(f.consumed()),
        f.produced() == g.produced(),
{
    assert(f.produced() + Seq::<u8>::empty() =~= f.produced());
    assert(g.produced() + Seq::<u8>::empty() =~= g.produced());
}

/// The output for an input split in two is the output for the first part
/// followed by what the second part yields from where the first left off.
pub proof fn lemma_chunked_input(a: Seq<u8>, b: Seq<u8>)
    ensures
        fixed(a + b) == fixed(a) + feed(feed(State::Main, a).0, b).1,
{
    lemma_feed_append(State::Main, a, b);
}

} // verus!
