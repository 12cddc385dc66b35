//! The lexical state machine: its states, one step of it, and what it
//! produces over a whole input.
use vstd::prelude::*;

verus! {

pub const SLASH: u8 = 0x2F;

pub const STAR: u8 = 0x2A;

pub const BSLSH: u8 = 0x5C;

pub const QUOTE: u8 = 0x22;

pub const NEWLN: u8 = 0x0A;

pub const COMMA: u8 = 0x2C;

pub const CLSQR: u8 = 0x5D;

pub const CLBRC: u8 = 0x7D;

/// The lexical position of the filter. The states that carry a byte hold
/// the one byte that is in flight; the others carry nothing.
#[derive(Copy, Clone, Debug, PartialEq, Eq, Structural)]
pub enum State {
    /// Outside any string, no comma pending.
    Main,
    MainChar(u8),
    MainSlash,
    MainEmitSlash(u8),
    MainSlashEmitChar(u8),
    MainQuote,
    LineComment,
    MultiComment,
    MultiCommentStar,
    /// Inside a string.
    Quote,
    QuoteQuote,
    QuoteChar(u8),
    QuoteEscape,
    QuoteEscapeGetChar,
    QuoteEscapeEmitChar(u8),
    /// A comma has been read and not yet written or dropped.
    Comma,
    CommaChar(u8),
    CommaCloseSquare,
    CommaCloseBrace,
    CommaBreak(u8),
    CommaBreakEmit(u8),
    CommaQuote,
    CommaQuoteEmit,
    CommaSlash,
    CommaLineComment,
    CommaMultiComment,
    CommaMultiCommentStar,
    CommaEmitSlash(u8),
    CommaSlashEmitChar(u8),
}

/// The outcome of one step.
#[derive(Copy, Clone, Debug, PartialEq, Eq, Structural)]
pub enum AdvanceResult {
    /// The input has ended and nothing more is owed.
    Empty,
    /// A byte was taken in and nothing came out: step again.
    Nothing,
    /// One byte of output.
    Byte(u8),
}

/// The bytes that JSON counts as whitespace.
pub open spec fn is_json_space(b: u8) -> bool {
    b == 0x20u8 || b == 0x09u8 || b == 0x0Au8 || b == 0x0Du8
}

/// The states in which a step reads a byte of input. In every other state
/// a step writes the byte that the state holds and reads nothing.
pub open spec fn reads_input(s: State) -> bool {
    match s {
        State::Main | State::MainSlash | State::LineComment | State::MultiComment
        | State::MultiCommentStar | State::Quote | State::QuoteEscapeGetChar | State::Comma
        | State::CommaSlash | State::CommaLineComment | State::CommaMultiComment
        | State::CommaMultiCommentStar => true,
        _ => false,
    }
}

/// The state after reading byte `b` in a state that reads.
pub open spec fn read_step(s: State, b: u8) -> State {
    match s {
        State::Main => if b == SLASH {
            State::MainSlash
        } else if b == QUOTE {
            State::MainQuote
        } else if b == COMMA {
            State::Comma
        } else {
            State::MainChar(b)
        },
        State::MainSlash => if b == SLASH {
            State::LineComment
        } else if b == STAR {
            State::MultiComment
        } else if b == QUOTE {
            State::MainQuote
        } else {
            State::MainEmitSlash(b)
        },
        State::LineComment => if b == NEWLN {
            State::Main
        } else {
            State::LineComment
        },
        State::MultiComment => if b == STAR {
            State::MultiCommentStar
        } else {
            State::MultiComment
        },
        State::MultiCommentStar => if b == SLASH {
            State::Main
        } else if b == STAR {
            State::MultiCommentStar
        } else {
            State::MultiComment
        },
        State::Quote => if b == QUOTE {
            State::QuoteQuote
        } else if b == BSLSH {
            State::QuoteEscape
        } else {
            State::QuoteChar(b)
        },
        State::QuoteEscapeGetChar => State::QuoteEscapeEmitChar(b),
        State::Comma => if b == CLSQR {
            State::CommaCloseSquare
        } else if b == CLBRC {
            State::CommaCloseBrace
        } else if b == QUOTE {
            State::CommaQuote
        } else if b == SLASH {
            State::CommaSlash
        } else if is_json_space(b) {
            State::CommaChar(b)
        } else {
            State::CommaBreak(b)
        },
        State::CommaSlash => if b == SLASH {
            State::CommaLineComment
        } else if b == STAR {
            State::CommaMultiComment
        } else {
            State::CommaEmitSlash(b)
        },
        State::CommaLineComment => if b == NEWLN {
            State::Comma
        } else {
            State::CommaLineComment
        },
        State::CommaMultiComment => if b == STAR {
            State::CommaMultiCommentStar
        } else {
            State::CommaMultiComment
        },
        State::CommaMultiCommentStar => if b == SLASH {
            State::Comma
        } else if b == STAR {
            State::CommaMultiCommentStar
        } else {
            State::CommaMultiComment
        },
        _ => s,
    }
}

/// The state after, and the byte written by, a step in a state that does
/// not read.
pub open spec fn emit_step(s: State) -> (State, u8) {
    match s {
        State::MainChar(b) => (State::Main, b),
        State::MainEmitSlash(b) => (State::MainSlashEmitChar(b), SLASH),
        State::MainSlashEmitChar(b) => (State::Main, b),
        State::MainQuote => (State::Quote, QUOTE),
        State::QuoteQuote => (State::Main, QUOTE),
        State::QuoteChar(b) => (State::Quote, b),
        State::QuoteEscape => (State::QuoteEscapeGetChar, BSLSH),
        State::QuoteEscapeEmitChar(b) => (State::Quote, b),
        State::CommaChar(b) => (State::Comma, b),
        State::CommaCloseSquare => (State::Main, CLSQR),
        State::CommaCloseBrace => (State::Main, CLBRC),
        State::CommaBreak(b) => (State::CommaBreakEmit(b), COMMA),
        State::CommaBreakEmit(b) => (State::Main, b),
        State::CommaQuote => (State::CommaQuoteEmit, COMMA),
        State::CommaQuoteEmit => (State::Quote, QUOTE),
        State::CommaEmitSlash(b) => (State::CommaSlashEmitChar(b), SLASH),
        State::CommaSlashEmitChar(b) => (State::Comma, b),
        _ => (s, 0u8),
    }
}

/// The reading state that the steps reach without input, and the bytes
/// written on the way. No state holds more than two bytes of pending output.
pub open spec fn drain(s: State) -> (State, Seq<u8>) {
    if reads_input(s) {
        (s, Seq::empty())
    } else {
        let (t, b) = emit_step(s);
        if reads_input(t) {
            (t, seq![b])
        } else {
            let (u, c) = emit_step(t);
            (u, seq![b, c])
        }
    }
}

/// The reading state reached, and the bytes written, when the machine is
/// driven from `s` until it has taken in all of `input`.
pub open spec fn feed(s: State, input: Seq<u8>) -> (State, Seq<u8>)
    decreases input.len(),
{
    if input.len() == 0 {
        drain(s)
    } else {
        let (t, o) = feed(s, input.drop_last());
        let (u, p) = drain(read_step(t, input.last()));
        (u, o + p)
    }
}

/// The whole output for a whole input, from the initial state.
pub open spec fn fixed(input: Seq<u8>) -> Seq<u8> {
    feed(State::Main, input).1
}

/// Draining ends in a state that reads, and after a state that holds a byte
/// the byte comes first.
pub proof fn lemma_drain(s: State)
    ensures
        reads_input(drain(s).0),
        !reads_input(s) ==> drain(s) == (drain(emit_step(s).0).0, seq![emit_step(s).1]
            + drain(emit_step(s).0).1),
{
    if !reads_input(s) {
        let t = emit_step(s).0;
        if !reads_input(t) {
            assert(reads_input(emit_step(t).0));
            assert(seq![emit_step(s).1, emit_step(t).1] =~= seq![emit_step(s).1] + seq![
                emit_step(t).1,
            ]);
        } else {
            assert(seq![emit_step(s).1] =~= seq![emit_step(s).1] + Seq::<u8>::empty());
        }
    }
}

/// The state `feed` ends in reads.
pub proof fn lemma_feed_reads(s: State, input: Seq<u8>)
    ensures
        reads_input(feed(s, input).0),
    decreases input.len(),
{
    if input.len() == 0 {
        lemma_drain(s);
    } else {
        lemma_drain(read_step(feed(s, input.drop_last()).0, input.last()));
    }
}

/// Feeding the input in two pieces, the second from where the first left
/// off, reaches the same state and writes the same bytes as feeding it whole.
pub proof fn lemma_feed_append(s: State, a: Seq<u8>, b: Seq<u8>)
    ensures
        feed(s, a + b) == (feed(feed(s, a).0, b).0, feed(s, a).1 + feed(feed(s, a).0, b).1),
    decreases b.len(),
{
    let t = feed(s, a).0;
    if b.len() == 0 {
        assert(a + b =~= a);
        lemma_feed_reads(s, a);
        assert(feed(s, a).1 + Seq::<u8>::empty() =~= feed(s, a).1);
    } else {
        let b0 = b.drop_last();
        assert((a + b).drop_last() =~= a + b0);
        assert((a + b).last() == b.last());
        lemma_feed_append(s, a, b0);
        let (u, p) = drain(read_step(feed(t, b0).0, b.last()));
        assert(feed(s, a).1 + feed(t, b0).1 + p =~= feed(s, a).1 + (feed(t, b0).1 + p));
    }
}

/// Feeding a single byte.
pub proof fn lemma_feed_one(s: State, x: u8)
    requires
        reads_input(s),
    ensures
        feed(s, seq![x]) == drain(read_step(s, x)),
{
    assert(seq![x].drop_last() =~= Seq::<u8>::empty());
    assert(seq![x].last() == x);
    assert(feed(s, Seq::<u8>::empty()) == (s, Seq::<u8>::empty()));
    assert(Seq::<u8>::empty() + drain(read_step(s, x)).1 =~= drain(read_step(s, x)).1);
}

/// Feeding a byte and then the rest.
pub proof fn lemma_feed_cons(s: State, x: u8, rest: Seq<u8>)
    requires
        reads_input(s),
    ensures
        feed(s, seq![x] + rest) == (
            feed(drain(read_step(s, x)).0, rest).0,
            drain(read_step(s, x)).1 + feed(drain(read_step(s, x)).0, rest).1,
        ),
{
    lemma_feed_append(s, seq![x], rest);
    lemma_feed_one(s, x);
}

/// One step, carried out: in a state that reads, `input` is the byte read
/// (`None` at the end of the input); in the other states it is not looked at.
pub fn transition(s: State, input: Option<u8>) -> (r: (State, AdvanceResult))
    ensures
        reads_input(s) ==> match input {
            None => r == (s, AdvanceResult::Empty),
            Some(b) => r == (read_step(s, b), AdvanceResult::Nothing),
        },
        !reads_input(s) ==> r == (emit_step(s).0, AdvanceResult::Byte(emit_step(s).1)),
{
    match s {
        State::MainChar(b) => (State::Main, AdvanceResult::Byte(b)),
        State::MainEmitSlash(b) => (State::MainSlashEmitChar(b), AdvanceResult::Byte(SLASH)),
        State::MainSlashEmitChar(b) => (State::Main, AdvanceResult::Byte(b)),
        State::MainQuote => (State::Quote, AdvanceResult::Byte(QUOTE)),
        State::QuoteQuote => (State::Main, AdvanceResult::Byte(QUOTE)),
        State::QuoteChar(b) => (State::Quote, AdvanceResult::Byte(b)),
        State::QuoteEscape => (State::QuoteEscapeGetChar, AdvanceResult::Byte(BSLSH)),
        State::QuoteEscapeEmitChar(b) => (State::Quote, AdvanceResult::Byte(b)),
        State::CommaChar(b) => (State::Comma, AdvanceResult::Byte(b)),
        State::CommaCloseSquare => (State::Main, AdvanceResult::Byte(CLSQR)),
        State::CommaCloseBrace => (State::Main, AdvanceResult::Byte(CLBRC)),
        State::CommaBreak(b) => (State::CommaBreakEmit(b), AdvanceResult::Byte(COMMA)),
        State::CommaBreakEmit(b) => (State::Main, AdvanceResult::Byte(b)),
        State::CommaQuote => (State::CommaQuoteEmit, AdvanceResult::Byte(COMMA)),
        State::CommaQuoteEmit => (State::Quote, AdvanceResult::Byte(QUOTE)),
        State::CommaEmitSlash(b) => (State::CommaSlashEmitChar(b), AdvanceResult::Byte(SLASH)),
        State::CommaSlashEmitChar(b) => (State::Comma, AdvanceResult::Byte(b)),
        _ => match input {
            None => (s, AdvanceResult::Empty),
            Some(b) => (read_next(s, b), AdvanceResult::Nothing),
        },
    }
}

/// The state after reading byte `b`, in a state that reads.
fn read_next(s: State, b: u8) -> (r: State)
    requires
        reads_input(s),
    ensures
        r == read_step(s, b),
{
    match s {
        State::Main => match b {
            SLASH => State::MainSlash,
            QUOTE => State::MainQuote,
            COMMA => State::Comma,
            _ => State::MainChar(b),
        },
        State::MainSlash => match b {
            SLASH => State::LineComment,
            STAR => State::MultiComment,
            QUOTE => State::MainQuote,
            _ => State::MainEmitSlash(b),
        },
        State::LineComment => match b {
            NEWLN => State::Main,
            _ => State::LineComment,
        },
        State::MultiComment => match b {
            STAR => State::MultiCommentStar,
            _ => State::MultiComment,
        },
        State::MultiCommentStar => match b {
            SLASH => State::Main,
            STAR => State::MultiCommentStar,
            _ => State::MultiComment,
        },
        State::Quote => match b {
            QUOTE => State::QuoteQuote,
            BSLSH => State::QuoteEscape,
            _ => State::QuoteChar(b),
        },
        State::QuoteEscapeGetChar => State::QuoteEscapeEmitChar(b),
        State::Comma => match b {
            CLSQR => State::CommaCloseSquare,
            CLBRC => State::CommaCloseBrace,
            QUOTE => State::CommaQuote,
            SLASH => State::CommaSlash,
            0x20u8 | 0x09u8 | 0x0Au8 | 0x0Du8 => State::CommaChar(b),
            _ => State::CommaBreak(b),
        },
        State::CommaSlash => match b {
            SLASH => State::CommaLineComment,
            STAR => State::CommaMultiComment,
            _ => State::CommaEmitSlash(b),
        },
        State::CommaLineComment => match b {
            NEWLN => State::Comma,
            _ => State::CommaLineComment,
        },
        State::CommaMultiComment => match b {
            STAR => State::CommaMultiCommentStar,
            _ => State::CommaMultiComment,
        },
        State::CommaMultiCommentStar => match b {
            SLASH => State::Comma,
            STAR => State::CommaMultiCommentStar,
            _ => State::CommaMultiComment,
        },
        _ => s,
    }
}

} // verus!
