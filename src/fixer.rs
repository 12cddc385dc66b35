//! The pull-based filter over a byte source.
use vstd::prelude::*;
use crate::machine::{
    drain, emit_step, feed, fixed, lemma_drain, read_step, reads_input, transition,
    AdvanceResult, State,
};

verus! {

#[verifier::external_type_specification]
#[verifier::external_body]
pub struct ExIoError(std::io::Error);

/// Relies on `std::io::Read::read` with a one-byte buffer: `Ok(0)` means
/// that the source has no more data. Nothing is promised of what comes back.
#[verifier::external_body]
fn get_byte<R: std::io::Read>(reader: &mut R) -> (r: Result<Option<u8>, std::io::Error>) {
    let mut byte = [0u8; 1];
    match reader.read(&mut byte) {
        Ok(0) => Ok(None),
        Ok(_) => Ok(Some(byte[0])),
        Err(e) => Err(e),
    }
}

/// A byte source that yields strict JSON from the relaxed JSON of `reader`.
/// Besides the reader it keeps only the lexical state; the input taken in and
/// the output handed out so far are ghost.
pub struct JsonFixer<R> {
    reader: R,
    state: State,
    consumed: Ghost<Seq<u8>>,
    produced: Ghost<Seq<u8>>,
}

impl<R> JsonFixer<R> {
    /// The current lexical state.
    pub closed spec fn state_spec(&self) -> State {
        self.state
    }

    /// The bytes taken from the reader so far.
    pub closed spec fn consumed(&self) -> Seq<u8> {
        self.consumed@
    }

    /// The bytes handed out so far.
    pub closed spec fn produced(&self) -> Seq<u8> {
        self.produced@
    }

    /// What has been handed out, followed by what the state still holds, is
    /// the output owed for the input taken in.
    pub open spec fn wf(&self) -> bool {
        feed(State::Main, self.consumed()) == (
            drain(self.state_spec()).0,
            self.produced() + drain(self.state_spec()).1,
        )
    }

    /// A filter over `reader`, outside any string and with no comma pending.
    pub fn new(reader: R) -> (r: JsonFixer<R>)
        ensures
            r.wf(),
            r.state_spec() == State::Main,
            r.consumed() == Seq::<u8>::empty(),
            r.produced() == Seq::<u8>::empty(),
    {
        JsonFixer {
            reader: reader,
            state: State::Main,
            consumed: Ghost(Seq::empty()),
            produced: Ghost(Seq::empty()),
        }
    }
}

impl<R: std::io::Read> JsonFixer<R> {
    /// One step of the machine: it reads at most one byte from the source and
    /// writes at most one. An error of the source is handed on and changes
    /// nothing.
    pub fn advance(&mut self) -> (r: Result<AdvanceResult, std::io::Error>)
        requires
            old(self).wf(),
        ensures
            final(self).wf(),
            match r {
                Ok(AdvanceResult::Byte(b)) => {
                    &&& !reads_input(old(self).state_spec())
                    &&& (final(self).state_spec(), b) == emit_step(old(self).state_spec())
                    &&& final(self).consumed() == old(self).consumed()
                    &&& final(self).produced() == old(self).produced().push(b)
                },
                Ok(AdvanceResult::Nothing) => {
                    &&& reads_input(old(self).state_spec())
                    &&& final(self).consumed().len() == old(self).consumed().len() + 1
                    &&& final(self).consumed().drop_last() == old(self).consumed()
                    &&& final(self).state_spec() == read_step(
                        old(self).state_spec(),
                        final(self).consumed().last(),
                    )
                    &&& final(self).produced() == old(self).produced()
                },
                Ok(AdvanceResult::Empty) => {
                    &&& reads_input(old(self).state_spec())
                    &&& final(self).state_spec() == old(self).state_spec()
                    &&& final(self).consumed() == old(self).consumed()
                    &&& final(self).produced() == old(self).produced()
                    &&& final(self).produced() == fixed(final(self).consumed())
                },
                Err(_) => {
                    &&& reads_input(old(self).state_spec())
                    &&& final(self).state_spec() == old(self).state_spec()
                    &&& final(self).consumed() == old(self).consumed()
                    &&& final(self).produced() == old(self).produced()
                },
            },
    {
        proof {
            lemma_drain(self.state);
        }
        let s = self.state;
        match s {
            State::Main | State::MainSlash | State::LineComment | State::MultiComment
            | State::MultiCommentStar | State::Quote | State::QuoteEscapeGetChar | State::Comma
            | State::CommaSlash | State::CommaLineComment | State::CommaMultiComment
            | State::CommaMultiCommentStar => {
                let input = match get_byte(&mut self.reader) {
                    Ok(input) => input,
                    Err(e) => return Err(e),
                };
                let (next, r) = transition(s, input);
                match input {
                    Some(b) => {
                        proof {
                            let c = self.consumed@.push(b);
                            assert(c.drop_last() =~= self.consumed@);
                            assert(self.produced@ + Seq::<u8>::empty() =~= self.produced@);
                            lemma_drain(next);
                            assert(feed(State::Main, c) == (
                                drain(next).0,
                                self.produced@ + drain(next).1,
                            ));
                            self.consumed = Ghost(c);
                        }
                        self.state = next;
                    },
                    None => {
                        proof {
                            assert(self.produced@ + Seq::<u8>::empty() =~= self.produced@);
                        }
                    },
                }
                Ok(r)
            },
            _ => {
                let (next, r) = transition(s, None);
                proof {
                    let b = emit_step(s).1;
                    let p = self.produced@.push(b);
                    assert(self.produced@ + (seq![b] + drain(next).1) =~= p + drain(next).1);
                    self.produced = Ghost(p);
                }
                self.state = next;
                Ok(r)
            },
        }
    }
}

} // verus!
