//! Decoding a message from a stream, one read at a time.
//!
//! A [`Decoder`] never touches the stream itself. It says how many bytes
//! it wants next ([`Decoder::wanted`]), is handed the outcome of that read
//! ([`Decoder::feed`]), and answers with a [`Step`]: read on, a message,
//! no message, or a stream that is out of step.

use crate::text::{recover_text, recovered_text};
use crate::wire::{
    parse, word_of, Msg, MsgView, Parsed, TAG_BYTES, TAG_NUDGE, TAG_NUM, TAG_STRING, WORD,
};
use vstd::bytes::*;
use vstd::prelude::*;

verus! {

/// The two variants whose body is announced by a length.
#[derive(Debug, Clone, Copy, PartialEq, Eq)]
pub enum Framed {
    /// The body is kept as it is: [`Msg::Bytes`].
    Bytes,
    /// The body is text: [`Msg::String`].
    Text,
}

/// Where in a message the decoder stands.
#[derive(Debug, Clone, Copy, PartialEq, Eq)]
pub enum Decoder {
    /// Nothing read yet: the tag comes next.
    Tag,
    /// The tag announced a number: its 8 bytes come next.
    Num,
    /// The tag announced a framed body: its length comes next.
    Len(Framed),
    /// The length is known: the body itself comes next.
    Body(Framed, u64),
}

/// What the decoder answers to a read.
#[derive(Debug, PartialEq, Eq)]
pub enum Step {
    /// The message is not complete: read again, from this state.
    Read(Decoder),
    /// The message is complete.
    Message(Msg),
    /// The read failed: there is no message this time.
    NoMessage,
    /// The byte read as a tag is none: the stream is out of step, and
    /// nothing that follows on it can be trusted.
    UnknownTag(u8),
}

/// What a [`Step`] holds, as mathematical values.
pub enum StepView {
    Read(Decoder),
    Message(MsgView),
    NoMessage,
    UnknownTag(u8),
}

impl View for Step {
    type V = StepView;

    open spec fn view(&self) -> StepView {
        match self {
            Step::Read(next) => StepView::Read(*next),
            Step::Message(msg) => StepView::Message(msg@),
            Step::NoMessage => StepView::NoMessage,
            Step::UnknownTag(tag) => StepView::UnknownTag(*tag),
        }
    }
}

/// The bytes that a read delivered, if it succeeded.
pub open spec fn delivered(read: Option<Vec<u8>>) -> Option<Seq<u8>> {
    match read {
        Some(chunk) => Some(chunk@),
        None => None,
    }
}

impl Framed {
    /// The tag of the variant.
    pub open spec fn tag(self) -> u8 {
        match self {
            Framed::Bytes => TAG_BYTES,
            Framed::Text => TAG_STRING,
        }
    }

    /// The message that a body of this kind makes.
    pub open spec fn message(self, body: Seq<u8>) -> MsgView {
        match self {
            Framed::Bytes => MsgView::Bytes(body),
            Framed::Text => MsgView::String(recovered_text(body)),
        }
    }
}

impl Decoder {
    /// How many bytes the next read must deliver.
    pub open spec fn spec_wanted(self) -> u64 {
        match self {
            Decoder::Tag => 1,
            Decoder::Num | Decoder::Len(_) => WORD as u64,
            Decoder::Body(_, len) => len,
        }
    }

    /// What the first byte of a message leads to.
    pub open spec fn after_tag(tag: u8) -> StepView {
        if tag == TAG_NUM {
            StepView::Read(Decoder::Num)
        } else if tag == TAG_BYTES {
            StepView::Read(Decoder::Len(Framed::Bytes))
        } else if tag == TAG_STRING {
            StepView::Read(Decoder::Len(Framed::Text))
        } else if tag == TAG_NUDGE {
            StepView::Message(MsgView::Nudge)
        } else {
            StepView::UnknownTag(tag)
        }
    }

    /// The answer to a read. A read that failed, or that did not deliver
    /// exactly the bytes wanted, ends the attempt without a message.
    pub open spec fn spec_feed(self, read: Option<Seq<u8>>) -> StepView {
        match read {
            Some(chunk) if chunk.len() == self.spec_wanted() => match self {
                Decoder::Tag => Self::after_tag(chunk[0]),
                Decoder::Num => StepView::Message(MsgView::Num(spec_u64_from_le_bytes(chunk))),
                Decoder::Len(kind) => StepView::Read(
                    Decoder::Body(kind, spec_u64_from_le_bytes(chunk)),
                ),
                Decoder::Body(kind, _) => StepView::Message(kind.message(chunk)),
            },
            _ => StepView::NoMessage,
        }
    }

    /// How many reads a message can still take from this state.
    pub open spec fn reads_left(self) -> nat {
        match self {
            Decoder::Tag => 3,
            Decoder::Num | Decoder::Len(_) => 2,
            Decoder::Body(_, _) => 1,
        }
    }

    /// The decoder at work on a stream that holds `input`: every read it
    /// asks for is served from the front of what is left, until it answers
    /// with something other than a state to read on from. The count in the
    /// result is the number of bytes taken off the stream.
    pub open spec fn run(self, input: Seq<u8>) -> Parsed
        decreases self.reads_left(),
    {
        let want = self.spec_wanted() as int;
        if input.len() < want {
            Parsed::Incomplete
        } else {
            match self.spec_feed(Some(input.take(want))) {
                StepView::Read(next) => match next.run(input.skip(want)) {
                    Parsed::Message(msg, len) => Parsed::Message(msg, (want + len) as nat),
                    other => other,
                },
                StepView::Message(msg) => Parsed::Message(msg, want as nat),
                StepView::NoMessage => Parsed::Incomplete,
                StepView::UnknownTag(tag) => Parsed::UnknownTag(tag),
            }
        }
    }

    /// A decoder at the start of a message.
    pub fn new() -> (start: Decoder)
        ensures
            start == Decoder::Tag,
    {
        Decoder::Tag
    }

    /// How many bytes the next read must deliver.
    pub fn wanted(&self) -> (n: u64)
        ensures
            n == self.spec_wanted(),
    {
        match self {
            Decoder::Tag => 1,
            Decoder::Num | Decoder::Len(_) => WORD as u64,
            Decoder::Body(_, len) => *len,
        }
    }

    /// Takes the outcome of the read that [`Decoder::wanted`] asked for:
    /// the bytes, or `None` where the read failed.
    pub fn feed(self, read: Option<Vec<u8>>) -> (step: Step)
        ensures
            step@ == self.spec_feed(delivered(read)),
    {
        let chunk = match read {
            Some(chunk) => chunk,
            None => {
                return Step::NoMessage;
            },
        };
        if chunk.len() as u64 != self.wanted() {
            return Step::NoMessage;
        }
        match self {
            Decoder::Tag => {
                let tag: u8 = chunk[0];
                if tag == TAG_NUM {
                    Step::Read(Decoder::Num)
                } else if tag == TAG_BYTES {
                    Step::Read(Decoder::Len(Framed::Bytes))
                } else if tag == TAG_STRING {
                    Step::Read(Decoder::Len(Framed::Text))
                } else if tag == TAG_NUDGE {
                    Step::Message(Msg::Nudge)
                } else {
                    Step::UnknownTag(tag)
                }
            },
            Decoder::Num => Step::Message(Msg::Num(u64_from_le_bytes(chunk.as_slice()))),
            Decoder::Len(kind) => Step::Read(
                Decoder::Body(kind, u64_from_le_bytes(chunk.as_slice())),
            ),
            Decoder::Body(Framed::Bytes, _) => Step::Message(Msg::Bytes(chunk)),
            Decoder::Body(Framed::Text, _) => Step::Message(
                Msg::String(recover_text(chunk.as_slice())),
            ),
        }
    }
}

/// The decoder reads the grammar: run from the start of a message over a
/// stream, it yields what [`parse`] finds at the front of the same bytes,
/// and takes as many bytes off the stream.
pub proof fn lemma_run_is_parse(input: Seq<u8>)
    ensures
        Decoder::Tag.run(input) == parse(input),
{
    reveal_with_fuel(Decoder::run, 3);
    if input.len() > 0 {
        let rest = input.skip(1);
        assert(input.take(1)[0] == input[0]);
        if input[0] < TAG_NUDGE && rest.len() >= WORD {
            assert(rest.take(WORD as int) == input.subrange(1, 1 + WORD));
            if input[0] != TAG_NUM {
                let len = word_of(input);
                let tail = rest.skip(WORD as int);
                if tail.len() >= len {
                    assert(tail.take(len as int) == input.subrange(1 + WORD, 1 + WORD + len));
                }
            }
        }
    }
}

} // verus!
