//! Messages and their layout on the wire.
//!
//! A message travels as one tag byte followed by a payload:
//!
//! | variant  | tag | payload                                        |
//! |----------|-----|------------------------------------------------|
//! | `Num`    | 0   | the number, 8 bytes little-endian              |
//! | `Bytes`  | 1   | the length, 8 bytes little-endian, then bytes  |
//! | `String` | 2   | the length, 8 bytes little-endian, then UTF-8  |
//! | `Nudge`  | 3   | nothing                                        |

use crate::decoder::{Decoder, Step};
use crate::text::recovered_text;
use vstd::bytes::*;
use vstd::prelude::*;
use vstd::slice::*;
use vstd::string::*;
use vstd::utf8::*;

verus! {

/// Message between two processes.
#[derive(Debug, Eq)]
pub enum Msg {
    /// A number
    Num(u64),
    /// Arbitrary byte data
    Bytes(Vec<u8>),
    /// UTF-8 string
    String(String),
    /// Empty payload
    Nudge,
}

/// What a [`Msg`] holds, as mathematical values.
pub enum MsgView {
    Num(u64),
    Bytes(Seq<u8>),
    String(Seq<char>),
    Nudge,
}

impl View for Msg {
    type V = MsgView;

    open spec fn view(&self) -> MsgView {
        match self {
            Msg::Num(n) => MsgView::Num(*n),
            Msg::Bytes(bytes) => MsgView::Bytes(bytes@),
            Msg::String(text) => MsgView::String(text@),
            Msg::Nudge => MsgView::Nudge,
        }
    }
}

/// Whether two runs of bytes are the same.
fn same_bytes(left: &[u8], right: &[u8]) -> (same: bool)
    ensures
        same == (left@ == right@),
{
    if left.len() != right.len() {
        return false;
    }
    let mut at: usize = 0;
    while at < left.len()
        invariant
            at <= left@.len() == right@.len(),
            left@.take(at as int) == right@.take(at as int),
        decreases left@.len() - at,
    {
        if left[at] != right[at] {
            return false;
        }
        at += 1;
        assert(left@.take(at as int) == left@.take(at - 1).push(left@[at - 1]));
        assert(right@.take(at as int) == right@.take(at - 1).push(right@[at - 1]));
    }
    assert(left@ == left@.take(at as int));
    assert(right@ == right@.take(at as int));
    true
}

impl PartialEq for Msg {
    /// Two messages are equal when they are of one variant and hold the
    /// same contents.
    fn eq(&self, other: &Msg) -> (same: bool) {
        match self {
            Msg::Num(left) => match other {
                Msg::Num(right) => *left == *right,
                _ => false,
            },
            Msg::Bytes(left) => match other {
                Msg::Bytes(right) => same_bytes(left.as_slice(), right.as_slice()),
                _ => false,
            },
            Msg::String(left) => match other {
                Msg::String(right) => *left == *right,
                _ => false,
            },
            Msg::Nudge => match other {
                Msg::Nudge => true,
                _ => false,
            },
        }
    }
}

impl vstd::std_specs::cmp::PartialEqSpecImpl for Msg {
    open spec fn obeys_eq_spec() -> bool {
        true
    }

    open spec fn eq_spec(&self, other: &Msg) -> bool {
        self@ == other@
    }
}

impl Clone for Msg {
    fn clone(&self) -> (copy: Msg)
        ensures
            copy@ == self@,
    {
        match self {
            Msg::Num(n) => Msg::Num(*n),
            Msg::Bytes(bytes) => Msg::Bytes(bytes.clone()),
            Msg::String(text) => Msg::String(text.clone()),
            Msg::Nudge => Msg::Nudge,
        }
    }
}

/// Wire tag of [`Msg::Num`].
pub const TAG_NUM: u8 = 0;

/// Wire tag of [`Msg::Bytes`].
pub const TAG_BYTES: u8 = 1;

/// Wire tag of [`Msg::String`].
pub const TAG_STRING: u8 = 2;

/// Wire tag of [`Msg::Nudge`].
pub const TAG_NUDGE: u8 = 3;

/// Width of a number or a length on the wire.
pub const WORD: usize = 8;

/// A length-prefixed run of bytes: the count, then the bytes themselves.
pub open spec fn framed(body: Seq<u8>) -> Seq<u8> {
    spec_u64_to_le_bytes(body.len() as u64) + body
}

impl MsgView {
    /// The tag that announces this variant on the wire.
    pub open spec fn tag(self) -> u8 {
        match self {
            MsgView::Num(_) => TAG_NUM,
            MsgView::Bytes(_) => TAG_BYTES,
            MsgView::String(_) => TAG_STRING,
            MsgView::Nudge => TAG_NUDGE,
        }
    }

    /// The variable-length part of the message: the bytes of a `Bytes`,
    /// the UTF-8 encoding of a `String`, nothing otherwise.
    pub open spec fn body(self) -> Seq<u8> {
        match self {
            MsgView::Bytes(bytes) => bytes,
            MsgView::String(text) => encode_utf8(text),
            _ => Seq::empty(),
        }
    }

    /// What follows the tag on the wire.
    pub open spec fn payload(self) -> Seq<u8> {
        match self {
            MsgView::Num(n) => spec_u64_to_le_bytes(n),
            MsgView::Bytes(_) | MsgView::String(_) => framed(self.body()),
            MsgView::Nudge => Seq::empty(),
        }
    }

    /// The whole message as it travels: tag, then payload.
    pub open spec fn encode(self) -> Seq<u8> {
        seq![self.tag()] + self.payload()
    }

    /// Whether the length of the body can be written in the 8-byte prefix.
    pub open spec fn fits(self) -> bool {
        self.body().len() <= u64::MAX
    }
}

/// What the front of a byte sequence holds.
pub enum Parsed {
    /// A whole message, and the number of bytes that it takes.
    Message(MsgView, nat),
    /// Fewer bytes than the message needs.
    Incomplete,
    /// The first byte is no tag.
    UnknownTag(u8),
}

/// The number or length that stands right after the tag.
pub open spec fn word_of(input: Seq<u8>) -> u64 {
    spec_u64_from_le_bytes(input.subrange(1, 1 + WORD))
}

/// Reads one message off the front of `input`. Whatever follows the
/// message is left alone; a tag above 3 condemns the input whatever
/// follows it.
pub open spec fn parse(input: Seq<u8>) -> Parsed {
    if input.len() == 0 {
        Parsed::Incomplete
    } else if input[0] == TAG_NUDGE {
        Parsed::Message(MsgView::Nudge, 1)
    } else if input[0] > TAG_NUDGE {
        Parsed::UnknownTag(input[0])
    } else if input.len() < 1 + WORD {
        Parsed::Incomplete
    } else if input[0] == TAG_NUM {
        Parsed::Message(MsgView::Num(word_of(input)), (1 + WORD) as nat)
    } else if input.len() < 1 + WORD + word_of(input) {
        Parsed::Incomplete
    } else {
        let end = 1 + WORD + word_of(input);
        let body = input.subrange(1 + WORD, end);
        if input[0] == TAG_BYTES {
            Parsed::Message(MsgView::Bytes(body), end as nat)
        } else {
            Parsed::Message(MsgView::String(recovered_text(body)), end as nat)
        }
    }
}

/// Why no message could be read from a buffer.
#[derive(Debug, Clone, Copy, PartialEq, Eq)]
pub enum ReadError {
    /// The buffer ends before the message does.
    Incomplete,
    /// The buffer starts with a byte that is no tag: it was not written by
    /// this protocol, or the stream it came from is out of step.
    UnknownTag(u8),
}

/// Appends one byte to `out`.
pub fn write_u8(num: u8, out: &mut Vec<u8>)
    ensures
        final(out)@ == old(out)@.push(num),
{
    out.push(num);
}

/// Appends `num` to `out` as 8 little-endian bytes.
pub fn write_u64(num: u64, out: &mut Vec<u8>)
    ensures
        final(out)@ == old(out)@ + spec_u64_to_le_bytes(num),
{
    let mut word = u64_to_le_bytes(num);
    out.append(&mut word);
}

impl Msg {
    /// The tag that announces this variant on the wire.
    pub fn discriminant(&self) -> (tag: u8)
        ensures
            tag == self@.tag(),
    {
        match self {
            Msg::Num(_) => TAG_NUM,
            Msg::Bytes(_) => TAG_BYTES,
            Msg::String(_) => TAG_STRING,
            Msg::Nudge => TAG_NUDGE,
        }
    }

    /// Appends the wire form of the message to `out`. A message that is
    /// held in memory always fits its length prefix.
    pub fn write(self, out: &mut Vec<u8>)
        ensures
            self@.fits(),
            final(out)@ == old(out)@ + self@.encode(),
    {
        write_u8(self.discriminant(), out);
        match self {
            Msg::Num(n) => {
                write_u64(n, out);
            },
            Msg::Bytes(bytes) => {
                let mut bytes = bytes;
                write_u64(bytes.len() as u64, out);
                out.append(&mut bytes);
            },
            Msg::String(text) => {
                let mut bytes = text.as_str().as_bytes_vec();
                write_u64(bytes.len() as u64, out);
                out.append(&mut bytes);
            },
            Msg::Nudge => {},
        }
    }

    /// Reads one message off the front of `input`, and says how many bytes
    /// it took.
    pub fn read(input: &[u8]) -> (r: Result<(Msg, usize), ReadError>)
        ensures
            match parse(input@) {
                Parsed::Message(msg, len) => r matches Ok((m, n)) && m@ == msg && n == len,
                Parsed::Incomplete => r == Err::<(Msg, usize), _>(ReadError::Incomplete),
                Parsed::UnknownTag(tag) => r == Err::<(Msg, usize), _>(
                    ReadError::UnknownTag(tag),
                ),
            },
    {
        let mut state = Decoder::new();
        let mut at: usize = 0;
        loop
            invariant
                at <= input@.len(),
                match state {
                    Decoder::Tag => at == 0,
                    Decoder::Num => at == 1 && input@[0] == TAG_NUM,
                    Decoder::Len(kind) => at == 1 && input@[0] == kind.tag(),
                    Decoder::Body(kind, len) => at == 1 + WORD && input@[0] == kind.tag() && len
                        == word_of(input@),
                },
            decreases state.reads_left(),
        {
            let want = state.wanted();
            if want > (input.len() - at) as u64 {
                return Err(ReadError::Incomplete);
            }
            let end: usize = at + want as usize;
            let chunk = slice_to_vec(slice_subrange(input, at, end));
            match state.feed(Some(chunk)) {
                Step::Read(next) => {
                    state = next;
                    at = end;
                },
                Step::Message(msg) => {
                    return Ok((msg, end));
                },
                Step::NoMessage => {
                    return Err(ReadError::Incomplete);
                },
                Step::UnknownTag(tag) => {
                    return Err(ReadError::UnknownTag(tag));
                },
            }
        }
    }
}

/// Little-endian: the bytes of a word are the digits of the number in
/// base 256, the least significant first, and they give the number back.
pub proof fn lemma_little_endian(num: u64)
    ensures
        spec_u64_to_le_bytes(num).len() == WORD,
        spec_u64_to_le_bytes(num)[0] == num % 0x100,
        spec_u64_to_le_bytes(num)[1] == num / 0x100 % 0x100,
        spec_u64_to_le_bytes(num)[2] == num / 0x1_0000 % 0x100,
        spec_u64_to_le_bytes(num)[3] == num / 0x100_0000 % 0x100,
        spec_u64_to_le_bytes(num)[4] == num / 0x1_0000_0000 % 0x100,
        spec_u64_to_le_bytes(num)[5] == num / 0x100_0000_0000 % 0x100,
        spec_u64_to_le_bytes(num)[6] == num / 0x1_0000_0000_0000 % 0x100,
        spec_u64_to_le_bytes(num)[7] == num / 0x100_0000_0000_0000 % 0x100,
        spec_u64_from_le_bytes(spec_u64_to_le_bytes(num)) == num,
{
    lemma_auto_spec_u64_to_from_le_bytes();
    spec_u64_to_le_bytes_to_open(num);
    assert({
        &&& (num & 0xff) as u8 == num % 0x100
        &&& ((num >> 8) & 0xff) as u8 == num / 0x100 % 0x100
        &&& ((num >> 16) & 0xff) as u8 == num / 0x1_0000 % 0x100
        &&& ((num >> 24) & 0xff) as u8 == num / 0x100_0000 % 0x100
        &&& ((num >> 32) & 0xff) as u8 == num / 0x1_0000_0000 % 0x100
        &&& ((num >> 40) & 0xff) as u8 == num / 0x100_0000_0000 % 0x100
        &&& ((num >> 48) & 0xff) as u8 == num / 0x1_0000_0000_0000 % 0x100
        &&& ((num >> 56) & 0xff) as u8 == num / 0x100_0000_0000_0000 % 0x100
    }) by (bit_vector);
}

/// Layout: the first byte of a written message is its tag; a number takes
/// the 8 bytes that follow; a framed body is announced by its true length
/// and follows its length unchanged; a nudge is its tag and nothing else.
pub proof fn lemma_layout(msg: MsgView)
    requires
        msg.fits(),
    ensures
        msg.encode()[0] == msg.tag(),
        msg.encode().len() == 1 + msg.payload().len(),
        msg matches MsgView::Num(n) ==> msg.encode().len() == 1 + WORD && word_of(msg.encode())
            == n,
        msg is Bytes || msg is String ==> {
            &&& word_of(msg.encode()) == msg.body().len()
            &&& msg.encode().len() == 1 + WORD + msg.body().len()
            &&& msg.encode().subrange(1 + WORD, msg.encode().len() as int) == msg.body()
        },
        msg is Nudge ==> msg.encode() == seq![TAG_NUDGE],
{
    lemma_auto_spec_u64_to_from_le_bytes();
    let wire = msg.encode();
    match msg {
        MsgView::Num(n) => {
            assert(wire.subrange(1, 1 + WORD) == spec_u64_to_le_bytes(n));
        },
        MsgView::Bytes(_) | MsgView::String(_) => {
            let body = msg.body();
            assert(wire.subrange(1, 1 + WORD) == spec_u64_to_le_bytes(body.len() as u64));
            assert(wire.subrange(1 + WORD, wire.len() as int) == body);
        },
        MsgView::Nudge => {
            assert(wire == seq![TAG_NUDGE]);
        },
    }
}

/// Round trip: what was written is read back as the same message, of the
/// same variant and with the same contents, and the read takes exactly the
/// bytes that were written, whatever follows them.
pub proof fn lemma_round_trip(msg: MsgView, rest: Seq<u8>)
    requires
        msg.fits(),
    ensures
        parse(msg.encode() + rest) == Parsed::Message(msg, msg.encode().len()),
{
    lemma_layout(msg);
    let wire = msg.encode();
    let input = wire + rest;
    assert(input[0] == wire[0]);
    if !(msg is Nudge) {
        assert(input.subrange(1, 1 + WORD) == wire.subrange(1, 1 + WORD));
    }
    match msg {
        MsgView::Bytes(_) | MsgView::String(_) => {
            let body = msg.body();
            assert(input.subrange(1 + WORD, 1 + WORD + body.len()) == body);
            if let MsgView::String(text) = msg {
                encode_utf8_valid_utf8(text);
                encode_utf8_decode_utf8(text);
            }
        },
        _ => {},
    }
}

/// The tag alone decides the variant: an input is refused for its tag
/// exactly when its first byte is above 3, whatever follows that byte, and
/// a message that is read has the variant that the first byte names.
pub proof fn lemma_tag_decides(input: Seq<u8>)
    requires
        input.len() > 0,
    ensures
        input[0] > TAG_NUDGE <==> parse(input) == Parsed::UnknownTag(input[0]),
        parse(input) is UnknownTag <==> input[0] > TAG_NUDGE,
        parse(input) matches Parsed::Message(msg, _) ==> msg.tag() == input[0],
{
}

} // verus!
