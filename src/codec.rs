//! The wire codec: a message is a command tag followed by the command's fields,
//! each field a 32-bit little-endian length and then that many bytes.
use vstd::prelude::*;
use vstd::utf8::{decode_utf8, encode_utf8, valid_utf8};
use vstd::string::StringSliceAdditionalSpecFns;
use crate::codec_frames::{le32_bytes, le32_value, lemma_le32_round_trip, push_le32, read_le32};

verus! {

broadcast use {vstd::utf8::encode_utf8_valid_utf8, vstd::utf8::encode_utf8_decode_utf8};

/// Number of bytes in a request id.
pub const REQUEST_ID_LEN: usize = 16;

/// A decoded message of the page protocol.
#[derive(Debug, Clone)]
pub enum Command {
    /// A client asks for the page at `path`.
    Ask { id: Vec<u8>, path: String },
    /// A server answers the request `id` with the page `body`.
    Get { id: Vec<u8>, body: String },
}

pub enum CommandView {
    Ask { id: Seq<u8>, path: Seq<char> },
    Get { id: Seq<u8>, body: Seq<char> },
}

impl View for Command {
    type V = CommandView;

    open spec fn view(&self) -> CommandView {
        match self {
            Command::Ask { id, path } => CommandView::Ask { id: id@, path: path@ },
            Command::Get { id, body } => CommandView::Get { id: id@, body: body@ },
        }
    }
}

/// Why a payload could not be read as a command.
#[derive(Debug, Clone, Copy, PartialEq, Eq, Structural)]
pub enum DecodeError {
    /// A field is cut short, the request id has the wrong size, or a text is not UTF-8.
    Malformed,
    /// The tag is neither `ASK` nor `GET`.
    UnknownTag,
}

/// The tag `ASK` in bytes.
pub open spec fn tag_ask() -> Seq<u8> {
    seq![65u8, 83u8, 75u8]
}

/// The tag `GET` in bytes.
pub open spec fn tag_get() -> Seq<u8> {
    seq![71u8, 69u8, 84u8]
}

/// A field on the wire: its length, then its bytes.
pub open spec fn frame(b: Seq<u8>) -> Seq<u8> {
    le32_bytes(b.len() as u32) + b
}

/// The tag, the request id and the text of a command, in that order.
pub open spec fn parts(c: CommandView) -> (Seq<u8>, Seq<u8>, Seq<char>) {
    match c {
        CommandView::Ask { id, path } => (tag_ask(), id, path),
        CommandView::Get { id, body } => (tag_get(), id, body),
    }
}

/// A text whose encoding fits in a length field.
pub open spec fn fits_field(text: Seq<char>) -> bool {
    encode_utf8(text).len() <= u32::MAX
}

/// A command that can be put on the wire: a request id of the right size and a
/// text whose length fits the length field.
pub open spec fn valid_command(c: CommandView) -> bool {
    &&& parts(c).1.len() == REQUEST_ID_LEN
    &&& fits_field(parts(c).2)
}

/// The bytes of a command on the wire.
pub open spec fn encoded(c: CommandView) -> Seq<u8> {
    frame(parts(c).0) + frame(parts(c).1) + frame(encode_utf8(parts(c).2))
}

/// The first field of `b` and what follows it, if `b` holds a whole field.
pub open spec fn take_frame(b: Seq<u8>) -> Option<(Seq<u8>, Seq<u8>)> {
    if b.len() < 4 {
        None
    } else {
        let n = le32_value(b[0], b[1], b[2], b[3]) as int;
        if n <= b.len() - 4 {
            Some((b.subrange(4, 4 + n), b.subrange(4 + n, b.len() as int)))
        } else {
            None
        }
    }
}

/// The command a payload holds. Bytes after the last field are ignored.
pub open spec fn decoded(b: Seq<u8>) -> Result<CommandView, DecodeError> {
    match take_frame(b) {
        None => Err(DecodeError::Malformed),
        Some((tag, r1)) => {
            if tag != tag_ask() && tag != tag_get() {
                Err(DecodeError::UnknownTag)
            } else {
                match take_frame(r1) {
                    None => Err(DecodeError::Malformed),
                    Some((id, r2)) => match take_frame(r2) {
                        None => Err(DecodeError::Malformed),
                        Some((text, _)) => {
                            if id.len() != REQUEST_ID_LEN || !valid_utf8(text) {
                                Err(DecodeError::Malformed)
                            } else if tag == tag_ask() {
                                Ok(CommandView::Ask { id, path: decode_utf8(text) })
                            } else {
                                Ok(CommandView::Get { id, body: decode_utf8(text) })
                            }
                        },
                    },
                }
            }
        },
    }
}

proof fn lemma_take_frame(b: Seq<u8>, rest: Seq<u8>)
    requires
        b.len() <= u32::MAX,
    ensures
        take_frame(frame(b) + rest) == Some((b, rest)),
{
    lemma_le32_round_trip(b.len() as u32);
    let all = frame(b) + rest;
    assert(all.subrange(4, 4 + b.len() as int) =~= b);
    assert(all.subrange(4 + b.len() as int, all.len() as int) =~= rest);
}

/// Decoding what was encoded gives back the command.
pub proof fn lemma_round_trip(c: CommandView)
    requires
        valid_command(c),
    ensures
        decoded(encoded(c)) == Ok::<CommandView, DecodeError>(c),
{
    let (tag, id, text) = parts(c);
    let t = encode_utf8(text);
    assert(tag_ask() != tag_get()) by {
        assert(tag_ask()[0] != tag_get()[0]);
    }
    let r2 = frame(t);
    let r1 = frame(id) + r2;
    assert(encoded(c) =~= frame(tag) + r1);
    lemma_take_frame(tag, r1);
    lemma_take_frame(id, r2);
    assert(r2 =~= frame(t) + Seq::<u8>::empty());
    lemma_take_frame(t, Seq::<u8>::empty());
}

/// Relies on `String::from_utf8`: it succeeds exactly on valid UTF-8 and then
/// holds the characters that the bytes encode.
#[verifier::external_body]
fn string_from_utf8(b: Vec<u8>) -> (r: Option<String>)
    ensures
        r is Some <==> valid_utf8(b@),
        r is Some ==> r->0@ == decode_utf8(b@),
{
    String::from_utf8(b).ok()
}

fn push_frame(out: &mut Vec<u8>, b: &[u8])
    requires
        b@.len() <= u32::MAX,
    ensures
        final(out)@ == old(out)@ + frame(b@),
{
    push_le32(out, b.len() as u32);
    let ghost mid = out@;
    let mut i: usize = 0;
    while i < b.len()
        invariant
            i <= b@.len(),
            out@ == mid + b@.subrange(0, i as int),
        decreases b@.len() - i,
    {
        out.push(b[i]);
        i = i + 1;
        assert(out@ =~= mid + b@.subrange(0, i as int));
    }
    assert(b@.subrange(0, b@.len() as int) =~= b@);
}

/// Reads the field that starts at `pos`: its bytes and the position after it.
fn read_frame(buf: &Vec<u8>, pos: usize) -> (r: Option<(Vec<u8>, usize)>)
    requires
        pos <= buf@.len(),
    ensures
        match take_frame(buf@.subrange(pos as int, buf@.len() as int)) {
            None => r is None,
            Some((f, rest)) => match r {
                None => false,
                Some((fb, next)) => fb@ == f && next <= buf@.len() && rest == buf@.subrange(
                    next as int,
                    buf@.len() as int,
                ),
            },
        },
{
    let ghost b = buf@.subrange(pos as int, buf@.len() as int);
    if buf.len() - pos < 4 {
        return None;
    }
    let n = read_le32(buf[pos], buf[pos + 1], buf[pos + 2], buf[pos + 3]) as usize;
    assert(n == le32_value(b[0], b[1], b[2], b[3]));
    if n > buf.len() - pos - 4 {
        return None;
    }
    let start = pos + 4;
    let end = start + n;
    let mut field: Vec<u8> = Vec::new();
    let mut i: usize = start;
    while i < end
        invariant
            start <= i <= end <= buf@.len(),
            field@ == buf@.subrange(start as int, i as int),
        decreases end - i,
    {
        field.push(buf[i]);
        i = i + 1;
        assert(field@ =~= buf@.subrange(start as int, i as int));
    }
    assert(field@ =~= b.subrange(4, 4 + n));
    assert(b.subrange(4 + n, b.len() as int) =~= buf@.subrange(end as int, buf@.len() as int));
    Some((field, end))
}

fn is_tag(t: &Vec<u8>, a: u8, b: u8, c: u8) -> (r: bool)
    ensures
        r == (t@ == seq![a, b, c]),
{
    if t.len() == 3 && t[0] == a && t[1] == b && t[2] == c {
        assert(t@ =~= seq![a, b, c]);
        true
    } else {
        false
    }
}

/// Puts a command on the wire.
pub fn encode(c: &Command) -> (r: Vec<u8>)
    requires
        valid_command(c@),
    ensures
        r@ == encoded(c@),
{
    let mut out: Vec<u8> = Vec::new();
    let (tag, id, text): ([u8; 3], &Vec<u8>, &String) = match c {
        Command::Ask { id, path } => ([65u8, 83u8, 75u8], id, path),
        Command::Get { id, body } => ([71u8, 69u8, 84u8], id, body),
    };
    let tag_bytes = tag.as_slice();
    assert(tag_bytes@ == parts(c@).0) by {
        assert(tag_bytes@ =~= parts(c@).0);
    }
    push_frame(&mut out, tag_bytes);
    push_frame(&mut out, id.as_slice());
    push_frame(&mut out, text.as_str().as_bytes());
    assert(out@ =~= encoded(c@));
    out
}

/// Reads a command from a payload.
pub fn decode(buf: &Vec<u8>) -> (r: Result<Command, DecodeError>)
    ensures
        match r {
            Ok(c) => decoded(buf@) == Ok::<CommandView, DecodeError>(c@),
            Err(e) => decoded(buf@) == Err::<CommandView, DecodeError>(e),
        },
{
    assert(buf@.subrange(0, buf@.len() as int) =~= buf@);
    let (tag, p1) = match read_frame(buf, 0) {
        None => return Err(DecodeError::Malformed),
        Some(x) => x,
    };
    let ask = is_tag(&tag, 65u8, 83u8, 75u8);
    let get = is_tag(&tag, 71u8, 69u8, 84u8);
    if !ask && !get {
        return Err(DecodeError::UnknownTag);
    }
    let (id, p2) = match read_frame(buf, p1) {
        None => return Err(DecodeError::Malformed),
        Some(x) => x,
    };
    let (text, _p3) = match read_frame(buf, p2) {
        None => return Err(DecodeError::Malformed),
        Some(x) => x,
    };
    if id.len() != REQUEST_ID_LEN {
        return Err(DecodeError::Malformed);
    }
    let s = match string_from_utf8(text) {
        None => return Err(DecodeError::Malformed),
        Some(s) => s,
    };
    if ask {
        Ok(Command::Ask { id, path: s })
    } else {
        Ok(Command::Get { id, body: s })
    }
}

} // verus!
