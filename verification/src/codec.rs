//! The wire frame: a length of eight bytes, most significant first, and
//! after it as many bytes of message body as the length says.
use vstd::prelude::*;
use vstd::string::StringSliceAdditionalSpecFns;
use crate::message::Message;

verus! {

/// Number of bytes of the length that opens a frame.
pub const HEADER_LENGTH: usize = 8;

/// The longest body a frame may declare. A longer one is turned away before
/// any space is set aside for it.
pub const MAX_FRAME_LENGTH: u64 = 128_000_000;

/// Why a frame could not be taken off a stream.
#[derive(Clone, Copy, Debug, PartialEq, Eq, Structural)]
pub enum FramingError {
    /// The frame declares a body longer than `MAX_FRAME_LENGTH`.
    Oversized,
    /// The stream ends before the frame does.
    Truncated,
}

/// The number that `bytes` spell, most significant byte first.
pub open spec fn be_value(bytes: Seq<u8>) -> nat
    decreases bytes.len(),
{
    if bytes.len() == 0 {
        0
    } else {
        be_value(bytes.drop_last()) * 256 + bytes.last() as nat
    }
}

/// The last `width` bytes of `value`, most significant byte first.
pub open spec fn be_bytes(value: nat, width: nat) -> Seq<u8>
    decreases width,
{
    if width == 0 {
        Seq::empty()
    } else {
        be_bytes(value / 256, (width - 1) as nat).push((value % 256) as u8)
    }
}

/// 256 to the power of `width`.
pub open spec fn pow256(width: nat) -> nat
    decreases width,
{
    if width == 0 {
        1
    } else {
        256 * pow256((width - 1) as nat)
    }
}

/// The frame that carries `body`.
pub open spec fn frame_of(body: Seq<u8>) -> Seq<u8> {
    be_bytes(body.len(), 8) + body
}

/// What the front of `stream` holds: the body of its first frame and the
/// number of bytes that the frame takes, or the reason why there is none.
pub open spec fn parse_frame(stream: Seq<u8>) -> Result<(Seq<u8>, nat), FramingError> {
    if stream.len() < 8 {
        Err(FramingError::Truncated)
    } else {
        let length = be_value(stream.take(8));
        if length > MAX_FRAME_LENGTH {
            Err(FramingError::Oversized)
        } else if stream.len() < 8 + length {
            Err(FramingError::Truncated)
        } else {
            Ok((stream.subrange(8, 8 + length as int), 8 + length))
        }
    }
}

/// A length written as a header reads back as itself.
pub proof fn lemma_length_round_trip(length: u64)
    ensures
        be_bytes(length as nat, 8).len() == 8,
        be_value(be_bytes(length as nat, 8)) == length,
{
    lemma_be_bytes_len(length as nat, 8);
    lemma_be_round_trip(length as nat, 8);
    assert(pow256(8) == 0x1_0000_0000_0000_0000) by {
        reveal_with_fuel(pow256, 9);
    }
}

/// A header read as a number and written again is the same header.
pub proof fn lemma_header_round_trip(header: Seq<u8>)
    ensures
        be_bytes(be_value(header), header.len()) == header,
    decreases header.len(),
{
    if header.len() > 0 {
        let front = header.drop_last();
        lemma_header_round_trip(front);
        let value = be_value(header);
        assert(value / 256 == be_value(front));
        assert(value % 256 == header.last());
        assert(be_bytes(value, header.len()) =~= header);
    } else {
        assert(be_bytes(be_value(header), header.len()) =~= header);
    }
}

/// A number written in `width` bytes takes `width` bytes.
proof fn lemma_be_bytes_len(value: nat, width: nat)
    ensures
        be_bytes(value, width).len() == width,
    decreases width,
{
    if width > 0 {
        lemma_be_bytes_len(value / 256, (width - 1) as nat);
    }
}

/// A number written in `width` bytes reads back as its remainder by 256 to
/// the power of `width`.
proof fn lemma_be_round_trip(value: nat, width: nat)
    ensures
        be_value(be_bytes(value, width)) == value % pow256(width),
    decreases width,
{
    if width > 0 {
        let front = be_bytes(value / 256, (width - 1) as nat);
        lemma_be_round_trip(value / 256, (width - 1) as nat);
        assert(be_bytes(value, width).drop_last() =~= front);
        let p = pow256((width - 1) as nat);
        lemma_pow256_positive((width - 1) as nat);
        vstd::arithmetic::div_mod::lemma_breakdown(value as int, 256, p as int);
        assert(value % (256 * p) == 256 * ((value / 256) % p) + value % 256);
    } else {
        assert(be_value(be_bytes(value, width)) == 0);
    }
}

/// A power of 256 is positive.
proof fn lemma_pow256_positive(width: nat)
    ensures
        pow256(width) > 0,
    decreases width,
{
    if width > 0 {
        lemma_pow256_positive((width - 1) as nat);
    }
}

/// A frame that is followed by anything reads back as its body, as long as
/// the body is no longer than a frame may declare.
pub proof fn lemma_frame_round_trip(body: Seq<u8>, rest: Seq<u8>)
    requires
        body.len() <= MAX_FRAME_LENGTH,
    ensures
        parse_frame(frame_of(body) + rest) == Ok::<(Seq<u8>, nat), FramingError>(
            (body, 8 + body.len()),
        ),
{
    let stream = frame_of(body) + rest;
    lemma_length_round_trip(body.len() as u64);
    assert(stream.take(8) =~= be_bytes(body.len(), 8));
    assert(stream.subrange(8, 8 + body.len() as int) =~= body);
}

/// Writes `length` as the header of a frame.
pub fn encode_length(length: u64) -> (header: [u8; 8])
    ensures
        header@ == be_bytes(length as nat, 8),
{
    let b7: u8 = (length % 256) as u8;
    let r6: u64 = length / 256;
    let b6: u8 = (r6 % 256) as u8;
    let r5: u64 = r6 / 256;
    let b5: u8 = (r5 % 256) as u8;
    let r4: u64 = r5 / 256;
    let b4: u8 = (r4 % 256) as u8;
    let r3: u64 = r4 / 256;
    let b3: u8 = (r3 % 256) as u8;
    let r2: u64 = r3 / 256;
    let b2: u8 = (r2 % 256) as u8;
    let r1: u64 = r2 / 256;
    let b1: u8 = (r1 % 256) as u8;
    let r0: u64 = r1 / 256;
    let b0: u8 = (r0 % 256) as u8;
    let header: [u8; 8] = [b0, b1, b2, b3, b4, b5, b6, b7];
    proof {
        reveal_with_fuel(be_bytes, 9);
        assert(header@ =~= be_bytes(length as nat, 8));
    }
    header
}

/// Reads the header of a frame as a number.
pub fn decode_length(header: &[u8; 8]) -> (length: u64)
    ensures
        length == be_value(header@),
{
    proof {
        reveal_with_fuel(be_value, 9);
        let s = header@;
        assert(s.drop_last().len() == 7);
    }
    let mut length: u64 = 0;
    let mut i: usize = 0;
    while i < 8
        invariant
            0 <= i <= 8,
            length == be_value(header@.take(i as int)),
            length < pow256(i as nat),
        decreases 8 - i,
    {
        proof {
            reveal_with_fuel(pow256, 9);
            assert(header@.take(i + 1).drop_last() =~= header@.take(i as int));
            assert(header@.take(i + 1).last() == header@[i as int]);
        }
        length = length * 256 + header[i] as u64;
        i += 1;
    }
    assert(header@.take(8) =~= header@);
    length
}

/// The length that the header of a frame declares, if a frame may be that
/// long.
pub fn frame_length(header: &[u8; 8]) -> (length: Result<usize, FramingError>)
    ensures
        be_value(header@) <= MAX_FRAME_LENGTH ==> length == Ok::<usize, FramingError>(
            be_value(header@) as usize,
        ),
        be_value(header@) > MAX_FRAME_LENGTH ==> length == Err::<usize, FramingError>(
            FramingError::Oversized,
        ),
{
    let declared = decode_length(header);
    if declared > MAX_FRAME_LENGTH {
        Err(FramingError::Oversized)
    } else {
        Ok(declared as usize)
    }
}

/// Puts `body` into a frame.
pub fn encode_frame(body: &[u8]) -> (frame: Vec<u8>)
    requires
        body@.len() + 8 <= usize::MAX,
    ensures
        frame@ == frame_of(body@),
{
    let header = encode_length(body.len() as u64);
    let mut frame: Vec<u8> = Vec::with_capacity(body.len() + 8);
    let mut i: usize = 0;
    while i < 8
        invariant
            0 <= i <= 8,
            header@.len() == 8,
            frame@ == header@.take(i as int),
        decreases 8 - i,
    {
        frame.push(header[i]);
        assert(header@.take(i + 1) =~= header@.take(i as int).push(header@[i as int]));
        i += 1;
    }
    assert(header@.take(8) =~= header@);
    let mut j: usize = 0;
    while j < body.len()
        invariant
            0 <= j <= body.len(),
            frame@ == header@ + body@.take(j as int),
        decreases body.len() - j,
    {
        frame.push(body[j]);
        assert(body@.take(j + 1) =~= body@.take(j as int).push(body@[j as int]));
        assert(header@ + body@.take(j + 1) =~= (header@ + body@.take(j as int)).push(
            body@[j as int],
        ));
        j += 1;
    }
    assert(body@.take(body.len() as int) =~= body@);
    frame
}

/// Takes the first frame off the bytes that a stream has delivered: its body
/// and the number of bytes that the frame took.
pub fn read_from_stream(stream: &[u8]) -> (frame: Result<(Vec<u8>, usize), FramingError>)
    ensures
        match parse_frame(stream@) {
            Ok((body, taken)) => frame matches Ok((got, used)) && got@ == body && used == taken,
            Err(why) => frame == Err::<(Vec<u8>, usize), FramingError>(why),
        },
{
    if stream.len() < 8 {
        return Err(FramingError::Truncated);
    }
    let header: [u8; 8] = [
        stream[0],
        stream[1],
        stream[2],
        stream[3],
        stream[4],
        stream[5],
        stream[6],
        stream[7],
    ];
    assert(header@ =~= stream@.take(8));
    let length = match frame_length(&header) {
        Ok(length) => length,
        Err(why) => {
            return Err(why);
        },
    };
    if stream.len() - 8 < length {
        return Err(FramingError::Truncated);
    }
    let mut body: Vec<u8> = Vec::with_capacity(length);
    let mut i: usize = 0;
    while i < length
        invariant
            0 <= i <= length,
            8 + length <= stream.len(),
            body@ == stream@.subrange(8, 8 + i),
        decreases length - i,
    {
        body.push(stream[8 + i]);
        assert(stream@.subrange(8, 8 + i + 1) =~= stream@.subrange(8, 8 + i).push(
            stream@[8 + i],
        ));
        i += 1;
    }
    Ok((body, 8 + length))
}

impl Message {
    /// The frame that carries a message whose written form is `text`: the
    /// bytes of the text behind their count.
    pub fn into_sendable(text: &str) -> (frame: Vec<u8>)
        requires
            text.spec_bytes().len() + 8 <= usize::MAX,
        ensures
            frame@ == frame_of(text.spec_bytes()),
    {
        encode_frame(text.as_bytes())
    }
}

} // verus!
