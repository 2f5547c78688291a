//! The layout of what goes over the bus: 16-bit numbers, low byte first.

use byte::{BytesExt, LE};
use vstd::prelude::*;

verus! {

/// How many bytes stand before the data of a frame, and before that of an answer.
pub const HEADER_LEN: usize = 4;

/// The two bytes of a number, low byte first.
pub open spec fn le_bytes(n: u16) -> Seq<u8> {
    seq![(n % 256) as u8, (n / 256) as u8]
}

/// The number that stands at a place in some bytes, low byte first.
pub open spec fn le_value(bytes: Seq<u8>, at: int) -> u16 {
    (bytes[at] + 256 * bytes[at + 1]) as u16
}

/// What a header with two numbers looks like.
pub open spec fn header_bytes(first: u16, second: u16) -> Seq<u8> {
    le_bytes(first) + le_bytes(second)
}

/// `write_with` of `byte::BytesExt`, for a `u16` and `byte::LE`: where two bytes of room
/// are left at the place, it writes the number there, low byte first, and nothing else.
#[verifier::external_body]
pub(crate) fn put_u16(bytes: &mut Vec<u8>, at: usize, n: u16)
    requires
        at + 2 <= old(bytes)@.len(),
    ensures
        final(bytes)@ == old(bytes)@.update(at as int, le_bytes(n)[0]).update(
            at + 1,
            le_bytes(n)[1],
        ),
{
    let mut offset = at;
    bytes.write_with::<u16>(&mut offset, n, LE).unwrap();
}

/// `read_with` of `byte::BytesExt`, for a `u16` and `byte::LE`: where two bytes stand at
/// the place, it reads the number there, low byte first.
#[verifier::external_body]
pub(crate) fn get_u16(bytes: &[u8], at: usize) -> (n: u16)
    requires
        at + 2 <= bytes@.len(),
    ensures
        n == le_value(bytes@, at as int),
{
    let mut offset = at;
    bytes.read_with::<u16>(&mut offset, LE).unwrap()
}

/// The header of an answer: the number of the command that it belongs to, and how many
/// bytes of data follow.
#[derive(Clone, Copy, PartialEq, Eq, Structural, Debug)]
pub struct RxHeader {
    pub message_id: u16,
    pub message_size: u16,
}

impl RxHeader {
    /// The header that some bytes begin with.
    pub open spec fn of(bytes: Seq<u8>) -> RxHeader {
        RxHeader { message_id: le_value(bytes, 0), message_size: le_value(bytes, 2) }
    }

    /// Reads the header of an answer.
    pub fn parse(raw: &[u8; 4]) -> (header: RxHeader)
        ensures
            header == RxHeader::of(raw@),
    {
        let bytes: &[u8] = raw.as_slice();
        RxHeader { message_id: get_u16(bytes, 0), message_size: get_u16(bytes, 2) }
    }

    /// Makes room for the data that follow the header.
    pub fn buffer(&self) -> (room: Vec<u8>)
        ensures
            room@ == Seq::new(self.message_size as nat, |i: int| 0u8),
    {
        vec![0u8; self.message_size as usize]
    }
}

/// The header of an answer holds the number of the command and then the size, the low byte
/// of each before the high one.
pub proof fn headers_hold_low_bytes_first(raw: Seq<u8>)
    requires
        raw.len() == HEADER_LEN,
    ensures
        RxHeader::of(raw).message_id == raw[0] + 256 * raw[1],
        RxHeader::of(raw).message_size == raw[2] + 256 * raw[3],
{
}

/// A number survives being written and read, wherever it stands.
pub proof fn number_survives_the_wire(before: Seq<u8>, n: u16, after: Seq<u8>)
    ensures
        le_value(before + le_bytes(n) + after, before.len() as int) == n,
{
}

/// A header survives being written and read, whatever follows it.
pub proof fn header_survives_the_wire(header: RxHeader, after: Seq<u8>)
    ensures
        RxHeader::of(header_bytes(header.message_id, header.message_size) + after) == header,
{
}

/// Any four bytes are the header of exactly one answer: writing what was read gives the
/// bytes back.
pub proof fn bytes_survive_the_header(raw: Seq<u8>)
    requires
        raw.len() == HEADER_LEN,
    ensures
        header_bytes(RxHeader::of(raw).message_id, RxHeader::of(raw).message_size) == raw,
{
}

} // verus!
