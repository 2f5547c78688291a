//! Random data for the commands that try the device out.

use rand::Rng;
use vstd::prelude::*;

verus! {

/// The largest byte that random data can hold, plus one.
pub const BYTE_LIMIT: u8 = 255;

/// `gen_range` of `rand::Rng`, on the generator of `rand::thread_rng`: some number from
/// `low` on and below `high`. Which one it is depends on chance.
#[verifier::external_body]
fn random_from(low: u8, high: u8) -> (n: u8)
    requires
        low < high,
    ensures
        low <= n < high,
{
    rand::thread_rng().gen_range(low, high)
}

/// What a number is drawn for.
#[derive(Clone, Copy, PartialEq, Eq, Structural, Debug)]
pub enum Purpose {
    /// How many pieces of data there are.
    Count,
    /// How many bytes a piece has.
    Length { piece: u8 },
    /// The byte at a place of a piece.
    Byte { piece: u8, place: u8 },
}

/// Whether the generator gave a number when one from `low` on and below `high` was asked for.
pub closed spec fn given_by_generator(low: u8, high: u8, n: u8) -> bool {
    call_ensures(random_from, (low, high), n)
}

/// Whether a number is what was drawn for this purpose, from `low` on and below `high`.
pub closed spec fn drawn(purpose: Purpose, low: u8, high: u8, n: u8) -> bool {
    call_ensures(draw, (purpose, low, high), n)
}

/// Draws a number for a purpose.
fn draw(purpose: Purpose, low: u8, high: u8) -> (n: u8)
    requires
        low < high,
    ensures
        low <= n < high,
        given_by_generator(low, high, n),
{
    let generator = random_from;
    generator(low, high)
}

/// Draws a number for a purpose, and has that on record.
fn draw_for(purpose: Purpose, low: u8, high: u8) -> (n: u8)
    requires
        low < high,
    ensures
        low <= n < high,
        drawn(purpose, low, high, n),
{
    let drawer = draw;
    drawer(purpose, low, high)
}

/// Whether some data have fewer bytes than a limit, and no byte above 254.
pub open spec fn is_random_data(data: Seq<u8>, limit: u8) -> bool {
    data.len() < limit && forall|i: int| 0 <= i < data.len() ==> (#[trigger] data[i]) < BYTE_LIMIT
}

/// Whether each byte of a piece of data was drawn for its place, out of all but the largest.
pub open spec fn bytes_drawn(data: Seq<u8>, piece: u8) -> bool {
    forall|i: int|
        0 <= i < data.len() ==> drawn(Purpose::Byte { piece, place: i as u8 }, 0, 255, #[trigger] data[i])
}

/// Whether a piece of data was drawn: its length, below a limit, and each of its bytes.
pub open spec fn data_drawn(data: Seq<u8>, piece: u8, limit: u8) -> bool {
    &&& data.len() < limit
    &&& drawn(Purpose::Length { piece }, 0, limit, data.len() as u8)
    &&& bytes_drawn(data, piece)
}

/// Whether pieces of data were drawn one by one.
pub open spec fn pieces_drawn(pieces: Seq<Seq<u8>>, limit: u8) -> bool {
    forall|i: int| 0 <= i < pieces.len() ==> data_drawn(#[trigger] pieces[i], i as u8, limit)
}

/// Whether some pieces of data were drawn: their number, from one to nine, and each of them.
pub open spec fn burst_drawn(pieces: Seq<Seq<u8>>, limit: u8) -> bool {
    &&& pieces.len() <= 9
    &&& drawn(Purpose::Count, 1, 10, pieces.len() as u8)
    &&& pieces_drawn(pieces, limit)
}

/// Some pieces of data, apart from how they are stored.
pub open spec fn contents(pieces: Seq<Vec<u8>>) -> Seq<Seq<u8>> {
    pieces.map_values(|piece: Vec<u8>| piece@)
}

/// Random data of fewer bytes than a limit.
pub fn random_data(limit: u8) -> (data: Vec<u8>)
    requires
        limit > 0,
    ensures
        is_random_data(data@, limit),
        data_drawn(data@, 0, limit),
{
    random_piece(0, limit)
}

/// One of several pieces of random data, of fewer bytes than a limit.
fn random_piece(piece: u8, limit: u8) -> (data: Vec<u8>)
    requires
        limit > 0,
    ensures
        is_random_data(data@, limit),
        data_drawn(data@, piece, limit),
{
    let length: u8 = draw_for(Purpose::Length { piece }, 0, limit);
    random_piece_bytes(piece, length)
}

/// Random data of so many bytes.
pub fn random_bytes(length: u8) -> (data: Vec<u8>)
    ensures
        data@.len() == length,
        forall|i: int| 0 <= i < data@.len() ==> (#[trigger] data@[i]) < BYTE_LIMIT,
        bytes_drawn(data@, 0),
{
    random_piece_bytes(0, length)
}

/// The bytes of one of several pieces of random data.
fn random_piece_bytes(piece: u8, length: u8) -> (data: Vec<u8>)
    ensures
        data@.len() == length,
        forall|i: int| 0 <= i < data@.len() ==> (#[trigger] data@[i]) < BYTE_LIMIT,
        bytes_drawn(data@, piece),
{
    let mut data: Vec<u8> = Vec::new();
    for place in 0..length
        invariant
            data@.len() == place,
            forall|j: int| 0 <= j < place ==> (#[trigger] data@[j]) < BYTE_LIMIT,
            bytes_drawn(data@, piece),
    {
        data.push(draw_for(Purpose::Byte { piece, place }, 0, BYTE_LIMIT));
    }
    data
}

/// One to nine pieces of random data, each of fewer bytes than a limit.
pub fn random_burst(limit: u8) -> (burst: Vec<Vec<u8>>)
    requires
        limit > 0,
    ensures
        1 <= burst@.len() <= 9,
        forall|i: int| 0 <= i < burst@.len() ==> is_random_data((#[trigger] burst@[i])@, limit),
        burst_drawn(contents(burst@), limit),
{
    let count: u8 = draw_for(Purpose::Count, 1, 10);
    random_pieces(count, limit)
}

/// So many pieces of random data, each of fewer bytes than a limit.
pub fn random_pieces(count: u8, limit: u8) -> (pieces: Vec<Vec<u8>>)
    requires
        limit > 0,
    ensures
        pieces@.len() == count,
        forall|i: int| 0 <= i < pieces@.len() ==> is_random_data((#[trigger] pieces@[i])@, limit),
        pieces_drawn(contents(pieces@), limit),
{
    let mut pieces: Vec<Vec<u8>> = Vec::new();
    for i in 0..count
        invariant
            limit > 0,
            pieces@.len() == i,
            forall|j: int| 0 <= j < i ==> is_random_data((#[trigger] pieces@[j])@, limit),
            forall|j: int| 0 <= j < i ==> data_drawn((#[trigger] pieces@[j])@, j as u8, limit),
    {
        pieces.push(random_piece(i, limit));
    }
    pieces
}

/// A number that was drawn is one that the generator gave, within the bounds that it was
/// asked for.
pub proof fn draws_come_from_the_generator(purpose: Purpose, low: u8, high: u8, n: u8)
    requires
        drawn(purpose, low, high, n),
    ensures
        given_by_generator(low, high, n),
        low <= n < high,
{
}

/// Random data have the length that was drawn for them, and at each place the byte that was
/// drawn for that place.
pub proof fn random_data_are_drawn(limit: u8, data: Vec<u8>)
    requires
        call_ensures(random_data, (limit,), data),
    ensures
        data@.len() < limit,
        drawn(Purpose::Length { piece: 0 }, 0, limit, data@.len() as u8),
        forall|i: int|
            0 <= i < data@.len() ==> drawn(
                Purpose::Byte { piece: 0, place: i as u8 },
                0,
                255,
                #[trigger] data@[i],
            ),
{
}

} // verus!
