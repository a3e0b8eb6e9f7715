//! Which files are handed to the PNG decoder.
//!
//! A PNG file is a signature of eight bytes followed by chunks. A chunk is a
//! length of four bytes, a type of four bytes, as many bytes of content as
//! the length says, and a checksum of four bytes. The first chunk is the
//! header; the image data follows in chunks of its own, with other chunks
//! before, between and after.
//!
//! A file is handed on when its header announces an image of tile size in
//! one of the colour types and bit depths that the format knows, and when
//! no chunk that can be reached by going from chunk to chunk is a second
//! header or belongs to an animation. Checksums, the content of the other
//! chunks and the compressed image data are left to the decoder.

use vstd::prelude::*;

verus! {

/// Length of a chunk without its content: length, type and checksum.
pub const CHUNK_FRAME: usize = 12;

/// Length of the content of a header chunk.
pub const HEADER_LEN: usize = 13;

/// Where the first chunk after the header starts.
pub const BODY_START: usize = 33;

/// The number that the four bytes from `at` on spell, the first byte
/// counting most.
pub open spec fn be32(bytes: Seq<u8>, at: int) -> int {
    bytes[at] * 16777216 + bytes[at + 1] * 65536 + bytes[at + 2] * 256 + bytes[at + 3]
}

/// The four bytes from `at` on are `a`, `b`, `c`, `d`.
pub open spec fn spells(bytes: Seq<u8>, at: int, a: u8, b: u8, c: u8, d: u8) -> bool {
    bytes[at] == a && bytes[at + 1] == b && bytes[at + 2] == c && bytes[at + 3] == d
}

/// The colour types with the bit depths that the format allows for each:
/// grey (0) with 1, 2, 4, 8 or 16 bits; red, green and blue (2), grey with
/// alpha (4) and red, green, blue and alpha (6) with 8 or 16 bits; a
/// palette (3) with 1, 2, 4 or 8 bits.
pub open spec fn known_colour(colour: u8, depth: u8) -> bool {
    ||| colour == 0 && (depth == 1 || depth == 2 || depth == 4 || depth == 8 || depth == 16)
    ||| (colour == 2 || colour == 4 || colour == 6) && (depth == 8 || depth == 16)
    ||| colour == 3 && (depth == 1 || depth == 2 || depth == 4 || depth == 8)
}

/// The file starts with the signature of a PNG file and a header chunk for
/// an image of `side` by `side` pixels in a known colour type and bit
/// depth, interlaced or not.
///
/// The signature is the byte 137, the letters `PNG`, and the bytes 13, 10,
/// 26, 10. The header chunk has the type `IHDR` (73, 72, 68, 82) and holds
/// width, height, bit depth, colour type, compression method (0), filter
/// method (0) and interlace method (0 or 1).
pub open spec fn has_tile_header(bytes: Seq<u8>, side: int) -> bool {
    &&& bytes.len() >= BODY_START
    &&& spells(bytes, 0, 137, 80, 78, 71)
    &&& spells(bytes, 4, 13, 10, 26, 10)
    &&& be32(bytes, 8) == HEADER_LEN
    &&& spells(bytes, 12, 73, 72, 68, 82)
    &&& be32(bytes, 16) == side
    &&& be32(bytes, 20) == side
    &&& known_colour(bytes[25], bytes[24])
    &&& bytes[26] == 0
    &&& bytes[27] == 0
    &&& (bytes[28] == 0 || bytes[28] == 1)
}

/// The chunk type at `at` is one that is not handed on: a header, `IHDR`, or
/// one of the animation chunks `acTL` (97, 99, 84, 76), `fcTL` (102, 99,
/// 84, 76) and `fdAT` (102, 100, 65, 84).
pub open spec fn left_out(bytes: Seq<u8>, at: int) -> bool {
    ||| spells(bytes, at, 73, 72, 68, 82)
    ||| spells(bytes, at, 97, 99, 84, 76)
    ||| spells(bytes, at, 102, 99, 84, 76)
    ||| spells(bytes, at, 102, 100, 65, 84)
}

/// Going from chunk to chunk from `at` on, no chunk is met that is left
/// out. The way ends with the end chunk `IEND` (73, 69, 78, 68), or where
/// the file breaks off within a chunk.
pub open spec fn chunks_admitted(bytes: Seq<u8>, at: int) -> bool
    decreases bytes.len() - at,
{
    if at < 0 || at + 8 > bytes.len() {
        true
    } else if left_out(bytes, at + 4) {
        false
    } else if spells(bytes, at + 4, 73, 69, 78, 68) || at + CHUNK_FRAME + be32(bytes, at)
        > bytes.len() {
        true
    } else {
        chunks_admitted(bytes, at + CHUNK_FRAME + be32(bytes, at))
    }
}

/// The file is handed to the decoder as a tile of `side` by `side` cells.
pub open spec fn is_tile_png(bytes: Seq<u8>, side: int) -> bool {
    has_tile_header(bytes, side) && chunks_admitted(bytes, BODY_START as int)
}

fn read_be32(bytes: &Vec<u8>, at: usize) -> (value: u32)
    requires
        at + 4 <= bytes.len(),
    ensures
        value == be32(bytes@, at as int),
{
    let high: u32 = bytes[at] as u32 * 16777216 + bytes[at + 1] as u32 * 65536;
    high + bytes[at + 2] as u32 * 256 + bytes[at + 3] as u32
}

fn spells_at(bytes: &Vec<u8>, at: usize, a: u8, b: u8, c: u8, d: u8) -> (found: bool)
    requires
        at + 4 <= bytes.len(),
    ensures
        found == spells(bytes@, at as int, a, b, c, d),
{
    bytes[at] == a && bytes[at + 1] == b && bytes[at + 2] == c && bytes[at + 3] == d
}

fn check_known_colour(colour: u8, depth: u8) -> (known: bool)
    ensures
        known == known_colour(colour, depth),
{
    if colour == 0 {
        depth == 1 || depth == 2 || depth == 4 || depth == 8 || depth == 16
    } else if colour == 2 || colour == 4 || colour == 6 {
        depth == 8 || depth == 16
    } else if colour == 3 {
        depth == 1 || depth == 2 || depth == 4 || depth == 8
    } else {
        false
    }
}

fn check_tile_header(bytes: &Vec<u8>, side: u32) -> (found: bool)
    ensures
        found == has_tile_header(bytes@, side as int),
{
    if bytes.len() < BODY_START {
        return false;
    }
    spells_at(bytes, 0, 137, 80, 78, 71) && spells_at(bytes, 4, 13, 10, 26, 10) && read_be32(
        bytes,
        8,
    ) == 13 && spells_at(bytes, 12, 73, 72, 68, 82) && read_be32(bytes, 16) == side && read_be32(
        bytes,
        20,
    ) == side && check_known_colour(bytes[25], bytes[24]) && bytes[26] == 0 && bytes[27] == 0 && (
    bytes[28] == 0 || bytes[28] == 1)
}

fn check_left_out(bytes: &Vec<u8>, at: usize) -> (out: bool)
    requires
        at + 4 <= bytes.len(),
    ensures
        out == left_out(bytes@, at as int),
{
    spells_at(bytes, at, 73, 72, 68, 82) || spells_at(bytes, at, 97, 99, 84, 76) || spells_at(
        bytes,
        at,
        102,
        99,
        84,
        76,
    ) || spells_at(bytes, at, 102, 100, 65, 84)
}

/// Tells whether the file is handed to the decoder as a tile of `side` by
/// `side` cells.
pub fn check_tile_png(bytes: &Vec<u8>, side: u32) -> (admitted: bool)
    ensures
        admitted == is_tile_png(bytes@, side as int),
{
    if !check_tile_header(bytes, side) {
        return false;
    }
    let mut at: usize = BODY_START;
    loop
        invariant
            BODY_START <= at <= bytes@.len(),
            chunks_admitted(bytes@, BODY_START as int) == chunks_admitted(bytes@, at as int),
            has_tile_header(bytes@, side as int),
        decreases bytes@.len() - at,
    {
        if bytes.len() - at < 8 {
            return true;
        }
        if check_left_out(bytes, at + 4) {
            return false;
        }
        if spells_at(bytes, at + 4, 73, 69, 78, 68) {
            return true;
        }
        let length = read_be32(bytes, at);
        if bytes.len() - at < CHUNK_FRAME || length as usize > bytes.len() - at - CHUNK_FRAME {
            return true;
        }
        at = at + CHUNK_FRAME + length as usize;
    }
}

} // verus!
