//! Reading RIFF chunks of an in-memory file through the `riff` crate.
//!
//! `riff` reads a chunk header (a four-byte id and a little-endian `u32`
//! length), a list's four-byte type, or a chunk's contents from a seekable
//! stream. The wrappers here run it over a `Cursor` on the file's bytes and
//! hand back plain values; what each read yields is stated over the bytes.

use vstd::prelude::*;

verus! {

/// `std::io::Error`, the error `riff` reports a short read with.
#[verifier::external_type_specification]
#[verifier::external_body]
pub struct ExIoError(std::io::Error);

/// A little-endian 32-bit value.
pub open spec fn le32(a: u8, b: u8, c: u8, d: u8) -> int {
    a + b * 256 + c * 65536 + d * 16777216
}

/// A chunk header read from the file: where it stands, its id and the length
/// of its contents.
#[derive(Debug, Clone, Copy, PartialEq, Eq)]
pub struct RawChunk {
    /// Offset of the chunk header from the start of the file.
    pub pos: u64,
    /// The four-byte chunk id.
    pub id: [u8; 4],
    /// The number of content bytes after the eight-byte header.
    pub len: u32,
}

/// The chunk header at `pos`, if the file holds all eight of its bytes.
pub open spec fn chunk_header_ok(bytes: Seq<u8>, pos: int, c: RawChunk) -> bool {
    &&& 0 <= pos
    &&& pos + 8 <= bytes.len()
    &&& c.pos == pos
    &&& c.id@ == bytes.subrange(pos, pos + 4)
    &&& c.len == le32(bytes[pos + 4], bytes[pos + 5], bytes[pos + 6], bytes[pos + 7])
}

/// Reads the chunk header at `pos` (`riff::Chunk::read` over a cursor on
/// `bytes`): it succeeds exactly when the eight header bytes are there, and
/// yields the id and little-endian length stored in them.
#[verifier::external_body]
pub(crate) fn read_chunk(bytes: &[u8], pos: u64) -> (r: Result<RawChunk, std::io::Error>)
    ensures
        r is Ok <==> pos + 8 <= bytes@.len(),
        r matches Ok(c) ==> chunk_header_ok(bytes@, pos as int, c),
{
    let c = riff::Chunk::read(&mut std::io::Cursor::new(bytes), pos)?;
    Ok(RawChunk { pos: c.offset(), id: c.id().value, len: c.len() })
}

/// Reads the four-byte type of the `RIFF`/`LIST` chunk `c`
/// (`riff::Chunk::read_type`; the chunk is re-read at its offset to obtain
/// the `riff` value). It succeeds exactly when the four bytes after the
/// header are there, and yields them.
#[verifier::external_body]
pub(crate) fn read_type(bytes: &[u8], c: &RawChunk) -> (r: Result<[u8; 4], std::io::Error>)
    requires
        chunk_header_ok(bytes@, c.pos as int, *c),
    ensures
        r is Ok <==> c.pos + 12 <= bytes@.len(),
        r matches Ok(t) ==> t@ == bytes@.subrange(c.pos + 8, c.pos + 12),
{
    let mut cursor = std::io::Cursor::new(bytes);
    let chunk = riff::Chunk::read(&mut cursor, c.pos)?;
    Ok(chunk.read_type(&mut cursor)?.value)
}

/// Reads the contents of chunk `c` (`riff::Chunk::read_contents`; the chunk
/// is re-read at its offset to obtain the `riff` value). It succeeds exactly
/// when all `len` content bytes are there, and yields them.
#[verifier::external_body]
pub(crate) fn read_contents(bytes: &[u8], c: &RawChunk) -> (r: Result<Vec<u8>, std::io::Error>)
    requires
        chunk_header_ok(bytes@, c.pos as int, *c),
    ensures
        r is Ok <==> c.pos + 8 + c.len <= bytes@.len(),
        r matches Ok(v) ==> v@ == bytes@.subrange(c.pos + 8, c.pos + 8 + c.len),
{
    let mut cursor = std::io::Cursor::new(bytes);
    let chunk = riff::Chunk::read(&mut cursor, c.pos)?;
    chunk.read_contents(&mut cursor)
}

} // verus!
