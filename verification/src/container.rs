use vstd::prelude::*;
use vstd::bytes::*;

use crate::byteseq::{append_bytes, copy_range};
use crate::errors::GlbError;

verus! {

// The container byte format, little-endian throughout:
//   header:  magic (4 bytes), version (4 bytes), total length (4 bytes)
//   chunk:   length (4 bytes), type tag (4 bytes), payload (`length` bytes)
// This reader assumes exactly two chunks: the JSON chunk first, then the
// binary chunk.

pub const GLB_HEADER_MAGIC: u32 = 0x46546C67;
pub const GLB_JSON_CHUNK_MAGIC: u32 = 0x4E4F534A;
pub const GLB_DATA_CHUNK_MAGIC: u32 = 0x004E4942;
pub const GLB_VERSION: u32 = 2;

/// The little-endian 32-bit word stored at byte position `i` of `s`.
pub open spec fn word_at(s: Seq<u8>, i: int) -> u32 {
    spec_u32_from_le_bytes(s.subrange(i, i + 4))
}

/// The declared length of the JSON chunk.
pub open spec fn json_chunk_len(s: Seq<u8>) -> int {
    word_at(s, 12) as int
}

/// The declared length of the binary chunk.
pub open spec fn binary_chunk_len(s: Seq<u8>) -> int {
    word_at(s, 20 + json_chunk_len(s)) as int
}

/// Why parsing `s` as a container fails, or `None` when it succeeds.
/// The checks run in the order the bytes are read: header magic, declared
/// total length, JSON chunk header, binary chunk header.
pub open spec fn parse_error(s: Seq<u8>) -> Option<GlbError> {
    let n = s.len() as int;
    if n < 4 {
        Some(GlbError::TruncatedContainer)
    } else if word_at(s, 0) != GLB_HEADER_MAGIC {
        Some(GlbError::InvalidContainer)
    } else if n < 12 {
        Some(GlbError::TruncatedContainer)
    } else if word_at(s, 8) > n {
        Some(GlbError::TruncatedContainer)
    } else if n < 20 {
        Some(GlbError::TruncatedContainer)
    } else if word_at(s, 16) != GLB_JSON_CHUNK_MAGIC {
        Some(GlbError::UnexpectedChunkType)
    } else if 28 + json_chunk_len(s) > n {
        Some(GlbError::TruncatedContainer)
    } else if word_at(s, 24 + json_chunk_len(s)) != GLB_DATA_CHUNK_MAGIC {
        Some(GlbError::UnexpectedChunkType)
    } else if 28 + json_chunk_len(s) + binary_chunk_len(s) > n {
        Some(GlbError::TruncatedContainer)
    } else {
        None
    }
}

/// The JSON chunk payload of a container that parses without error.
pub open spec fn parsed_json(s: Seq<u8>) -> Seq<u8> {
    s.subrange(20, 20 + json_chunk_len(s))
}

/// The binary chunk payload of a container that parses without error. Its
/// length comes from the binary chunk's own length field, not from the
/// remainder of the buffer.
pub open spec fn parsed_payload(s: Seq<u8>) -> Seq<u8> {
    s.subrange(28 + json_chunk_len(s), 28 + json_chunk_len(s) + binary_chunk_len(s))
}

/// Read the little-endian word at byte position `pos`.
fn read_word(b: &Vec<u8>, pos: usize) -> (x: u32)
    requires
        pos + 4 <= b@.len(),
    ensures
        x == word_at(b@, pos as int),
{
    proof {
        assert(b.len() == b@.len());
    }
    u32_from_le_bytes(&b.as_slice()[pos..pos + 4])
}

/// Parse the container framing of `glb`: verify the header magic and the
/// declared total length, then read the JSON chunk and the binary chunk,
/// verifying each chunk's type tag. Yields the JSON chunk text and the
/// binary payload as byte vectors.
pub fn parse_container(glb: &Vec<u8>) -> (r: Result<(Vec<u8>, Vec<u8>), GlbError>)
    ensures
        r is Ok <==> parse_error(glb@) is None,
        r matches Err(e) ==> parse_error(glb@) == Some(e),
        r matches Ok(p) ==> p.0@ == parsed_json(glb@) && p.1@ == parsed_payload(glb@),
{
    let n = glb.len();
    if n < 4 {
        return Err(GlbError::TruncatedContainer);
    }
    let magic = read_word(glb, 0);
    if magic != GLB_HEADER_MAGIC {
        return Err(GlbError::InvalidContainer);
    }
    if n < 12 {
        return Err(GlbError::TruncatedContainer);
    }
    let declared = read_word(glb, 8);
    if declared as u64 > n as u64 {
        return Err(GlbError::TruncatedContainer);
    }
    if n < 20 {
        return Err(GlbError::TruncatedContainer);
    }
    let json_len = read_word(glb, 12);
    let json_type = read_word(glb, 16);
    if json_type != GLB_JSON_CHUNK_MAGIC {
        return Err(GlbError::UnexpectedChunkType);
    }
    if 28u64 + json_len as u64 > n as u64 {
        return Err(GlbError::TruncatedContainer);
    }
    let json_end: usize = 20 + json_len as usize;
    let binary_len = read_word(glb, json_end);
    let binary_type = read_word(glb, json_end + 4);
    if binary_type != GLB_DATA_CHUNK_MAGIC {
        return Err(GlbError::UnexpectedChunkType);
    }
    if 28u64 + json_len as u64 + binary_len as u64 > n as u64 {
        return Err(GlbError::TruncatedContainer);
    }
    let json = copy_range(glb, 20, json_end);
    let payload = copy_range(glb, json_end + 8, json_end + 8 + binary_len as usize);
    Ok((json, payload))
}

/// The exact byte image of a container holding the two given payloads: the
/// 12-byte header (with the total length equal to the sum of the framing and
/// both payloads), the tagged JSON chunk, then the tagged binary chunk. No
/// padding or alignment is inserted between chunks, matching the rewriter's
/// output framing.
pub open spec fn glb_frame(json: Seq<u8>, binary: Seq<u8>) -> Seq<u8> {
    spec_u32_to_le_bytes(GLB_HEADER_MAGIC) + spec_u32_to_le_bytes(GLB_VERSION)
        + spec_u32_to_le_bytes((28 + json.len() + binary.len()) as u32)
        + spec_u32_to_le_bytes(json.len() as u32) + spec_u32_to_le_bytes(GLB_JSON_CHUNK_MAGIC)
        + json + spec_u32_to_le_bytes(binary.len() as u32)
        + spec_u32_to_le_bytes(GLB_DATA_CHUNK_MAGIC) + binary
}

/// Law: a container the writer emits parses back without error into
/// exactly the two payloads it was built from.
pub proof fn lemma_frame_parses(json: Seq<u8>, binary: Seq<u8>)
    requires
        28 + json.len() + binary.len() <= u32::MAX,
    ensures
        parse_error(glb_frame(json, binary)) is None,
        parsed_json(glb_frame(json, binary)) == json,
        parsed_payload(glb_frame(json, binary)) == binary,
{
    lemma_auto_spec_u32_to_from_le_bytes();
    let s = glb_frame(json, binary);
    let jl = json.len() as int;
    let bl = binary.len() as int;
    assert(s.len() == 28 + jl + bl);
    assert(s.subrange(0, 4) =~= spec_u32_to_le_bytes(GLB_HEADER_MAGIC));
    assert(s.subrange(8, 12) =~= spec_u32_to_le_bytes((28 + json.len() + binary.len()) as u32));
    assert(s.subrange(12, 16) =~= spec_u32_to_le_bytes(json.len() as u32));
    assert(s.subrange(16, 20) =~= spec_u32_to_le_bytes(GLB_JSON_CHUNK_MAGIC));
    assert(json_chunk_len(s) == jl);
    assert(s.subrange(20 + jl, 24 + jl) =~= spec_u32_to_le_bytes(binary.len() as u32));
    assert(s.subrange(24 + jl, 28 + jl) =~= spec_u32_to_le_bytes(GLB_DATA_CHUNK_MAGIC));
    assert(binary_chunk_len(s) == bl);
    assert(parsed_json(s) =~= json);
    assert(parsed_payload(s) =~= binary);
}

/// Append the four little-endian bytes of `x`.
fn push_word(out: &mut Vec<u8>, x: u32)
    ensures
        final(out)@ == old(out)@ + spec_u32_to_le_bytes(x),
{
    let bytes = u32_to_le_bytes(x);
    append_bytes(out, bytes.as_slice());
}

/// Serialize a container around the given JSON text and binary payload. The
/// declared total length exactly equals the sum of the header, both chunk
/// headers and both chunk payloads, which the precondition keeps within the
/// 32-bit length field.
pub fn write_container(json: &Vec<u8>, binary: &Vec<u8>) -> (r: Vec<u8>)
    requires
        28 + json@.len() + binary@.len() <= u32::MAX,
    ensures
        r@ == glb_frame(json@, binary@),
{
    let json_len: u32 = json.len() as u32;
    let binary_len: u32 = binary.len() as u32;
    let total: u32 = 28 + json_len + binary_len;
    let mut out: Vec<u8> = Vec::new();
    push_word(&mut out, GLB_HEADER_MAGIC);
    push_word(&mut out, GLB_VERSION);
    push_word(&mut out, total);
    push_word(&mut out, json_len);
    push_word(&mut out, GLB_JSON_CHUNK_MAGIC);
    append_bytes(&mut out, json.as_slice());
    push_word(&mut out, binary_len);
    push_word(&mut out, GLB_DATA_CHUNK_MAGIC);
    append_bytes(&mut out, binary.as_slice());
    proof {
        assert(out@ =~= glb_frame(json@, binary@));
    }
    out
}

} // verus!
