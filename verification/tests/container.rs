use glbtex::container::{parse_container, write_container};
use glbtex::errors::GlbError;

fn le(x: u32) -> [u8; 4] {
    x.to_le_bytes()
}

fn sample_container(json: &[u8], binary: &[u8]) -> Vec<u8> {
    write_container(&json.to_vec(), &binary.to_vec())
}

#[test]
fn write_container_exact_bytes() {
    let out = sample_container(b"{}", &[1, 2, 3]);
    let mut expected: Vec<u8> = Vec::new();
    expected.extend_from_slice(&le(0x46546C67));
    expected.extend_from_slice(&le(2));
    expected.extend_from_slice(&le(33));
    expected.extend_from_slice(&le(2));
    expected.extend_from_slice(&le(0x4E4F534A));
    expected.extend_from_slice(b"{}");
    expected.extend_from_slice(&le(3));
    expected.extend_from_slice(&le(0x004E4942));
    expected.extend_from_slice(&[1, 2, 3]);
    assert_eq!(out, expected);
}

#[test]
fn parse_recovers_written_chunks() {
    let out = sample_container(b"{\"a\":1}", &[9, 8, 7, 6]);
    let (json, payload) = parse_container(&out).unwrap();
    assert_eq!(json, b"{\"a\":1}".to_vec());
    assert_eq!(payload, vec![9, 8, 7, 6]);
}

#[test]
fn corrupted_magic_is_invalid_container() {
    let mut out = sample_container(b"{}", &[]);
    out[0] = 0x00;
    assert_eq!(parse_container(&out), Err(GlbError::InvalidContainer));
}

#[test]
fn declared_length_beyond_supplied_bytes_is_truncated() {
    let mut out = sample_container(b"{}", &[1, 2, 3]);
    let total = out.len() as u32;
    out[8..12].copy_from_slice(&le(total + 1));
    assert_eq!(parse_container(&out), Err(GlbError::TruncatedContainer));
}

#[test]
fn short_input_is_truncated() {
    assert_eq!(parse_container(&vec![0x67, 0x6C]), Err(GlbError::TruncatedContainer));
    let header_only = vec![0x67, 0x6C, 0x54, 0x46, 2, 0, 0, 0];
    assert_eq!(parse_container(&header_only), Err(GlbError::TruncatedContainer));
}

#[test]
fn wrong_json_chunk_tag_is_unexpected_chunk_type() {
    let mut out = sample_container(b"{}", &[]);
    out[16..20].copy_from_slice(&le(0x004E4942));
    assert_eq!(parse_container(&out), Err(GlbError::UnexpectedChunkType));
}

#[test]
fn wrong_binary_chunk_tag_is_unexpected_chunk_type() {
    let mut out = sample_container(b"{}", &[5]);
    let tag_at = 12 + 8 + 2;
    out[tag_at + 4..tag_at + 8].copy_from_slice(&le(0x4E4F534A));
    assert_eq!(parse_container(&out), Err(GlbError::UnexpectedChunkType));
}

#[test]
fn json_chunk_overrunning_buffer_is_truncated() {
    let mut out = sample_container(b"{}", &[]);
    out[12..16].copy_from_slice(&le(1000));
    assert_eq!(parse_container(&out), Err(GlbError::TruncatedContainer));
}

#[test]
fn binary_chunk_overrunning_buffer_is_truncated() {
    let mut out = sample_container(b"{}", &[1, 2, 3]);
    let len_at = 12 + 8 + 2;
    out[len_at..len_at + 4].copy_from_slice(&le(4));
    assert_eq!(parse_container(&out), Err(GlbError::TruncatedContainer));
}
