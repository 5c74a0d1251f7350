use std::io::Write;

use last_legend_dob::dat::{Buffer, DatEntryHeader};
use last_legend_dob::error::LastLegendError;

fn le32(v: u32) -> [u8; 4] {
    v.to_le_bytes()
}

fn le16(v: u16) -> [u8; 2] {
    v.to_le_bytes()
}

/// Deflate-compress `data` with the default settings.
fn deflate(data: &[u8]) -> Vec<u8> {
    let mut enc =
        flate2::write::DeflateEncoder::new(Vec::new(), flate2::Compression::default());
    enc.write_all(data).unwrap();
    enc.finish().unwrap()
}

/// A synthetic entry with one deflate-compressed block of 200 bytes and
/// one stored block of 500 bytes.
fn build_two_block_entry() -> (Vec<u8>, Vec<u8>) {
    let first: Vec<u8> = (0..200u32).map(|i| (i * 7 % 256) as u8).collect();
    let second: Vec<u8> = (0..500u32).map(|i| (i * 13 % 256) as u8).collect();
    let comp = deflate(&first);
    let comp_len = comp.len() as u32;

    // The second block starts after the first block's padded footprint.
    let phys1 = 16 + comp_len;
    let off2 = if phys1 % 128 != 0 { phys1 + (128 - phys1 % 128) } else { phys1 };

    let mut d = Vec::new();
    // Entry header: 24 bytes of fields plus two 8-byte descriptors.
    d.extend_from_slice(&le32(40)); // header_size
    d.extend_from_slice(&le32(2)); // content type: binary
    d.extend_from_slice(&le32(700)); // uncompressed size
    d.extend_from_slice(&le32(0)); // unknown
    d.extend_from_slice(&le32(16000)); // block size
    d.extend_from_slice(&le32(2)); // num blocks
    // Descriptor one.
    d.extend_from_slice(&le32(0));
    d.extend_from_slice(&le16(0));
    d.extend_from_slice(&le16(200));
    // Descriptor two.
    d.extend_from_slice(&le32(off2));
    d.extend_from_slice(&le16(0));
    d.extend_from_slice(&le16(500));
    assert_eq!(d.len(), 40);
    // Block one at content base + 0.
    d.extend_from_slice(&le32(0x10));
    d.extend_from_slice(&le32(0));
    d.extend_from_slice(&le32(comp_len));
    d.extend_from_slice(&le32(200));
    d.extend_from_slice(&comp);
    // Pad to the second block's offset.
    while d.len() < 40 + off2 as usize {
        d.push(0);
    }
    // Block two: stored raw.
    d.extend_from_slice(&le32(0x10));
    d.extend_from_slice(&le32(0));
    d.extend_from_slice(&le32(32000));
    d.extend_from_slice(&le32(500));
    d.extend_from_slice(&second);

    let mut expected = first.clone();
    expected.extend_from_slice(&second);
    (d, expected)
}

#[test]
fn two_blocks_decode_to_seven_hundred_bytes() {
    let (d, expected) = build_two_block_entry();
    let header = DatEntryHeader::parse(&d).unwrap();
    assert_eq!(header.uncompressed_size, 700);
    assert_eq!(header.num_blocks, 2);
    let content = header.read_content_to_vec(&d).unwrap();
    assert_eq!(content.len(), 700);
    assert_eq!(content, expected);
}

#[test]
fn streaming_reader_agrees_and_ends() {
    let (d, expected) = build_two_block_entry();
    let header = DatEntryHeader::parse(&d).unwrap();
    let mut reader = header.read_content(d);
    let mut streamed = Vec::new();
    loop {
        let chunk = reader.read(64).unwrap();
        if chunk.is_empty() {
            break;
        }
        streamed.extend_from_slice(&chunk);
    }
    assert_eq!(streamed, expected);
    // Once done, the reader reports completion and keeps yielding nothing.
    assert!(reader.is_finished());
    assert!(reader.read(64).unwrap().is_empty());
    let back = reader.into_inner();
    assert_eq!(back.len() >= 700, true);
}

#[test]
fn fresh_buffer_is_empty_with_the_given_capacity() {
    let b = Buffer::with_capacity(8);
    assert_eq!(b.content.len(), 8);
    assert_eq!(b.pos, 0);
    assert_eq!(b.limit, 0);
    assert_eq!(b.len(), 0);
    assert!(!b.can_read());
}

#[test]
fn read_hands_out_full_chunks_until_a_block_ends() {
    let (d, expected) = build_two_block_entry();
    let header = DatEntryHeader::parse(&d).unwrap();
    let mut reader = header.read_content(d);
    // A zero-byte request is not the end of the stream.
    assert!(reader.read(0).unwrap().is_empty());
    assert!(!reader.is_finished());
    // The first block holds 200 bytes: three full chunks, then the tail.
    assert_eq!(reader.read(64).unwrap().len(), 64);
    assert_eq!(reader.read(64).unwrap().len(), 64);
    assert_eq!(reader.read(64).unwrap().len(), 64);
    assert_eq!(reader.read(64).unwrap().len(), 8);
    // The second block holds 500 bytes and fits one request.
    let rest = reader.read(1000).unwrap();
    assert_eq!(rest.len(), 500);
    assert_eq!(rest, expected[200..]);
    assert!(reader.is_finished());
}

#[test]
fn non_binary_content_is_refused() {
    let mut d = Vec::new();
    d.extend_from_slice(&le32(24));
    d.extend_from_slice(&le32(4)); // texture
    d.extend_from_slice(&le32(0));
    d.extend_from_slice(&le32(0));
    d.extend_from_slice(&le32(0));
    d.extend_from_slice(&le32(0));
    match DatEntryHeader::parse(&d) {
        Err(LastLegendError::UnsupportedContentType(c)) => assert_eq!(c, 4),
        other => panic!("expected UnsupportedContentType, got {:?}", other),
    }
}

#[test]
fn size_disagreement_is_refused() {
    let mut d = Vec::new();
    d.extend_from_slice(&le32(32));
    d.extend_from_slice(&le32(2));
    d.extend_from_slice(&le32(999)); // does not match the block sizes
    d.extend_from_slice(&le32(0));
    d.extend_from_slice(&le32(16000));
    d.extend_from_slice(&le32(1));
    d.extend_from_slice(&le32(0));
    d.extend_from_slice(&le16(0));
    d.extend_from_slice(&le16(200));
    match DatEntryHeader::parse(&d) {
        Err(LastLegendError::InvalidFormat(_)) => {}
        other => panic!("expected InvalidFormat, got {:?}", other),
    }
}

#[test]
fn corrupt_deflate_block_fails_with_io() {
    let mut d = Vec::new();
    d.extend_from_slice(&le32(32));
    d.extend_from_slice(&le32(2));
    d.extend_from_slice(&le32(200));
    d.extend_from_slice(&le32(0));
    d.extend_from_slice(&le32(16000));
    d.extend_from_slice(&le32(1));
    d.extend_from_slice(&le32(0));
    d.extend_from_slice(&le16(0));
    d.extend_from_slice(&le16(200));
    // Block header says 8 compressed bytes, but they are deflate garbage.
    d.extend_from_slice(&le32(0x10));
    d.extend_from_slice(&le32(0));
    d.extend_from_slice(&le32(8));
    d.extend_from_slice(&le32(200));
    d.extend_from_slice(&[0xFF; 8]);
    let header = DatEntryHeader::parse(&d).unwrap();
    match header.read_content_to_vec(&d) {
        Err(LastLegendError::Io(_)) => {}
        other => panic!("expected Io, got {:?}", other),
    }
}

#[test]
fn block_header_size_disagreement_is_fatal() {
    let (mut d, _) = build_two_block_entry();
    // Corrupt the first block header's decompressed length.
    let base = 40;
    d[base + 12] = 7;
    let header = DatEntryHeader::parse(&d).unwrap();
    match header.read_content_to_vec(&d) {
        Err(LastLegendError::InvalidFormat(_)) => {}
        other => panic!("expected InvalidFormat, got {:?}", other),
    }
}
