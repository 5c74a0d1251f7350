use last_legend_dob::error::LastLegendError;
use last_legend_dob::scd::{decode_scd, ScdPayload};
use last_legend_dob::xor::XOR_TABLE;

fn le32(v: u32) -> [u8; 4] {
    v.to_le_bytes()
}

fn le16(v: u16) -> [u8; 2] {
    v.to_le_bytes()
}

/// A minimal SCD container with one OGG sound entry.
fn build_ogg_scd(enc: u16, xor_byte: u8, vorbis: &[u8], payload: &[u8]) -> Vec<u8> {
    let mut d = Vec::new();
    d.extend_from_slice(b"SEDBSSCF");
    d.extend_from_slice(&le32(3)); // version
    d.extend_from_slice(&[0, 0]); // pad
    d.extend_from_slice(&le16(16)); // header size
    // Offsets header at 16.
    d.extend_from_slice(&le32(0)); // pad
    d.extend_from_slice(&le16(1)); // sound entries size
    d.extend_from_slice(&[0; 6]); // pad
    d.extend_from_slice(&le32(32)); // sound entries offset
    // Entry table at 32.
    d.extend_from_slice(&le32(36));
    // Sound entry header at 36.
    d.extend_from_slice(&le32(payload.len() as u32)); // data size
    d.extend_from_slice(&le32(2)); // channels
    d.extend_from_slice(&le32(44100)); // frequency
    d.extend_from_slice(&le32(6)); // data type: ogg
    d.extend_from_slice(&le32(0)); // loop start
    d.extend_from_slice(&le32(0)); // loop end
    d.extend_from_slice(&le32(0)); // pre marker info size
    d.extend_from_slice(&le32(0)); // flags
    // Ogg meta header at 68.
    d.extend_from_slice(&le16(enc));
    d.push(xor_byte);
    d.extend_from_slice(&[0; 13]); // pad
    d.extend_from_slice(&le32(0)); // seek table size
    d.extend_from_slice(&le32(vorbis.len() as u32)); // vorbis header size
    d.extend_from_slice(&[0; 8]); // pad
    assert_eq!(d.len(), 100);
    d.extend_from_slice(vorbis);
    d.extend_from_slice(payload);
    d
}

/// A minimal SCD container with one MS-ADPCM sound entry.
fn build_adpcm_scd(payload: &[u8]) -> Vec<u8> {
    let mut d = Vec::new();
    d.extend_from_slice(b"SEDBSSCF");
    d.extend_from_slice(&le32(3));
    d.extend_from_slice(&[0, 0]);
    d.extend_from_slice(&le16(16));
    d.extend_from_slice(&le32(0));
    d.extend_from_slice(&le16(1));
    d.extend_from_slice(&[0; 6]);
    d.extend_from_slice(&le32(32));
    d.extend_from_slice(&le32(36));
    d.extend_from_slice(&le32(payload.len() as u32));
    d.extend_from_slice(&le32(2));
    d.extend_from_slice(&le32(44100));
    d.extend_from_slice(&le32(12)); // data type: ms-adpcm
    d.extend_from_slice(&le32(0));
    d.extend_from_slice(&le32(0));
    d.extend_from_slice(&le32(0));
    d.extend_from_slice(&le32(0));
    // The 50-byte WAVEFORMATEX-style chunk at 68.
    d.extend_from_slice(&le16(2)); // format tag
    d.extend_from_slice(&le16(2)); // channels
    d.extend_from_slice(&le32(44100)); // samples per second
    d.extend_from_slice(&le32(48000)); // avg bytes per second
    d.extend_from_slice(&le16(256)); // block align
    d.extend_from_slice(&le16(4)); // bits per sample
    d.extend_from_slice(&le16(32)); // size
    d.extend_from_slice(&le16(500)); // samples per block
    d.extend_from_slice(&le16(7)); // num coefficients
    for i in 0..14u16 {
        d.extend_from_slice(&le16(i));
    }
    assert_eq!(d.len(), 118);
    d.extend_from_slice(payload);
    d
}

#[test]
fn plain_ogg_is_header_then_payload() {
    let vorbis = b"OggS-vorbis-header";
    let payload: Vec<u8> = (0..64u32).map(|i| (i * 3 % 256) as u8).collect();
    let d = build_ogg_scd(0, 0, vorbis, &payload);
    let out = match decode_scd(&d).unwrap() {
        ScdPayload::Ogg(v) => v,
        other => panic!("expected ogg, got {:?}", other),
    };
    let mut expected = vorbis.to_vec();
    expected.extend_from_slice(&payload);
    assert_eq!(out, expected);
}

#[test]
fn vorbis_header_xor_is_undone() {
    let vorbis = b"OggSabcdefgh";
    let payload: Vec<u8> = (0..40u32).map(|i| (i * 5 % 256) as u8).collect();
    let key = 0x5A;
    let d = build_ogg_scd(0x2002, key, vorbis, &payload);
    let out = match decode_scd(&d).unwrap() {
        ScdPayload::Ogg(v) => v,
        other => panic!("expected ogg, got {:?}", other),
    };
    let mut expected: Vec<u8> = vorbis.iter().map(|b| b ^ key).collect();
    expected.extend_from_slice(&payload);
    assert_eq!(out, expected);
}

#[test]
fn internal_table_xor_is_undone() {
    let vorbis = b"OggS0123";
    let payload: Vec<u8> = (0..100u32).map(|i| (i * 11 % 256) as u8).collect();
    let d = build_ogg_scd(0x2003, 0, vorbis, &payload);
    let out = match decode_scd(&d).unwrap() {
        ScdPayload::Ogg(v) => v,
        other => panic!("expected ogg, got {:?}", other),
    };
    let data_size = payload.len() as u32;
    let static_xor = (data_size & 0x7F) as u8;
    let table_off = (data_size & 0x3F) as u8;
    let mut raw = vorbis.to_vec();
    raw.extend_from_slice(&payload);
    let expected: Vec<u8> = raw
        .iter()
        .enumerate()
        .map(|(i, b)| b ^ (XOR_TABLE[(table_off as usize + i) & 0xFF] ^ static_xor))
        .collect();
    assert_eq!(out, expected);
}

#[test]
fn adpcm_becomes_riff_wave() {
    let payload: Vec<u8> = (0..321u32).map(|i| (i % 256) as u8).collect();
    let d = build_adpcm_scd(&payload);
    let out = match decode_scd(&d).unwrap() {
        ScdPayload::Wav(v) => v,
        other => panic!("expected wav, got {:?}", other),
    };
    assert_eq!(&out[0..4], b"RIFF");
    let riff_size = u32::from_le_bytes(out[4..8].try_into().unwrap());
    assert_eq!(riff_size as usize, out.len() - 8);
    assert_eq!(&out[8..12], b"WAVE");
    assert_eq!(&out[12..16], b"fmt ");
    let fmt_len = u32::from_le_bytes(out[16..20].try_into().unwrap());
    assert_eq!(fmt_len, 50);
    // The format chunk is the input's own bytes.
    assert_eq!(&out[20..70], &d[68..118]);
    assert_eq!(&out[70..74], b"data");
    let data_len = u32::from_le_bytes(out[74..78].try_into().unwrap());
    assert_eq!(data_len as usize, payload.len());
    assert_eq!(&out[78..], &payload[..]);
}

#[test]
fn empty_sound_data_is_its_own_error() {
    let mut d = build_ogg_scd(0, 0, b"x", b"y");
    // Rewrite the data type to the all-ones empty marker.
    d[48..52].copy_from_slice(&le32(0xFFFF_FFFF));
    match decode_scd(&d) {
        Err(LastLegendError::Custom(m)) => assert_eq!(m, "Empty sound data"),
        other => panic!("expected Custom, got {:?}", other),
    }
}

#[test]
fn bad_magic_is_refused() {
    let mut d = build_ogg_scd(0, 0, b"x", b"y");
    d[0] = b'X';
    match decode_scd(&d) {
        Err(LastLegendError::InvalidFormat(_)) => {}
        other => panic!("expected InvalidFormat, got {:?}", other),
    }
}

#[test]
fn unknown_encryption_is_refused() {
    let d = build_ogg_scd(0x1234, 0, b"x", b"y");
    match decode_scd(&d) {
        Err(LastLegendError::InvalidFormat(_)) => {}
        other => panic!("expected InvalidFormat, got {:?}", other),
    }
}
