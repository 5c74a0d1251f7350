use last_legend_dob::error::LastLegendError;
use last_legend_dob::index2::{Index2, Index2Entry};
use last_legend_dob::pack_header::{ContentType, PlatformId, SqPackTimestamp};
use last_legend_dob::sqpath::SqPath;

fn le32(v: u32) -> [u8; 4] {
    v.to_le_bytes()
}

/// A synthetic index file with the given hash/packed entry pairs.
fn build_index(entries: &[(u32, u32)]) -> Vec<u8> {
    let mut d = Vec::new();
    // Pack header, 32 bytes.
    d.extend_from_slice(b"SqPack\0\0");
    d.extend_from_slice(&le32(0)); // win32
    d.extend_from_slice(&le32(32)); // size
    d.extend_from_slice(&le32(1)); // version
    d.extend_from_slice(&le32(2)); // default content
    d.extend_from_slice(&le32(20240102)); // date
    d.extend_from_slice(&le32(15304500)); // time
    // Index header, 16 bytes at 32.
    d.extend_from_slice(&le32(16));
    d.extend_from_slice(&le32(1)); // index type
    d.extend_from_slice(&le32(48)); // index data offset
    d.extend_from_slice(&le32((entries.len() * 8) as u32)); // index data size
    for (hash, packed) in entries {
        d.extend_from_slice(&le32(*hash));
        d.extend_from_slice(&le32(*packed));
    }
    d
}

#[test]
fn index_entry_decode_unpacks_the_fields() {
    let e = Index2Entry::decode(0xDEAD_BEEF, 0x0000_0123);
    assert_eq!(e.hash, 0xDEAD_BEEF);
    assert_eq!(e.data_file_id, 1);
    assert_eq!(e.offset_bytes, 0x900);
}

#[test]
fn index_parses_headers_and_entries() {
    let hash = SqPath::new("music/ffxiv/BGM_System_Title.scd").sq_index_hash();
    let d = build_index(&[(hash, 0x0123), (0x1111, 0x0246)]);
    let ix = Index2::parse(&d, String::from("/r/ffxiv/0c0000.win32.index2")).unwrap();
    assert_eq!(ix.pack_header.platform_id, PlatformId::Win32);
    assert_eq!(ix.pack_header.content_type, ContentType::Default);
    assert_eq!(
        ix.pack_header.timestamp,
        SqPackTimestamp::Present {
            year: 2024,
            month: 1,
            day: 2,
            hour: 15,
            minute: 30,
            second: 45,
        }
    );
    assert_eq!(ix.index_header.index_data_offset, 48);
    assert_eq!(ix.entries().len(), 2);
    assert_eq!(ix.entries()[0].hash, hash);
    assert_eq!(ix.entries()[1].data_file_id, 3);
}

#[test]
fn get_entry_finds_by_hash_in_any_case() {
    let hash = SqPath::new("music/ffxiv/bgm_system_title.scd").sq_index_hash();
    let d = build_index(&[(0x2222, 0x10), (hash, 0x0123)]);
    let ix = Index2::parse(&d, String::from("/r/ffxiv/0c0000.win32.index2")).unwrap();
    let entry = ix
        .get_entry(&SqPath::new("MUSIC/ffxiv/BGM_System_Title.SCD"))
        .unwrap();
    assert_eq!(entry.hash, hash);
    assert_eq!(entry.data_file_id, 1);
}

#[test]
fn get_entry_misses_with_its_own_error() {
    let d = build_index(&[(0x2222, 0x10)]);
    let ix = Index2::parse(&d, String::from("/r/ffxiv/0c0000.win32.index2")).unwrap();
    match ix.get_entry(&SqPath::new("music/ffxiv/nothing_here.scd")) {
        Err(LastLegendError::MissingEntryFromIndex(p, ixp)) => {
            assert_eq!(p.as_str(), "music/ffxiv/nothing_here.scd");
            assert_eq!(ixp, "/r/ffxiv/0c0000.win32.index2");
        }
        other => panic!("expected MissingEntryFromIndex, got {:?}", other),
    }
}

#[test]
fn data_file_path_replaces_the_suffix() {
    let d = build_index(&[(0x2222, 0x0123)]);
    let ix = Index2::parse(&d, String::from("/r/ffxiv/0c0000.win32.index2")).unwrap();
    let entry = ix.entries()[0];
    assert_eq!(entry.data_file_id, 1);
    assert_eq!(ix.data_file_path(&entry), "/r/ffxiv/0c0000.win32.dat1");
}

#[test]
fn bad_pack_magic_is_refused() {
    let mut d = build_index(&[(0x2222, 0x10)]);
    d[0] = b'X';
    match Index2::parse(&d, String::from("ix")) {
        Err(LastLegendError::InvalidFormat(_)) => {}
        other => panic!("expected InvalidFormat, got {:?}", other),
    }
}

#[test]
fn wrong_index_type_is_refused() {
    let mut d = build_index(&[(0x2222, 0x10)]);
    // The index type field sits right after the index header's size.
    d[36..40].copy_from_slice(&le32(7));
    match Index2::parse(&d, String::from("ix")) {
        Err(LastLegendError::InvalidFormat(_)) => {}
        other => panic!("expected InvalidFormat, got {:?}", other),
    }
}

#[test]
fn context_wraps_an_error() {
    let e = LastLegendError::Io(String::from("short read"));
    match e.add_context(String::from("while loading")) {
        LastLegendError::LastLegend(m, inner) => {
            assert_eq!(m, "while loading");
            match *inner {
                LastLegendError::Io(m2) => assert_eq!(m2, "short read"),
                other => panic!("expected Io, got {:?}", other),
            }
        }
        other => panic!("expected LastLegend, got {:?}", other),
    }
}
