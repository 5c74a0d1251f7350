use last_legend_dob::sqpath::SqPathBuf;
use last_legend_dob::transformers::{
    run_chain, ChainProgress, ExternalOp, LoopFlac, LoopOgg, ScdAudioTransform, ScdTf,
    TransformStep, TransformerImpl,
};
use last_legend_dob::xor::{XorLookup, XorRead};

fn le32(v: u32) -> [u8; 4] {
    v.to_le_bytes()
}

fn le16(v: u16) -> [u8; 2] {
    v.to_le_bytes()
}

/// A minimal SCD container with one plain OGG sound entry.
fn build_plain_ogg_scd(vorbis: &[u8], payload: &[u8]) -> Vec<u8> {
    let mut d = Vec::new();
    d.extend_from_slice(b"SEDBSSCF");
    d.extend_from_slice(&le32(3));
    d.extend_from_slice(&[0, 0]);
    d.extend_from_slice(&le16(16));
    d.extend_from_slice(&le32(0));
    d.extend_from_slice(&le16(1));
    d.extend_from_slice(&[0; 6]);
    d.extend_from_slice(&le32(32));
    d.extend_from_slice(&le32(36));
    d.extend_from_slice(&le32(payload.len() as u32));
    d.extend_from_slice(&le32(2));
    d.extend_from_slice(&le32(44100));
    d.extend_from_slice(&le32(6));
    d.extend_from_slice(&le32(0));
    d.extend_from_slice(&le32(0));
    d.extend_from_slice(&le32(0));
    d.extend_from_slice(&le32(0));
    d.extend_from_slice(&le16(0));
    d.push(0);
    d.extend_from_slice(&[0; 13]);
    d.extend_from_slice(&le32(0));
    d.extend_from_slice(&le32(vorbis.len() as u32));
    d.extend_from_slice(&[0; 8]);
    d.extend_from_slice(vorbis);
    d.extend_from_slice(payload);
    d
}

#[test]
fn empty_chain_is_identity() {
    let content: Vec<u8> = vec![1, 2, 3, 4];
    let progress = run_chain(SqPathBuf::new("a/b/c.bin"), content.clone(), &Vec::new()).unwrap();
    match progress {
        ChainProgress::Done(tr) => {
            assert_eq!(tr.file_name.as_str(), "a/b/c.bin");
            assert_eq!(tr.content, content);
        }
        other => panic!("expected Done, got {:?}", other),
    }
}

#[test]
fn non_matching_chain_is_identity() {
    let content: Vec<u8> = vec![9, 8, 7];
    let ts = vec![TransformerImpl::ScdToOgg, TransformerImpl::LoopOgg];
    let progress = run_chain(SqPathBuf::new("a/b/c.bin"), content.clone(), &ts).unwrap();
    match progress {
        ChainProgress::Done(tr) => {
            assert_eq!(tr.file_name.as_str(), "a/b/c.bin");
            assert_eq!(tr.content, content);
        }
        other => panic!("expected Done, got {:?}", other),
    }
}

#[test]
fn scd_to_ogg_then_loop_pauses_at_the_transcoder() {
    let vorbis = b"OggS-head";
    let payload = b"payload-bytes";
    let scd = build_plain_ogg_scd(vorbis, payload);
    let ts = vec![TransformerImpl::ScdToOgg, TransformerImpl::LoopOgg];
    let progress = run_chain(SqPathBuf::new("music/ffxiv/song.scd"), scd, &ts).unwrap();
    match progress {
        ChainProgress::External { file_name, job, rest } => {
            assert_eq!(file_name.as_str(), "music/ffxiv/song.ogg");
            assert_eq!(job.op, ExternalOp::LoopMeta);
            assert_eq!(job.format, "ogg");
            let mut expected = vorbis.to_vec();
            expected.extend_from_slice(payload);
            assert_eq!(job.input, expected);
            assert!(rest.is_empty());
        }
        other => panic!("expected External, got {:?}", other),
    }
}

#[test]
fn flac_to_ogg_renames_and_asks_for_a_rewrap() {
    let content: Vec<u8> = vec![1, 2, 3];
    let ts = vec![TransformerImpl::FlacToOgg];
    let progress = run_chain(SqPathBuf::new("x/y/z.flac"), content.clone(), &ts).unwrap();
    match progress {
        ChainProgress::External { file_name, job, rest } => {
            assert_eq!(file_name.as_str(), "x/y/z.ogg");
            assert_eq!(job.op, ExternalOp::Rewrap);
            assert_eq!(job.format, "ogg");
            assert_eq!(job.input, content);
            assert!(rest.is_empty());
        }
        other => panic!("expected External, got {:?}", other),
    }
}

#[test]
fn scd_transformer_binds_and_renames() {
    let tf = ScdTf { audio_transform: ScdAudioTransform::Flac };
    assert!(tf.maybe_for(SqPathBuf::new("a/b/c.bin")).is_none());
    let bound = tf.maybe_for(SqPathBuf::new("a/b/c.scd")).unwrap();
    assert_eq!(bound.renamed_file().as_str(), "a/b/c.flac");
}

#[test]
fn scd_transform_step_routes_ogg_to_flac() {
    let scd = build_plain_ogg_scd(b"OggS", b"pp");
    let tf = ScdTf { audio_transform: ScdAudioTransform::Flac };
    let bound = tf.maybe_for(SqPathBuf::new("a.scd")).unwrap();
    match bound.transform(scd).unwrap() {
        TransformStep::External(job) => {
            assert_eq!(job.op, ExternalOp::Rewrap);
            assert_eq!(job.format, "flac");
            assert_eq!(job.input, b"OggSpp".to_vec());
        }
        other => panic!("expected External, got {:?}", other),
    }
}

#[test]
fn transformer_tags_parse() {
    assert_eq!(
        TransformerImpl::parse_tag("scd_to_flac"),
        Some(TransformerImpl::ScdToFlac)
    );
    assert_eq!(
        TransformerImpl::parse_tag("loop_flac"),
        Some(TransformerImpl::LoopFlac)
    );
    assert_eq!(
        TransformerImpl::parse_tag("scd_to_ogg"),
        Some(TransformerImpl::ScdToOgg)
    );
    assert_eq!(
        TransformerImpl::parse_tag("loop_ogg"),
        Some(TransformerImpl::LoopOgg)
    );
    assert_eq!(
        TransformerImpl::parse_tag("flac_to_ogg"),
        Some(TransformerImpl::FlacToOgg)
    );
    assert_eq!(
        TransformerImpl::parse_tag("scd_to_wav"),
        Some(TransformerImpl::ScdToWav)
    );
    assert_eq!(TransformerImpl::parse_tag("nonsense"), None);
}

#[test]
fn xor_double_apply_is_identity() {
    let data: Vec<u8> = (0..200u32).map(|i| (i * 31 % 256) as u8).collect();
    let mut once = XorRead::new(data.clone(), XorLookup::Fixed(0xA7));
    let xored = once.read_to_end();
    assert_ne!(xored, data);
    let mut twice = XorRead::new(xored, XorLookup::Fixed(0xA7));
    assert_eq!(twice.read_to_end(), data);

    let lookup = XorLookup::ScdTable { table_off: 17, static_xor: 0x2C };
    let mut once = XorRead::new(data.clone(), lookup);
    let xored = once.read_to_end();
    let mut twice = XorRead::new(xored, lookup);
    assert_eq!(twice.read_to_end(), data);
}

#[test]
fn xor_read_respects_positions_across_reads() {
    let data: Vec<u8> = (0..50u32).map(|i| i as u8).collect();
    let mut r = XorRead::new(data.clone(), XorLookup::Fixed(0x0F));
    let mut out = Vec::new();
    loop {
        let chunk = r.read(7);
        if chunk.is_empty() {
            break;
        }
        out.extend_from_slice(&chunk);
    }
    let expected: Vec<u8> = data.iter().map(|b| b ^ 0x0F).collect();
    assert_eq!(out, expected);
}

#[test]
fn standalone_loop_transformers_bind_by_extension() {
    let flac = LoopFlac;
    assert!(flac.maybe_for(SqPathBuf::new("a.ogg")).is_none());
    let bound = flac.maybe_for(SqPathBuf::new("a.flac")).unwrap();
    assert_eq!(bound.renamed_file().as_str(), "a.flac");
    match bound.transform(vec![5, 6]) {
        TransformStep::External(job) => {
            assert_eq!(job.op, ExternalOp::LoopMeta);
            assert_eq!(job.format, "flac");
            assert_eq!(job.input, vec![5, 6]);
        }
        other => panic!("expected External, got {:?}", other),
    }
    let ogg = LoopOgg;
    assert!(ogg.maybe_for(SqPathBuf::new("a.flac")).is_none());
    let bound = ogg.maybe_for(SqPathBuf::new("a.ogg")).unwrap();
    assert_eq!(bound.renamed_file().as_str(), "a.ogg");
    match bound.transform(vec![7]) {
        TransformStep::External(job) => {
            assert_eq!(job.op, ExternalOp::LoopMeta);
            assert_eq!(job.format, "ogg");
        }
        other => panic!("expected External, got {:?}", other),
    }
}
