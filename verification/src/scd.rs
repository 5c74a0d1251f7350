//! The SCD audio container: a nested header structure that embeds either
//! an OGG/Vorbis stream, possibly obfuscated by one of two XOR schemes,
//! or an MS-ADPCM stream that is rewrapped as RIFF/WAVE.
use vstd::prelude::*;
use crate::bytesread::{copy_range, le16, le32, le4, push_u32_le, read_u16_le, read_u32_le};
use crate::error::LastLegendError;
use crate::xor::{xor_bytes, xor_seq, XorLookup};

verus! {

/// Whether the container opens with the SCD magic.
pub open spec fn scd_magic_ok(d: Seq<u8>) -> bool {
    &&& d.len() >= 8
    &&& d[0] == 0x53
    &&& d[1] == 0x45
    &&& d[2] == 0x44
    &&& d[3] == 0x42
    &&& d[4] == 0x53
    &&& d[5] == 0x53
    &&& d[6] == 0x43
    &&& d[7] == 0x46
}

/// The position of the sound entry header: through the magic, the version,
/// the offsets header and the entry table, each checked in turn.
pub open spec fn spec_scd_entry_pos(d: Seq<u8>) -> Option<int> {
    if d.len() < 16 || !scd_magic_ok(d) || le32(d, 8) != 3 {
        None
    } else {
        let hs = le16(d, 14) as int;
        if hs + 16 > d.len() || le16(d, hs + 4) != 1 {
            None
        } else {
            let seo = le32(d, hs + 12) as int;
            if seo + 4 > d.len() {
                None
            } else {
                let eto = le32(d, seo) as int;
                if eto + 32 > d.len() {
                    None
                } else {
                    Some(eto)
                }
            }
        }
    }
}

/// The declared size of the sound data.
pub open spec fn spec_scd_data_size(d: Seq<u8>) -> Option<u32> {
    match spec_scd_entry_pos(d) {
        None => None,
        Some(eto) => Some(le32(d, eto)),
    }
}

/// The sound entry's data type code; minus one, stored as all ones, marks
/// an empty entry.
pub open spec fn spec_scd_data_type(d: Seq<u8>) -> Option<u32> {
    match spec_scd_entry_pos(d) {
        None => None,
        Some(eto) => Some(le32(d, eto + 12)),
    }
}

/// The position right after the sound entry header and its optional
/// marker chunk: where the per-type sound data begins.
pub open spec fn spec_sound_data_pos(d: Seq<u8>) -> Option<int> {
    match spec_scd_entry_pos(d) {
        None => None,
        Some(eto) => {
            let flags = le32(d, eto + 28);
            if flags & 1 == 1 {
                if eto + 40 > d.len() {
                    None
                } else {
                    Some(eto + 32 + le32(d, eto + 36))
                }
            } else {
                Some(eto + 32)
            }
        },
    }
}

/// The OGG bytes the container yields: the vorbis header, undone of its
/// constant XOR when the header scheme is used, then the payload, the
/// whole undone of the table XOR when the table scheme is used.
pub open spec fn spec_ogg_output(d: Seq<u8>) -> Option<Seq<u8>> {
    match spec_sound_data_pos(d) {
        None => None,
        Some(p) => {
            let data_size = spec_scd_data_size(d)->0;
            if p + 24 > d.len() {
                None
            } else {
                let enc = le16(d, p);
                let xor_byte = d[p + 2];
                let sts = le32(d, p + 16);
                let vhs = le32(d, p + 20);
                let vh_start = p + 32 + 4 * (sts as int / 4);
                if !(enc == 0 || enc == 0x2002 || enc == 0x2003) {
                    None
                } else if vh_start + vhs > d.len() {
                    None
                } else {
                    let vh = d.subrange(vh_start, vh_start + vhs);
                    let ps = vh_start + vhs;
                    let pe = if ps + data_size <= d.len() {
                        ps + data_size
                    } else {
                        d.len() as int
                    };
                    let payload = d.subrange(ps, pe);
                    let header = if enc == 0x2002 {
                        xor_seq(vh, XorLookup::Fixed(xor_byte), 0)
                    } else {
                        vh
                    };
                    let base = header + payload;
                    if enc == 0x2003 {
                        Some(
                            xor_seq(
                                base,
                                XorLookup::ScdTable {
                                    table_off: (data_size & 0x3F) as u8,
                                    static_xor: (data_size & 0x7F) as u8,
                                },
                                0,
                            ),
                        )
                    } else {
                        Some(base)
                    }
                }
            }
        },
    }
}

/// A RIFF/WAVE file around an MS-ADPCM format chunk and its sound data:
/// the file-size field counts everything after itself and the magic; the
/// data-chunk length holds the declared size even when fewer bytes follow.
pub open spec fn spec_wav_wrap(fmt: Seq<u8>, declared: u32, body: Seq<u8>) -> Seq<u8> {
    seq![0x52u8, 0x49u8, 0x46u8, 0x46u8] + le4(20 + fmt.len() + body.len() as int) + seq![
        0x57u8,
        0x41u8,
        0x56u8,
        0x45u8,
    ] + seq![0x66u8, 0x6du8, 0x74u8, 0x20u8] + le4(fmt.len() as int) + fmt + seq![
        0x64u8,
        0x61u8,
        0x74u8,
        0x61u8,
    ] + le4(declared as int) + body
}

/// The WAVE bytes the container yields for an MS-ADPCM entry.
pub open spec fn spec_wav_output(d: Seq<u8>) -> Option<Seq<u8>> {
    match spec_sound_data_pos(d) {
        None => None,
        Some(p) => {
            let data_size = spec_scd_data_size(d)->0;
            if p + 50 > d.len() {
                None
            } else if le16(d, p) != 2 {
                None
            } else {
                let fmt = d.subrange(p, p + 50);
                let ps = p + 50;
                let pe = if ps + data_size <= d.len() {
                    ps + data_size
                } else {
                    d.len() as int
                };
                let body = d.subrange(ps, pe);
                if 70 + body.len() > 0xFFFF_FFFF {
                    None
                } else {
                    Some(spec_wav_wrap(fmt, data_size, body))
                }
            }
        },
    }
}

/// What a decoded SCD container holds, at the specification level.
pub enum ScdPayloadView {
    Ogg(Seq<u8>),
    Wav(Seq<u8>),
}

/// The decoded output of the whole container, by its data type.
pub open spec fn spec_scd_output(d: Seq<u8>) -> Option<ScdPayloadView> {
    match spec_scd_data_type(d) {
        None => None,
        Some(t) => if t == 6 {
            match spec_ogg_output(d) {
                Some(v) => Some(ScdPayloadView::Ogg(v)),
                None => None,
            }
        } else if t == 0xC {
            match spec_wav_output(d) {
                Some(v) => Some(ScdPayloadView::Wav(v)),
                None => None,
            }
        } else {
            None
        },
    }
}

/// What a decoded SCD container holds: a raw OGG stream, or an MS-ADPCM
/// stream already wrapped as RIFF/WAVE.
#[derive(Debug)]
pub enum ScdPayload {
    Ogg(Vec<u8>),
    Wav(Vec<u8>),
}

/// Decode a whole SCD container held in memory. Succeeds exactly when the
/// container parses with a non-empty sound entry of a known data type,
/// and then yields exactly the stream [`spec_scd_output`] describes; an
/// empty sound entry is reported in its own words.
pub fn decode_scd(content: &Vec<u8>) -> (r: Result<ScdPayload, LastLegendError>)
    ensures
        match r {
            Ok(p) => match p {
                ScdPayload::Ogg(v) => spec_scd_output(content@) == Some(
                    ScdPayloadView::Ogg(v@),
                ),
                ScdPayload::Wav(v) => spec_scd_output(content@) == Some(
                    ScdPayloadView::Wav(v@),
                ),
            },
            Err(_) => spec_scd_output(content@) is None,
        },
        (spec_scd_data_type(content@) == Some(0xFFFF_FFFFu32) && spec_sound_data_pos(
            content@,
        ) is Some) ==> (r matches Err(e) && e matches LastLegendError::Custom(m) && m@
            == "Empty sound data"@),
        (r matches Err(e) && e is Custom) ==> (spec_scd_data_type(content@) == Some(
            0xFFFF_FFFFu32,
        ) && spec_sound_data_pos(content@) is Some),
{
    let d = content;
    let n = d.len();
    if n < 16 {
        return Err(LastLegendError::InvalidFormat(String::from_str("SCD is truncated")));
    }
    if !(d[0] == 0x53 && d[1] == 0x45 && d[2] == 0x44 && d[3] == 0x42 && d[4] == 0x53 && d[5]
        == 0x53 && d[6] == 0x43 && d[7] == 0x46) {
        return Err(LastLegendError::InvalidFormat(String::from_str("Bad SCD magic")));
    }
    if read_u32_le(d, 8) != 3 {
        return Err(LastLegendError::InvalidFormat(String::from_str("Unsupported SCD version")));
    }
    let hs = read_u16_le(d, 14) as usize;
    if hs + 16 > n {
        return Err(LastLegendError::InvalidFormat(String::from_str("SCD offsets out of range")));
    }
    if read_u16_le(d, hs + 4) != 1 {
        return Err(
            LastLegendError::InvalidFormat(String::from_str("Only one sound entry is supported")),
        );
    }
    let seo64 = read_u32_le(d, hs + 12) as u64;
    if seo64 + 4 > n as u64 {
        return Err(
            LastLegendError::InvalidFormat(String::from_str("SCD entry table out of range")),
        );
    }
    let seo = seo64 as usize;
    let eto64 = read_u32_le(d, seo) as u64;
    if eto64 + 32 > n as u64 {
        return Err(
            LastLegendError::InvalidFormat(String::from_str("SCD sound entry out of range")),
        );
    }
    let eto = eto64 as usize;
    proof {
        assert(spec_scd_entry_pos(d@) == Some(eto as int));
    }
    let data_size = read_u32_le(d, eto);
    let data_type = read_u32_le(d, eto + 12);
    let flags = read_u32_le(d, eto + 28);
    let p64: u64 = if flags % 2 == 1 {
        proof {
            let fl = le32(d@, eto + 28);
            assert(fl & 1 == 1) by (bit_vector)
                requires
                    fl % 2 == 1,
            ;
        }
        if eto as u64 + 40 > n as u64 {
            return Err(
                LastLegendError::InvalidFormat(String::from_str("SCD markers out of range")),
            );
        }
        let msize = read_u32_le(d, eto + 36) as u64;
        eto as u64 + 32 + msize
    } else {
        proof {
            let fl = le32(d@, eto + 28);
            assert(fl & 1 != 1) by (bit_vector)
                requires
                    fl % 2 == 0,
            ;
        }
        eto as u64 + 32
    };
    proof {
        assert(spec_sound_data_pos(d@) == Some(p64 as int));
    }
    if data_type == 6 {
        match decode_ogg_at(d, p64, data_size) {
            Ok(v) => Ok(ScdPayload::Ogg(v)),
            Err(e) => Err(e),
        }
    } else if data_type == 0xC {
        match decode_wav_at(d, p64, data_size) {
            Ok(v) => Ok(ScdPayload::Wav(v)),
            Err(e) => Err(e),
        }
    } else if data_type == 0xFFFF_FFFF {
        Err(LastLegendError::Custom(String::from_str("Empty sound data")))
    } else {
        Err(LastLegendError::InvalidFormat(String::from_str("Unknown sound data type")))
    }
}

/// Decode the OGG branch of a container whose sound data begins at `p64`.
fn decode_ogg_at(d: &Vec<u8>, p64: u64, data_size: u32) -> (r: Result<Vec<u8>, LastLegendError>)
    requires
        spec_sound_data_pos(d@) == Some(p64 as int),
        spec_scd_data_size(d@) == Some(data_size),
    ensures
        match r {
            Ok(v) => spec_ogg_output(d@) == Some(v@),
            Err(e) => spec_ogg_output(d@) is None && e is InvalidFormat,
        },
{
    let n = d.len();
    {
        if p64 + 24 > n as u64 {
            return Err(
                LastLegendError::InvalidFormat(String::from_str("SCD sound data out of range")),
            );
        }
        let p = p64 as usize;
        let enc = read_u16_le(d, p);
        let xor_byte = d[p + 2];
        let sts = read_u32_le(d, p + 16);
        let vhs = read_u32_le(d, p + 20);
        if !(enc == 0 || enc == 0x2002 || enc == 0x2003) {
            return Err(
                LastLegendError::InvalidFormat(String::from_str("Unknown encryption type")),
            );
        }
        let stb = (sts / 4) as u64 * 4;
        let vh_start64 = p as u64 + 32 + stb;
        if vh_start64 + vhs as u64 > n as u64 {
            return Err(
                LastLegendError::InvalidFormat(String::from_str("Vorbis header out of range")),
            );
        }
        let vh_start = vh_start64 as usize;
        let ps = vh_start + vhs as usize;
        let pe: usize = if ps as u64 + data_size as u64 <= n as u64 {
            ps + data_size as usize
        } else {
            n
        };
        let vh = copy_range(d, vh_start, ps);
        let header = if enc == 0x2002 {
            xor_bytes(&vh, XorLookup::Fixed(xor_byte), 0)
        } else {
            vh
        };
        let mut base = header;
        let ghost header_view = base@;
        let mut payload = copy_range(d, ps, pe);
        let ghost payload_view = payload@;
        base.append(&mut payload);
        proof {
            assert(base@ =~= header_view + payload_view);
        }
        let out = if enc == 0x2003 {
            let lookup = XorLookup::ScdTable {
                table_off: (data_size & 0x3F) as u8,
                static_xor: (data_size & 0x7F) as u8,
            };
            xor_bytes(&base, lookup, 0)
        } else {
            base
        };
        proof {
            assert(spec_ogg_output(d@) == Some(out@));
        }
        Ok(out)
    }
}

/// Decode the MS-ADPCM branch of a container whose sound data begins at
/// `p64`, wrapping it as RIFF/WAVE.
fn decode_wav_at(d: &Vec<u8>, p64: u64, data_size: u32) -> (r: Result<Vec<u8>, LastLegendError>)
    requires
        spec_sound_data_pos(d@) == Some(p64 as int),
        spec_scd_data_size(d@) == Some(data_size),
    ensures
        match r {
            Ok(v) => spec_wav_output(d@) == Some(v@),
            Err(e) => spec_wav_output(d@) is None && e is InvalidFormat,
        },
{
    let n = d.len();
    {
        if p64 + 50 > n as u64 {
            return Err(
                LastLegendError::InvalidFormat(String::from_str("SCD sound data out of range")),
            );
        }
        let p = p64 as usize;
        if read_u16_le(d, p) != 2 {
            return Err(
                LastLegendError::InvalidFormat(String::from_str("Only MS ADPCM is supported")),
            );
        }
        let mut fmt = copy_range(d, p, p + 50);
        let ps = p + 50;
        let pe: usize = if ps as u64 + data_size as u64 <= n as u64 {
            ps + data_size as usize
        } else {
            n
        };
        let mut body = copy_range(d, ps, pe);
        if body.len() as u64 + 70 > 0xFFFF_FFFFu64 {
            return Err(
                LastLegendError::InvalidFormat(String::from_str("Sound data too large for WAVE")),
            );
        }
        let ghost fmt_view = fmt@;
        let ghost body_view = body@;
        let riff_size = (70 + body.len() as u64) as u32;
        let mut wav: Vec<u8> = Vec::new();
        wav.push(0x52);
        wav.push(0x49);
        wav.push(0x46);
        wav.push(0x46);
        push_u32_le(&mut wav, riff_size);
        wav.push(0x57);
        wav.push(0x41);
        wav.push(0x56);
        wav.push(0x45);
        wav.push(0x66);
        wav.push(0x6d);
        wav.push(0x74);
        wav.push(0x20);
        push_u32_le(&mut wav, 50);
        wav.append(&mut fmt);
        wav.push(0x64);
        wav.push(0x61);
        wav.push(0x74);
        wav.push(0x61);
        push_u32_le(&mut wav, data_size);
        wav.append(&mut body);
        proof {
            assert(wav@ =~= spec_wav_wrap(fmt_view, data_size, body_view));
            assert(spec_wav_output(d@) == Some(wav@));
        }
        Ok(wav)
    }
}

} // verus!
