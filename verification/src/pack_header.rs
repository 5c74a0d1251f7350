//! The header every pack file opens with.
use vstd::prelude::*;
use crate::bytesread::{le32, read_u32_le};
use crate::error::LastLegendError;
use crate::tricks::U32Size;

verus! {

/// The platform a pack was built for.
#[derive(Copy, Clone, Eq, PartialEq, Structural, Debug)]
pub enum PlatformId {
    Win32,
    PS3,
    PS4,
}

/// What a pack file holds.
#[derive(Copy, Clone, Eq, PartialEq, Structural, Debug)]
pub enum ContentType {
    SQDB,
    Data,
    Default,
    Model,
    Image,
}

/// When a pack was built; a zero date or time means the stamp is missing.
#[derive(Copy, Clone, Eq, PartialEq, Structural, Debug)]
pub enum SqPackTimestamp {
    Present { year: u32, month: u32, day: u32, hour: u32, minute: u32, second: u32 },
    Missing,
}

/// The timestamp two packed decimal fields stand for.
pub open spec fn spec_timestamp(date: u32, time: u32) -> SqPackTimestamp {
    if date == 0 || time == 0 {
        SqPackTimestamp::Missing
    } else {
        SqPackTimestamp::Present {
            year: ((date / 10000) % 10000) as u32,
            month: ((date / 100) % 100) as u32,
            day: (date % 100) as u32,
            hour: ((time / 1000000) % 100) as u32,
            minute: ((time / 10000) % 100) as u32,
            second: ((time / 100) % 100) as u32,
        }
    }
}

impl SqPackTimestamp {
    /// Unpack the two decimal fields of the header.
    pub fn from_raw(date: u32, time: u32) -> (r: SqPackTimestamp)
        ensures
            r == spec_timestamp(date, time),
    {
        if date == 0 || time == 0 {
            return SqPackTimestamp::Missing;
        }
        SqPackTimestamp::Present {
            year: (date / 10000) % 10000,
            month: (date / 100) % 100,
            day: date % 100,
            hour: (time / 1000000) % 100,
            minute: (time / 10000) % 100,
            second: (time / 100) % 100,
        }
    }
}

/// The header every pack file opens with.
#[derive(Copy, Clone, Eq, PartialEq, Structural, Debug)]
pub struct PackHeader {
    pub platform_id: PlatformId,
    pub size: U32Size,
    pub version: u32,
    pub content_type: ContentType,
    pub timestamp: SqPackTimestamp,
}

/// Whether the bytes at `pos` begin with the pack magic.
pub open spec fn pack_magic_ok(d: Seq<u8>, pos: int) -> bool {
    &&& d[pos] == 0x53
    &&& d[pos + 1] == 0x71
    &&& d[pos + 2] == 0x50
    &&& d[pos + 3] == 0x61
    &&& d[pos + 4] == 0x63
    &&& d[pos + 5] == 0x6b
    &&& d[pos + 6] == 0
    &&& d[pos + 7] == 0
}

/// The pack header stored at `pos`, when its magic, platform, content
/// type and size are sound; the header is padded to its size field.
pub open spec fn spec_parse_pack_header(d: Seq<u8>, pos: int) -> Option<PackHeader> {
    if pos + 32 > d.len() || !pack_magic_ok(d, pos) {
        None
    } else {
        let platform = le32(d, pos + 8);
        let size = le32(d, pos + 12);
        let ct = le32(d, pos + 20);
        if platform > 2 || ct > 4 || size < 32 || pos + size > usize::MAX {
            None
        } else {
            Some(
                PackHeader {
                    platform_id: if platform == 0 {
                        PlatformId::Win32
                    } else if platform == 1 {
                        PlatformId::PS3
                    } else {
                        PlatformId::PS4
                    },
                    size: U32Size(size as usize),
                    version: le32(d, pos + 16),
                    content_type: if ct == 0 {
                        ContentType::SQDB
                    } else if ct == 1 {
                        ContentType::Data
                    } else if ct == 2 {
                        ContentType::Default
                    } else if ct == 3 {
                        ContentType::Model
                    } else {
                        ContentType::Image
                    },
                    timestamp: spec_timestamp(le32(d, pos + 24), le32(d, pos + 28)),
                },
            )
        }
    }
}

impl PackHeader {
    /// Parse the pack header stored at `pos`; on success also return the
    /// position right after its padding.
    pub fn parse(data: &Vec<u8>, pos: usize) -> (r: Result<(PackHeader, usize), LastLegendError>)
        ensures
            match r {
                Ok((h, next)) => spec_parse_pack_header(data@, pos as int) == Some(h) && next
                    == pos + h.size.0,
                Err(_) => spec_parse_pack_header(data@, pos as int) is None,
            },
    {
        let n = data.len();
        if pos > n || n - pos < 32 {
            return Err(LastLegendError::InvalidFormat(String::from_str("Pack header truncated")));
        }
        if !(data[pos] == 0x53 && data[pos + 1] == 0x71 && data[pos + 2] == 0x50 && data[pos + 3]
            == 0x61 && data[pos + 4] == 0x63 && data[pos + 5] == 0x6b && data[pos + 6] == 0 && data[
            pos + 7] == 0) {
            return Err(LastLegendError::InvalidFormat(String::from_str("Bad pack magic")));
        }
        let platform = read_u32_le(data, pos + 8);
        let size = read_u32_le(data, pos + 12);
        let version = read_u32_le(data, pos + 16);
        let ct = read_u32_le(data, pos + 20);
        let date = read_u32_le(data, pos + 24);
        let time = read_u32_le(data, pos + 28);
        if platform > 2 {
            return Err(LastLegendError::InvalidFormat(String::from_str("Unknown platform")));
        }
        if ct > 4 {
            return Err(LastLegendError::InvalidFormat(String::from_str("Unknown pack content")));
        }
        if size < 32 {
            return Err(LastLegendError::InvalidFormat(String::from_str("Pack header too small")));
        }
        let platform_id = if platform == 0 {
            PlatformId::Win32
        } else if platform == 1 {
            PlatformId::PS3
        } else {
            PlatformId::PS4
        };
        let content_type = if ct == 0 {
            ContentType::SQDB
        } else if ct == 1 {
            ContentType::Data
        } else if ct == 2 {
            ContentType::Default
        } else if ct == 3 {
            ContentType::Model
        } else {
            ContentType::Image
        };
        if usize::MAX - pos < size as usize {
            return Err(LastLegendError::InvalidFormat(String::from_str("Pack header too large")));
        }
        let h = PackHeader {
            platform_id,
            size: U32Size::from_u32(size),
            version,
            content_type,
            timestamp: SqPackTimestamp::from_raw(date, time),
        };
        Ok((h, pos + size as usize))
    }
}

} // verus!
