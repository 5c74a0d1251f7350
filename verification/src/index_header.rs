//! The header of an index file, after its pack header.
use vstd::prelude::*;
use crate::bytesread::{le32, read_u32_le};
use crate::error::LastLegendError;
use crate::tricks::U32Size;

verus! {

/// The index header: where the entry table sits and how large it is.
#[derive(Copy, Clone, Eq, PartialEq, Structural, Debug)]
pub struct IndexHeader {
    pub size: U32Size,
    pub index_type: u32,
    pub index_data_offset: u32,
    pub index_data_size: U32Size,
}

/// The index header stored at `pos`, when its type is one and its size is
/// sound; the header is padded to its size field.
pub open spec fn spec_parse_index_header(d: Seq<u8>, pos: int) -> Option<IndexHeader> {
    if pos + 16 > d.len() {
        None
    } else {
        let size = le32(d, pos);
        let index_type = le32(d, pos + 4);
        if index_type != 1 || size < 16 || pos + size > usize::MAX {
            None
        } else {
            Some(
                IndexHeader {
                    size: U32Size(size as usize),
                    index_type,
                    index_data_offset: le32(d, pos + 8),
                    index_data_size: U32Size(le32(d, pos + 12) as usize),
                },
            )
        }
    }
}

impl IndexHeader {
    /// Parse the index header stored at `pos`; on success also return the
    /// position right after its padding.
    pub fn parse(data: &Vec<u8>, pos: usize) -> (r: Result<(IndexHeader, usize), LastLegendError>)
        ensures
            match r {
                Ok((h, next)) => spec_parse_index_header(data@, pos as int) == Some(h) && next
                    == pos + h.size.0,
                Err(_) => spec_parse_index_header(data@, pos as int) is None,
            },
    {
        let n = data.len();
        if pos > n || n - pos < 16 {
            return Err(
                LastLegendError::InvalidFormat(String::from_str("Index header truncated")),
            );
        }
        let size = read_u32_le(data, pos);
        let index_type = read_u32_le(data, pos + 4);
        let index_data_offset = read_u32_le(data, pos + 8);
        let index_data_size = read_u32_le(data, pos + 12);
        if index_type != 1 {
            return Err(LastLegendError::InvalidFormat(String::from_str("Unknown index type")));
        }
        if size < 16 {
            return Err(
                LastLegendError::InvalidFormat(String::from_str("Index header too small")),
            );
        }
        if usize::MAX - pos < size as usize {
            return Err(
                LastLegendError::InvalidFormat(String::from_str("Index header too large")),
            );
        }
        let h = IndexHeader {
            size: U32Size::from_u32(size),
            index_type,
            index_data_offset,
            index_data_size: U32Size::from_u32(index_data_size),
        };
        Ok((h, pos + size as usize))
    }
}

} // verus!
