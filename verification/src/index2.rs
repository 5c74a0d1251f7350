//! The index file: the table that maps a path hash to an entry's place in
//! a companion data file.
use vstd::prelude::*;
use vstd::string::StrSliceExecFns;
use vstd::string::StringExecFns;
use crate::bytesread::{le32, read_u32_le};
use crate::error::LastLegendError;
use crate::index_header::{spec_parse_index_header, IndexHeader};
use crate::pack_header::{spec_parse_pack_header, PackHeader};
use crate::sqpath::{sq_hash_of, SqPath};
use crate::strutil::{
    find_last_char, hex_digit_str, spec_last_pos, spec_replace, str_replace, hex_digit_char,
};

verus! {

/// One entry of the index table: a path hash, the data file that holds
/// the entry, and its byte offset there.
#[derive(Copy, Clone, Eq, PartialEq, Structural, Debug)]
pub struct Index2Entry {
    pub hash: u32,
    pub data_file_id: u32,
    pub offset_bytes: u64,
}

impl Index2Entry {
    /// Unpack one stored entry: bits one to three of the packed word name
    /// the data file, the rest, shifted up by seven, give the byte
    /// offset.
    pub fn decode(hash: u32, packed: u32) -> (r: Index2Entry)
        ensures
            r.hash == hash,
            r.data_file_id == (packed >> 1) & 0x7,
            r.offset_bytes == (packed >> 4) as u64 * 0x80,
            r == spec_entry(hash, packed),
    {
        let r = Index2Entry {
            hash,
            data_file_id: (packed >> 1) & 0x7,
            offset_bytes: (packed >> 4) as u64 * 0x80,
        };
        r
    }
}

/// The entry a stored hash and packed word stand for.
pub open spec fn spec_entry(hash: u32, packed: u32) -> Index2Entry {
    Index2Entry {
        hash,
        data_file_id: (packed >> 1) & 0x7,
        offset_bytes: ((packed >> 4) as u64 * 0x80) as u64,
    }
}

/// The `count` entries stored at `off`, eight bytes each.
pub open spec fn spec_entries(d: Seq<u8>, off: int, count: int) -> Seq<Index2Entry> {
    Seq::new(count as nat, |i: int| spec_entry(le32(d, off + 8 * i), le32(d, off + 8 * i + 4)))
}

/// A parsed index file: its path, its two headers, and its entry table.
#[derive(Debug)]
pub struct Index2 {
    pub index_path: String,
    pub pack_header: PackHeader,
    pub index_header: IndexHeader,
    pub entries: Vec<Index2Entry>,
}

/// What parsing an index file yields: the pack header, then the index
/// header, then `index_data_size / 8` entries at `index_data_offset`.
pub open spec fn spec_parse_index2(d: Seq<u8>) -> Option<(PackHeader, IndexHeader, Seq<
    Index2Entry,
>)> {
    match spec_parse_pack_header(d, 0) {
        None => None,
        Some(ph) => match spec_parse_index_header(d, ph.size.0 as int) {
            None => None,
            Some(ih) => {
                let off = ih.index_data_offset as int;
                let count = ih.index_data_size.0 as int / 8;
                if off + 8 * count > d.len() {
                    None
                } else {
                    Some((ph, ih, spec_entries(d, off, count)))
                }
            },
        },
    }
}

impl Index2 {
    /// Parse a whole index file read into memory; `index_path` names the
    /// file for error reporting and data-file lookup.
    pub fn parse(data: &Vec<u8>, index_path: String) -> (r: Result<Index2, LastLegendError>)
        ensures
            match r {
                Ok(ix) => spec_parse_index2(data@) == Some(
                    (ix.pack_header, ix.index_header, ix.entries@),
                ) && ix.index_path@ == index_path@,
                Err(_) => spec_parse_index2(data@) is None,
            },
    {
        let (pack_header, after_pack) = match PackHeader::parse(data, 0) {
            Ok(v) => v,
            Err(e) => {
                return Err(e);
            },
        };
        let (index_header, _after_index) = match IndexHeader::parse(data, after_pack) {
            Ok(v) => v,
            Err(e) => {
                return Err(e);
            },
        };
        let n = data.len();
        let off64 = index_header.index_data_offset as u64;
        let count = index_header.index_data_size.0 / 8;
        if off64 + 8 * (count as u64) > n as u64 {
            return Err(LastLegendError::InvalidFormat(String::from_str("Index table truncated")));
        }
        let off = off64 as usize;
        let mut entries: Vec<Index2Entry> = Vec::new();
        let mut i: usize = 0;
        while i < count
            invariant
                0 <= i <= count,
                off + 8 * count <= data@.len(),
                data@.len() <= usize::MAX,
                entries@.len() == i,
                forall|j: int| 0 <= j < i ==> entries@[j] == spec_entry(
                    le32(data@, off + 8 * j),
                    le32(data@, off + 8 * j + 4),
                ),
            decreases count - i,
        {
            let pos = off + 8 * i;
            let hash = read_u32_le(data, pos);
            let packed = read_u32_le(data, pos + 4);
            entries.push(Index2Entry::decode(hash, packed));
            i += 1;
        }
        proof {
            assert(entries@ =~= spec_entries(data@, off as int, count as int));
        }
        Ok(Index2 { index_path, pack_header, index_header, entries })
    }

    /// The entries of this index.
    pub fn entries(&self) -> (r: &Vec<Index2Entry>)
        ensures
            r@ == self.entries@,
    {
        &self.entries
    }

    /// Look the given file up by its path hash: the first entry carrying
    /// the hash, or `MissingEntryFromIndex` when no entry carries it.
    pub fn get_entry(&self, file: &SqPath) -> (r: Result<&Index2Entry, LastLegendError>)
        ensures
            match r {
                Ok(e) => exists|i: int|
                    0 <= i < self.entries@.len() && self.entries@[i] == *e && e.hash == sq_hash_of(
                        file@,
                    ) && (forall|j: int| 0 <= j < i ==> self.entries@[j].hash != sq_hash_of(file@)),
                Err(e) => (forall|i: int|
                    0 <= i < self.entries@.len() ==> self.entries@[i].hash != sq_hash_of(file@))
                    && (e matches LastLegendError::MissingEntryFromIndex(p, ix) && p@ == file@
                    && ix@ == self.index_path@),
            },
    {
        let hash = file.sq_index_hash();
        let n = self.entries.len();
        let mut i: usize = 0;
        while i < n
            invariant
                0 <= i <= n,
                n == self.entries@.len(),
                hash == sq_hash_of(file@),
                forall|j: int| 0 <= j < i ==> self.entries@[j].hash != sq_hash_of(file@),
            decreases n - i,
        {
            if self.entries[i].hash == hash {
                return Ok(&self.entries[i]);
            }
            i += 1;
        }
        Err(
            LastLegendError::MissingEntryFromIndex(
                file.to_owned(),
                self.index_path.clone(),
            ),
        )
    }

    /// The path of the companion data file that holds `entry`: the index
    /// file's basename with `.index2` replaced by `.dat` and the entry's
    /// data file number.
    pub fn data_file_path(&self, entry: &Index2Entry) -> (r: String)
        requires
            entry.data_file_id < 10,
        ensures
            r@ == spec_data_file_path(self.index_path@, entry.data_file_id as int),
    {
        let s = self.index_path.as_str();
        let n = s.unicode_len();
        let base_start = match find_last_char(s, '/') {
            Some(i) => i + 1,
            None => 0,
        };
        let mut replacement = String::from_str(".dat");
        replacement.append(hex_digit_str(entry.data_file_id as u8));
        let base = s.substring_char(base_start, n);
        proof {
            assert(base@ =~= self.index_path@.skip(base_start as int));
            assert(replacement@ =~= ".dat"@ + seq![hex_digit_char(entry.data_file_id as int)]);
            reveal_strlit(".index2");
        }
        let mut out = String::from_str(s.substring_char(0, base_start));
        proof {
            assert(out@ =~= self.index_path@.take(base_start as int));
        }
        out.append(str_replace(base, ".index2", replacement.as_str()).as_str());
        out
    }
}

/// The companion data file for an index path and a data file number: the
/// basename's `.index2` suffix becomes `.dat` and the number's digit.
pub open spec fn spec_data_file_path(index_path: Seq<char>, id: int) -> Seq<char> {
    let base_start = match spec_last_pos(index_path, '/') {
        Some(i) => i + 1,
        None => 0,
    };
    index_path.take(base_start) + spec_replace(
        index_path.skip(base_start),
        ".index2"@,
        ".dat"@ + seq![hex_digit_char(id)],
    )
}

} // verus!
