//! Entry headers of the data files, and the block-streamed entry content:
//! each entry is a list of blocks, deflate-compressed or stored raw, that
//! concatenate to the entry's bytes.
use vstd::prelude::*;
use crate::bytesread::{copy_range, le16, le32, read_u16_le, read_u32_le};
use crate::error::LastLegendError;

verus! {

/// The content type of an entry.
#[derive(Copy, Clone, Eq, PartialEq, Structural, Debug)]
pub enum ContentType {
    Empty,
    Binary,
    Model,
    Texture,
}

/// One block descriptor of a binary entry: where the block sits relative to
/// the content base, and how large it is on disk and decompressed.
#[derive(Copy, Clone, Eq, PartialEq, Structural, Debug)]
pub struct BinaryDatEntryHeaderBlock {
    pub offset: u32,
    pub block_size: u16,
    pub decompressed_size: u16,
}

/// The block table of an entry, by content type; only binary entries have
/// a block layout this library can stream.
#[derive(Debug)]
pub enum DatEntryHeaderBlocks {
    Binary(Vec<BinaryDatEntryHeaderBlock>),
}

impl DatEntryHeaderBlocks {
    /// The blocks as a sequence.
    pub open spec fn blocks_seq(&self) -> Seq<BinaryDatEntryHeaderBlock> {
        match self {
            DatEntryHeaderBlocks::Binary(v) => v@,
        }
    }

    /// The content type this block table belongs to.
    pub fn content_type(&self) -> (r: ContentType)
        ensures
            r == ContentType::Binary,
    {
        match self {
            DatEntryHeaderBlocks::Binary(..) => ContentType::Binary,
        }
    }
}

/// The header of one entry in a data file, parsed at the entry's start.
#[derive(Debug)]
pub struct DatEntryHeader {
    pub header_size: u32,
    pub uncompressed_size: u32,
    pub block_size: u32,
    pub num_blocks: u32,
    pub blocks: DatEntryHeaderBlocks,
}

/// The block descriptor stored at index `i` of the entry header's table.
pub open spec fn spec_block_desc(d: Seq<u8>, i: int) -> BinaryDatEntryHeaderBlock {
    BinaryDatEntryHeaderBlock {
        offset: le32(d, 24 + 8 * i),
        block_size: le16(d, 24 + 8 * i + 4),
        decompressed_size: le16(d, 24 + 8 * i + 6),
    }
}

/// All `n` block descriptors of the entry header's table.
pub open spec fn spec_block_descs(d: Seq<u8>, n: int) -> Seq<BinaryDatEntryHeaderBlock> {
    Seq::new(n as nat, |i: int| spec_block_desc(d, i))
}

/// The sum of the decompressed sizes of the blocks from `from` on.
pub open spec fn blocks_sum_from(blocks: Seq<BinaryDatEntryHeaderBlock>, from: int) -> int
    decreases blocks.len() - from,
{
    if from < 0 || from >= blocks.len() {
        0
    } else {
        blocks[from].decompressed_size + blocks_sum_from(blocks, from + 1)
    }
}

/// Whether entry bytes begin with a well-formed binary entry header: a
/// known content type that is binary, a complete block table, and block
/// sizes that sum to the declared uncompressed size.
pub open spec fn spec_entry_header_ok(d: Seq<u8>) -> bool {
    &&& d.len() >= 24
    &&& le32(d, 4) == 2
    &&& 24 + 8 * (le32(d, 20) as int) <= d.len()
    &&& blocks_sum_from(spec_block_descs(d, le32(d, 20) as int), 0) == le32(d, 8)
}

impl DatEntryHeader {
    /// The blocks of this entry as a sequence.
    pub open spec fn blocks_seq(&self) -> Seq<BinaryDatEntryHeaderBlock> {
        self.blocks.blocks_seq()
    }

    /// Whether this header is the one stored at the start of `d`.
    pub open spec fn matches(&self, d: Seq<u8>) -> bool {
        &&& spec_entry_header_ok(d)
        &&& self.header_size == le32(d, 0)
        &&& self.uncompressed_size == le32(d, 8)
        &&& self.block_size == le32(d, 16)
        &&& self.num_blocks == le32(d, 20)
        &&& self.blocks_seq() == spec_block_descs(d, self.num_blocks as int)
    }

    /// Parse the entry header stored at the start of `data`. Fails with
    /// `UnsupportedContentType` on a known but non-binary content type and
    /// with `InvalidFormat` on anything else that breaks
    /// [`spec_entry_header_ok`].
    pub fn parse(data: &Vec<u8>) -> (r: Result<DatEntryHeader, LastLegendError>)
        ensures
            match r {
                Ok(h) => spec_entry_header_ok(data@) && h.matches(data@),
                Err(e) => !spec_entry_header_ok(data@) && ((data@.len() >= 24 && 1 <= le32(
                    data@,
                    4,
                ) <= 4 && le32(data@, 4) != 2) <==> e == LastLegendError::UnsupportedContentType(
                    le32(data@, 4),
                )),
            },
    {
        let n = data.len();
        if n < 24 {
            return Err(
                LastLegendError::InvalidFormat(String::from_str("Entry header is truncated")),
            );
        }
        let content_type = read_u32_le(data, 4);
        if content_type != 2 {
            if 1 <= content_type && content_type <= 4 {
                return Err(LastLegendError::UnsupportedContentType(content_type));
            }
            return Err(
                LastLegendError::InvalidFormat(String::from_str("Unknown entry content type")),
            );
        }
        let header_size = read_u32_le(data, 0);
        let uncompressed_size = read_u32_le(data, 8);
        let block_size = read_u32_le(data, 16);
        let num_blocks = read_u32_le(data, 20);
        if (num_blocks as u64) * 8 + 24 > n as u64 {
            return Err(
                LastLegendError::InvalidFormat(String::from_str("Entry block table is truncated")),
            );
        }
        let nb = num_blocks as usize;
        let mut v: Vec<BinaryDatEntryHeaderBlock> = Vec::new();
        let mut i: usize = 0;
        while i < nb
            invariant
                0 <= i <= nb,
                nb <= 0xffff_ffff,
                24 + 8 * nb <= data@.len(),
                data@.len() <= usize::MAX,
                v@.len() == i,
                forall|j: int| 0 <= j < i ==> v@[j] == spec_block_desc(data@, j),
            decreases nb - i,
        {
            let pos = 24 + 8 * i;
            let blk = BinaryDatEntryHeaderBlock {
                offset: read_u32_le(data, pos),
                block_size: read_u16_le(data, pos + 4),
                decompressed_size: read_u16_le(data, pos + 6),
            };
            v.push(blk);
            i += 1;
        }
        proof {
            assert(v@ =~= spec_block_descs(data@, num_blocks as int));
        }
        // Check the format invariant: block sizes sum to the uncompressed size.
        let mut k: usize = nb;
        let mut acc: u64 = 0;
        while k > 0
            invariant
                0 <= k <= nb,
                nb <= 0xffff_ffff,
                nb == v@.len(),
                acc == blocks_sum_from(v@, k as int),
                acc <= 0x10000 * ((nb - k) as int),
            decreases k,
    {
            k -= 1;
            acc = acc + v[k].decompressed_size as u64;
        }
        if acc != uncompressed_size as u64 {
            return Err(
                LastLegendError::InvalidFormat(
                    String::from_str("Block sizes disagree with the uncompressed size"),
                ),
            );
        }
        Ok(
            DatEntryHeader {
                header_size,
                uncompressed_size,
                block_size,
                num_blocks,
                blocks: DatEntryHeaderBlocks::Binary(v),
            },
        )
    }
}

/// The header stored at the start of each block: its on-disk compressed
/// length and its decompressed length.
#[derive(Copy, Clone, Eq, PartialEq, Structural, Debug)]
pub struct DataBlockHeader {
    pub compressed_length: u32,
    pub decompressed_length: u32,
}

/// The length value that marks a stored, uncompressed block.
pub const NOT_COMPRESSED: u32 = 32000;

/// Compressed blocks are padded so header and body end on this boundary.
pub const BLOCK_PADDING: u32 = 0x80;

/// The bytes a block's body occupies on disk, after its 16-byte header:
/// the compressed length padded so that header and body end on a 128-byte
/// boundary, or the raw length for a stored block.
pub open spec fn spec_source_size(comp: u32, decomp: u32) -> int {
    if comp < 32000 {
        if (comp + 0x10) % 0x80 != 0 {
            comp + (0x80 - (comp + 0x10) % 0x80)
        } else {
            comp as int
        }
    } else {
        decomp as int
    }
}

impl DataBlockHeader {
    /// Whether the block's body is deflate-compressed.
    pub fn is_compressed(&self) -> (r: bool)
        requires
            self.compressed_length <= 32000,
        ensures
            r == (self.compressed_length < 32000),
    {
        self.compressed_length < NOT_COMPRESSED
    }

    /// How many bytes of the data file the block's body occupies.
    pub fn source_size(&self) -> (r: u32)
        requires
            self.compressed_length <= 32000,
        ensures
            r == spec_source_size(self.compressed_length, self.decompressed_length),
    {
        if self.is_compressed() {
            let padding_check = (self.compressed_length + 0x10) % BLOCK_PADDING;
            if padding_check != 0 {
                self.compressed_length + (BLOCK_PADDING - padding_check)
            } else {
                self.compressed_length
            }
        } else {
            self.decompressed_length
        }
    }

    /// The block's decompressed length.
    pub fn decompressed_size(&self) -> (r: u32)
        ensures
            r == self.decompressed_length,
    {
        self.decompressed_length
    }
}

/// What deflate decompression of `src` yields when at least `len` bytes
/// can be decoded: those first `len` bytes. Named, not defined: an outside
/// crate computes it.
pub uninterp spec fn inflated(src: Seq<u8>, len: nat) -> Option<Seq<u8>>;

/// Relies on flate2's `DeflateDecoder` over an in-memory slice: reading
/// exactly `len` bytes from a raw-deflate decoder is a pure function of
/// `src` and `len`, fails only when the stream is invalid or ends too
/// soon, and fills exactly `len` bytes on success.
#[verifier::external_body]
fn inflate_exact(src: &Vec<u8>, len: usize) -> (r: Option<Vec<u8>>)
    ensures
        r is Some <==> inflated(src@, len as nat) is Some,
        r is Some ==> r->0@ == inflated(src@, len as nat)->0 && r->0@.len() == len,
{
    let mut out = vec![0u8; len];
    let mut dec = flate2::read::DeflateDecoder::new(src.as_slice());
    match std::io::Read::read_exact(&mut dec, &mut out) {
        Ok(()) => Some(out),
        Err(_) => None,
    }
}

/// The bytes one block yields. At `base + offset` sits a 16-byte block
/// header whose size field must be 0x10 and whose decompressed length must
/// equal the descriptor's; after it, either a deflate body or
/// `decompressed_length` raw bytes.
pub open spec fn spec_block_content(
    d: Seq<u8>,
    base: int,
    blk: BinaryDatEntryHeaderBlock,
) -> Option<Seq<u8>> {
    let hpos = base + blk.offset;
    if !(0 <= hpos && hpos + 16 <= d.len()) {
        None
    } else {
        let hsize = le32(d, hpos);
        let comp = le32(d, hpos + 8);
        let decomp = le32(d, hpos + 12);
        if hsize != 0x10 || decomp != blk.decompressed_size as u32 {
            None
        } else if comp < 32000 {
            let avail = d.len() - (hpos + 16);
            let src_end = if spec_source_size(comp, decomp) <= avail {
                hpos + 16 + spec_source_size(comp, decomp)
            } else {
                d.len() as int
            };
            match inflated(d.subrange(hpos + 16, src_end), decomp as nat) {
                Some(out) => if out.len() == decomp {
                    Some(out)
                } else {
                    None
                },
                None => None,
            }
        } else if comp == 32000 {
            if hpos + 16 + decomp <= d.len() {
                Some(d.subrange(hpos + 16, hpos + 16 + decomp))
            } else {
                None
            }
        } else {
            None
        }
    }
}

/// The concatenated bytes of the blocks from `from` on; nothing when any
/// of them fails to decode.
pub open spec fn spec_blocks_content_from(
    d: Seq<u8>,
    base: int,
    blocks: Seq<BinaryDatEntryHeaderBlock>,
    from: int,
) -> Option<Seq<u8>>
    decreases blocks.len() - from,
{
    if from < 0 || from >= blocks.len() {
        Some(Seq::empty())
    } else {
        match spec_block_content(d, base, blocks[from]) {
            None => None,
            Some(first) => match spec_blocks_content_from(d, base, blocks, from + 1) {
                None => None,
                Some(rest) => Some(first + rest),
            },
        }
    }
}

/// The whole entry content: every block, in order, concatenated.
pub open spec fn spec_entry_content(
    d: Seq<u8>,
    base: int,
    blocks: Seq<BinaryDatEntryHeaderBlock>,
) -> Option<Seq<u8>> {
    spec_blocks_content_from(d, base, blocks, 0)
}

/// A fully decoded run of blocks is as long as its sizes say.
proof fn lemma_blocks_content_len(
    d: Seq<u8>,
    base: int,
    blocks: Seq<BinaryDatEntryHeaderBlock>,
    from: int,
)
    requires
        spec_blocks_content_from(d, base, blocks, from) is Some,
    ensures
        spec_blocks_content_from(d, base, blocks, from)->0.len() == blocks_sum_from(blocks, from),
    decreases blocks.len() - from,
{
    if 0 <= from < blocks.len() {
        lemma_blocks_content_len(d, base, blocks, from + 1);
    }
}

/// For a well-formed entry, the block sizes sum to the header's
/// uncompressed size, and a fully decoded entry yields exactly that many
/// bytes.
pub proof fn lemma_entry_content_len(h: DatEntryHeader, d: Seq<u8>, content: Seq<u8>)
    requires
        h.matches(d),
        spec_entry_content(d, h.header_size as int, h.blocks_seq()) == Some(content),
    ensures
        blocks_sum_from(h.blocks_seq(), 0) == h.uncompressed_size,
        content.len() == h.uncompressed_size,
{
    lemma_blocks_content_len(d, h.header_size as int, h.blocks_seq(), 0);
}

/// Decode the block `blk` describes inside `data`, relative to `base`.
fn read_block(
    data: &Vec<u8>,
    base: usize,
    blk: BinaryDatEntryHeaderBlock,
) -> (r: Result<Vec<u8>, LastLegendError>)
    ensures
        match r {
            Ok(v) => spec_block_content(data@, base as int, blk) == Some(v@) && v@.len()
                == blk.decompressed_size,
            Err(_) => spec_block_content(data@, base as int, blk) is None,
        },
{
    let n = data.len();
    let off = blk.offset as usize;
    if off > n || base > n - off || n - (base + off) < 16 {
        return Err(LastLegendError::InvalidFormat(String::from_str("Block header out of range")));
    }
    let hpos = base + off;
    let header = DataBlockHeader {
        compressed_length: read_u32_le(data, hpos + 8),
        decompressed_length: read_u32_le(data, hpos + 12),
    };
    let header_size = read_u32_le(data, hpos);
    if header_size != 0x10 {
        return Err(LastLegendError::InvalidFormat(String::from_str("Bad block header size")));
    }
    if header.decompressed_length != blk.decompressed_size as u32 {
        return Err(
            LastLegendError::InvalidFormat(
                String::from_str("Block headers disagree on decompressed size"),
            ),
        );
    }
    let comp = header.compressed_length;
    let decomp = header.decompressed_length;
    if comp > 32000 {
        return Err(
            LastLegendError::InvalidFormat(String::from_str("Bad block compressed length")),
        );
    }
    if header.is_compressed() {
        let src = header.source_size() as usize;
        let avail = n - (hpos + 16);
        let src_end: usize = if src <= avail {
            hpos + 16 + src
        } else {
            n
        };
        let src_vec = copy_range(data, hpos + 16, src_end);
        match inflate_exact(&src_vec, decomp as usize) {
            Some(v) => Ok(v),
            None => Err(LastLegendError::Io(String::from_str("Couldn't inflate block"))),
        }
    } else {
        if n - (hpos + 16) < decomp as usize {
            return Err(LastLegendError::InvalidFormat(String::from_str("Block body truncated")));
        }
        Ok(copy_range(data, hpos + 16, hpos + 16 + decomp as usize))
    }
}


/// The reusable buffer that holds the bytes of the block decoded last.
#[derive(Debug)]
pub struct Buffer {
    pub content: Vec<u8>,
    pub pos: usize,
    pub limit: usize,
}

impl Buffer {
    /// Positions stay inside the content.
    pub open spec fn wf(&self) -> bool {
        self.pos <= self.limit <= self.content@.len()
    }

    /// The bytes not yet handed out.
    pub open spec fn remaining(&self) -> Seq<u8> {
        self.content@.subrange(self.pos as int, self.limit as int)
    }

    /// An empty buffer over `capacity` zeroed bytes.
    pub fn with_capacity(capacity: u32) -> (r: Buffer)
        ensures
            r.content@.len() == capacity,
            r.pos == 0,
            r.limit == 0,
            r.wf(),
            r.remaining() == Seq::<u8>::empty(),
    {
        let r = Buffer { content: vec![0u8; capacity as usize], pos: 0, limit: 0 };
        proof {
            assert(r.remaining() =~= Seq::<u8>::empty());
        }
        r
    }

    /// Whether any bytes are left to hand out.
    pub fn can_read(&self) -> (r: bool)
        requires
            self.wf(),
        ensures
            r == (self.remaining().len() > 0),
    {
        self.len() > 0
    }

    /// How many bytes are left to hand out.
    pub fn len(&self) -> (r: usize)
        requires
            self.wf(),
        ensures
            r == self.remaining().len(),
    {
        self.limit - self.pos
    }
}

/// A sequential reader over one entry's content: it decodes the entry's
/// blocks on demand, in order, and hands their bytes out as one stream.
pub struct DatEntryContent {
    inner: Vec<u8>,
    base_pos: usize,
    blocks: Vec<BinaryDatEntryHeaderBlock>,
    next_block: usize,
    buf: Buffer,
    emitted: Ghost<Seq<u8>>,
}

impl DatEntryContent {
    /// The whole stream this reader yields when every block decodes.
    pub closed spec fn total(&self) -> Option<Seq<u8>> {
        spec_entry_content(self.inner@, self.base_pos as int, self.blocks@)
    }

    /// The bytes handed out so far.
    pub closed spec fn emitted_bytes(&self) -> Seq<u8> {
        self.emitted@
    }

    /// The entry bytes this reader walks.
    pub closed spec fn inner_bytes(&self) -> Seq<u8> {
        self.inner@
    }

    /// The bytes of the block decoded last that are still to hand out.
    closed spec fn buf_rest(&self) -> Seq<u8> {
        self.buf.remaining()
    }

    /// How many bytes sit decoded but not yet handed out.
    pub closed spec fn buffered(&self) -> nat {
        self.buf.remaining().len()
    }

    /// The block descriptors not yet decoded.
    pub closed spec fn pending_blocks(&self) -> Seq<BinaryDatEntryHeaderBlock> {
        self.blocks@.skip(self.next_block as int)
    }

    /// Whether nothing is buffered and no block is pending: the stream's
    /// end.
    pub closed spec fn finished(&self) -> bool {
        self.pending_blocks().len() == 0 && self.buffered() == 0
    }

    /// How many bytes one read of up to `max` hands out: what sits
    /// buffered, else the next block's decompressed size, else nothing,
    /// capped at `max`.
    pub open spec fn next_chunk_len(&self, max: int) -> int {
        if self.buffered() > 0 {
            if max < self.buffered() {
                max
            } else {
                self.buffered() as int
            }
        } else if self.pending_blocks().len() > 0 {
            if max < self.pending_blocks()[0].decompressed_size {
                max
            } else {
                self.pending_blocks()[0].decompressed_size as int
            }
        } else {
            0
        }
    }

    /// The reader's invariant: what was handed out, what sits buffered and
    /// what the pending blocks hold always account for the whole stream.
    pub closed spec fn wf(&self) -> bool {
        &&& self.next_block <= self.blocks@.len()
        &&& self.buf.wf()
        &&& (spec_blocks_content_from(
            self.inner@,
            self.base_pos as int,
            self.blocks@,
            self.next_block as int,
        ) matches Some(rest) ==> self.total() == Some(self.emitted@ + self.buf_rest() + rest))
        &&& (spec_blocks_content_from(
            self.inner@,
            self.base_pos as int,
            self.blocks@,
            self.next_block as int,
        ) is None ==> self.total() is None)
    }

    /// What was handed out so far is a prefix of the whole stream,
    /// whenever the whole stream decodes at all.
    pub proof fn lemma_emitted_prefix(&self)
        requires
            self.wf(),
            self.total() is Some,
        ensures
            self.emitted_bytes().len() <= self.total()->0.len(),
            self.emitted_bytes() == self.total()->0.take(self.emitted_bytes().len() as int),
    {
        assert(self.total()->0.take(self.emitted_bytes().len() as int) =~= self.emitted_bytes());
    }

    /// Whether the stream is done; then everything handed out is the
    /// whole entry content.
    pub fn is_finished(&self) -> (r: bool)
        requires
            self.wf(),
        ensures
            r == self.finished(),
            r ==> self.total() == Some(self.emitted_bytes()),
    {
        let r = self.next_block == self.blocks.len() && !self.buf.can_read();
        proof {
            if r {
                assert(self.emitted@ + self.buf_rest() + Seq::<u8>::empty() =~= self.emitted@);
            }
        }
        r
    }

    /// Finish with this reader and take the entry bytes back.
    pub fn into_inner(self) -> (r: Vec<u8>)
        ensures
            r@ == self.inner_bytes(),
    {
        self.inner
    }

    /// Hand out up to `max` of the next bytes of the stream. An empty
    /// result with `max > 0` means the stream is done, unless a block
    /// decoded to nothing. Fails only when the entry is malformed, and
    /// then the whole stream is undefined.
    pub fn read(&mut self, max: usize) -> (r: Result<Vec<u8>, LastLegendError>)
        requires
            old(self).wf(),
        ensures
            final(self).wf(),
            final(self).total() == old(self).total(),
            match r {
                Ok(v) => v@.len() == old(self).next_chunk_len(max as int) && v@.len() <= max
                    && final(self).emitted_bytes() == old(self).emitted_bytes() + v@ && ((max > 0
                    && v@.len() == 0) ==> final(self).finished() || (old(
                    self,
                ).pending_blocks().len() > 0 && old(self).pending_blocks()[0].decompressed_size
                    == 0)),
                Err(_) => old(self).total() is None && final(self).emitted_bytes() == old(
                    self,
                ).emitted_bytes(),
            },
    {
        if !self.buf.can_read() {
            if self.next_block == self.blocks.len() {
                proof {
                    assert(self.pending_blocks() =~= Seq::<BinaryDatEntryHeaderBlock>::empty());
                }
                return Ok(Vec::new());
            }
            proof {
                assert(old(self).pending_blocks()[0] == self.blocks@[self.next_block as int]);
            }
            let blk = self.blocks[self.next_block];
            let decoded = match read_block(&self.inner, self.base_pos, blk) {
                Ok(v) => v,
                Err(e) => {
                    proof {
                        assert(spec_blocks_content_from(
                            self.inner@,
                            self.base_pos as int,
                            self.blocks@,
                            self.next_block as int,
                        ) is None);
                    }
                    return Err(e);
                },
            };
            let limit = decoded.len();
            let ghost prev = *self;
            self.buf = Buffer { content: decoded, pos: 0, limit };
            self.next_block = self.next_block + 1;
            proof {
                let d = self.inner@;
                let b = self.base_pos as int;
                let bl = self.blocks@;
                let k = prev.next_block as int;
                assert(self.buf.remaining() =~= self.buf.content@);
                assert(prev.buf_rest() =~= Seq::<u8>::empty());
                assert(spec_block_content(d, b, bl[k]) == Some(self.buf.content@));
                match spec_blocks_content_from(d, b, bl, k + 1) {
                    Some(rest) => {
                        assert(spec_blocks_content_from(d, b, bl, k) == Some(
                            self.buf.content@ + rest,
                        ));
                        assert(prev.emitted@ + prev.buf_rest() + (self.buf.content@ + rest)
                            =~= self.emitted@ + self.buf_rest() + rest);
                    },
                    None => {
                        assert(spec_blocks_content_from(d, b, bl, k) is None);
                    },
                }
                assert(self.wf());
            }
        }
        let n = self.buf.len();
        let take_n: usize = if n < max {
            n
        } else {
            max
        };
        let served = copy_range(&self.buf.content, self.buf.pos, self.buf.pos + take_n);
        let ghost before = *self;
        self.buf.pos = self.buf.pos + take_n;
        proof {
            self.emitted@ = self.emitted@ + served@;
            assert(before.buf.remaining() =~= served@ + self.buf.remaining());
            assert(before.emitted@ + (served@ + self.buf.remaining()) =~= (before.emitted@
                + served@) + self.buf.remaining());
        }
        Ok(served)
    }
}

impl DatEntryHeader {
    /// Given the entry's bytes, with the entry start at index zero, make a
    /// sequential reader over the entry's content.
    pub fn read_content(&self, data: Vec<u8>) -> (r: DatEntryContent)
        ensures
            r.wf(),
            r.emitted_bytes() == Seq::<u8>::empty(),
            r.inner_bytes() == data@,
            r.total() == spec_entry_content(data@, self.header_size as int, self.blocks_seq()),
    {
        let blocks = match &self.blocks {
            DatEntryHeaderBlocks::Binary(v) => {
                let mut copy: Vec<BinaryDatEntryHeaderBlock> = Vec::new();
                let mut i: usize = 0;
                let n = v.len();
                while i < n
                    invariant
                        0 <= i <= n,
                        n == v@.len(),
                        copy@.len() == i,
                        forall|j: int| 0 <= j < i ==> copy@[j] == v@[j],
                    decreases n - i,
                {
                    copy.push(v[i]);
                    i += 1;
                }
                proof {
                    assert(copy@ =~= v@);
                }
                copy
            },
        };
        DatEntryContent {
            inner: data,
            base_pos: self.header_size as usize,
            blocks,
            next_block: 0,
            buf: Buffer::with_capacity(0),
            emitted: Ghost(Seq::empty()),
        }
    }

    /// Decode the whole entry at once: every block, in order,
    /// concatenated. The result is exactly the entry content and, for a
    /// header read from these bytes, exactly `uncompressed_size` bytes
    /// long.
    pub fn read_content_to_vec(&self, data: &Vec<u8>) -> (r: Result<Vec<u8>, LastLegendError>)
        ensures
            match r {
                Ok(v) => spec_entry_content(data@, self.header_size as int, self.blocks_seq())
                    == Some(v@),
                Err(_) => spec_entry_content(
                    data@,
                    self.header_size as int,
                    self.blocks_seq(),
                ) is None,
            },
            self.matches(data@) && r is Ok ==> r->Ok_0@.len() == self.uncompressed_size,
    {
        let base = self.header_size as usize;
        let blocks = match &self.blocks {
            DatEntryHeaderBlocks::Binary(v) => v,
        };
        let n = blocks.len();
        let mut out: Vec<u8> = Vec::new();
        let mut i: usize = 0;
        while i < n
            invariant
                0 <= i <= n,
                n == blocks@.len(),
                blocks@ == self.blocks_seq(),
                base == self.header_size,
                (spec_blocks_content_from(data@, base as int, blocks@, i as int) matches Some(rest)
                    ==> spec_entry_content(data@, self.header_size as int, self.blocks_seq())
                    == Some(out@ + rest)),
                (spec_blocks_content_from(data@, base as int, blocks@, i as int) is None
                    ==> spec_entry_content(
                    data@,
                    self.header_size as int,
                    self.blocks_seq(),
                ) is None),
            decreases n - i,
        {
            let mut piece = match read_block(data, base, blocks[i]) {
                Ok(v) => v,
                Err(e) => {
                    return Err(e);
                },
            };
            let ghost old_out = out@;
            let ghost piece_view = piece@;
            out.append(&mut piece);
            proof {
                match spec_blocks_content_from(data@, base as int, blocks@, i + 1) {
                    Some(rest) => {
                        assert(old_out + (piece_view + rest) =~= (old_out + piece_view) + rest);
                    },
                    None => {},
                }
            }
            i += 1;
        }
        proof {
            assert(out@ + Seq::<u8>::empty() =~= out@);
            if self.matches(data@) {
                lemma_entry_content_len(*self, data@, out@);
            }
        }
        Ok(out)
    }
}

} // verus!
