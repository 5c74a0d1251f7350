//! Little-endian primitive readers over a byte buffer.
use vstd::prelude::*;

verus! {

/// The little-endian 16-bit value stored at `pos`.
pub open spec fn le16(d: Seq<u8>, pos: int) -> u16
    recommends
        0 <= pos,
        pos + 2 <= d.len(),
{
    (d[pos] + d[pos + 1] * 0x100) as u16
}

/// The little-endian 32-bit value stored at `pos`.
pub open spec fn le32(d: Seq<u8>, pos: int) -> u32
    recommends
        0 <= pos,
        pos + 4 <= d.len(),
{
    (d[pos] + d[pos + 1] * 0x100 + d[pos + 2] * 0x1_0000 + d[pos + 3] * 0x100_0000) as u32
}

/// Read the little-endian `u16` at `pos`.
pub fn read_u16_le(d: &Vec<u8>, pos: usize) -> (r: u16)
    requires
        pos + 2 <= d.len(),
    ensures
        r == le16(d@, pos as int),
{
    let b0 = d[pos] as u16;
    let b1 = d[pos + 1] as u16;
    b0 + b1 * 0x100
}

/// Read the little-endian `u32` at `pos`.
pub fn read_u32_le(d: &Vec<u8>, pos: usize) -> (r: u32)
    requires
        pos + 4 <= d.len(),
    ensures
        r == le32(d@, pos as int),
{
    let b0 = d[pos] as u32;
    let b1 = d[pos + 1] as u32;
    let b2 = d[pos + 2] as u32;
    let b3 = d[pos + 3] as u32;
    b0 + b1 * 0x100 + b2 * 0x1_0000 + b3 * 0x100_0000
}

/// The four little-endian bytes of a 32-bit value.
pub open spec fn le4(v: int) -> Seq<u8> {
    seq![
        (v % 0x100) as u8,
        ((v / 0x100) % 0x100) as u8,
        ((v / 0x1_0000) % 0x100) as u8,
        ((v / 0x100_0000) % 0x100) as u8,
    ]
}

/// Append the four little-endian bytes of `v` to `out`.
pub fn push_u32_le(out: &mut Vec<u8>, v: u32)
    ensures
        final(out)@ == old(out)@ + le4(v as int),
{
    out.push((v % 0x100) as u8);
    out.push(((v / 0x100) % 0x100) as u8);
    out.push(((v / 0x1_0000) % 0x100) as u8);
    out.push(((v / 0x100_0000) % 0x100) as u8);
    proof {
        assert(out@ =~= old(out)@ + le4(v as int));
    }
}

/// Copy the bytes of `d` between `from` and `to` into a fresh vector.
pub fn copy_range(d: &Vec<u8>, from: usize, to: usize) -> (r: Vec<u8>)
    requires
        from <= to <= d@.len(),
    ensures
        r@ == d@.subrange(from as int, to as int),
{
    let mut r: Vec<u8> = Vec::new();
    let mut i: usize = from;
    while i < to
        invariant
            from <= i <= to <= d@.len(),
            r@.len() == i - from,
            forall|j: int| 0 <= j < r@.len() ==> r@[j] == d@[from + j],
        decreases to - i,
    {
        r.push(d[i]);
        i += 1;
    }
    proof {
        assert(r@ =~= d@.subrange(from as int, to as int));
    }
    r
}

} // verus!
