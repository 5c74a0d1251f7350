//! A byte-stream filter that XORs each byte against a position-indexed
//! lookup, as the SCD container's two obfuscation schemes need.
use vstd::prelude::*;

verus! {

/// The fixed 256-byte table of the SCD container's table-driven scheme.
pub const XOR_TABLE: [u8; 256] = [
    0x3A, 0x32, 0x32, 0x32, 0x03, 0x7E, 0x12, 0xF7, 0xB2, 0xE2, 0xA2, 0x67, 0x32, 0x32, 0x22, 0x32,
    0x32, 0x52, 0x16, 0x1B, 0x3C, 0xA1, 0x54, 0x7B, 0x1B, 0x97, 0xA6, 0x93, 0x1A, 0x4B, 0xAA, 0xA6,
    0x7A, 0x7B, 0x1B, 0x97, 0xA6, 0xF7, 0x02, 0xBB, 0xAA, 0xA6, 0xBB, 0xF7, 0x2A, 0x51, 0xBE, 0x03,
    0xF4, 0x2A, 0x51, 0xBE, 0x03, 0xF4, 0x2A, 0x51, 0xBE, 0x12, 0x06, 0x56, 0x27, 0x32, 0x32, 0x36,
    0x32, 0xB2, 0x1A, 0x3B, 0xBC, 0x91, 0xD4, 0x7B, 0x58, 0xFC, 0x0B, 0x55, 0x2A, 0x15, 0xBC, 0x40,
    0x92, 0x0B, 0x5B, 0x7C, 0x0A, 0x95, 0x12, 0x35, 0xB8, 0x63, 0xD2, 0x0B, 0x3B, 0xF0, 0xC7, 0x14,
    0x51, 0x5C, 0x94, 0x86, 0x94, 0x59, 0x5C, 0xFC, 0x1B, 0x17, 0x3A, 0x3F, 0x6B, 0x37, 0x32, 0x32,
    0x30, 0x32, 0x72, 0x7A, 0x13, 0xB7, 0x26, 0x60, 0x7A, 0x13, 0xB7, 0x26, 0x50, 0xBA, 0x13, 0xB4,
    0x2A, 0x50, 0xBA, 0x13, 0xB5, 0x2E, 0x40, 0xFA, 0x13, 0x95, 0xAE, 0x40, 0x38, 0x18, 0x9A, 0x92,
    0xB0, 0x38, 0x00, 0xFA, 0x12, 0xB1, 0x7E, 0x00, 0xDB, 0x96, 0xA1, 0x7C, 0x08, 0xDB, 0x9A, 0x91,
    0xBC, 0x08, 0xD8, 0x1A, 0x86, 0xE2, 0x70, 0x39, 0x1F, 0x86, 0xE0, 0x78, 0x7E, 0x03, 0xE7, 0x64,
    0x51, 0x9C, 0x8F, 0x34, 0x6F, 0x4E, 0x41, 0xFC, 0x0B, 0xD5, 0xAE, 0x41, 0xFC, 0x0B, 0xD5, 0xAE,
    0x41, 0xFC, 0x3B, 0x70, 0x71, 0x64, 0x33, 0x32, 0x12, 0x32, 0x32, 0x36, 0x70, 0x34, 0x2B, 0x56,
    0x22, 0x70, 0x3A, 0x13, 0xB7, 0x26, 0x60, 0xBA, 0x1B, 0x94, 0xAA, 0x40, 0x38, 0x00, 0xFA, 0xB2,
    0xE2, 0xA2, 0x67, 0x32, 0x32, 0x12, 0x32, 0xB2, 0x32, 0x32, 0x32, 0x32, 0x75, 0xA3, 0x26, 0x7B,
    0x83, 0x26, 0xF9, 0x83, 0x2E, 0xFF, 0xE3, 0x16, 0x7D, 0xC0, 0x1E, 0x63, 0x21, 0x07, 0xE3, 0x01,
];

/// A position-indexed XOR lookup: one constant byte for every position, or
/// the SCD container's table-driven form.
#[derive(Copy, Clone, Debug)]
pub enum XorLookup {
    /// The same byte at every position.
    Fixed(u8),
    /// The table byte at `(table_off + position) mod 256`, XORed with
    /// `static_xor`.
    ScdTable { table_off: u8, static_xor: u8 },
}

/// The byte a lookup yields at stream position `i`.
pub open spec fn spec_lookup(l: XorLookup, i: int) -> u8 {
    match l {
        XorLookup::Fixed(k) => k,
        XorLookup::ScdTable { table_off, static_xor } => (XOR_TABLE[(table_off + i) % 256]
            ^ static_xor) as u8,
    }
}

/// The bytes of `s`, each XORed with the lookup at its stream position;
/// `s[0]` sits at position `start`.
pub open spec fn xor_seq(s: Seq<u8>, l: XorLookup, start: int) -> Seq<u8> {
    Seq::new(s.len(), |i: int| (s[i] ^ spec_lookup(l, start + i)) as u8)
}

/// Applying the same lookup twice at the same positions is the identity.
pub proof fn lemma_xor_involutive(s: Seq<u8>, l: XorLookup, start: int)
    ensures
        xor_seq(xor_seq(s, l, start), l, start) == s,
{
    assert forall|i: int| 0 <= i < s.len() implies xor_seq(xor_seq(s, l, start), l, start)[i]
        == s[i] by {
        let a = s[i];
        let k = spec_lookup(l, start + i);
        assert((a ^ k) ^ k == a) by (bit_vector);
    }
    assert(xor_seq(xor_seq(s, l, start), l, start) =~= s);
}

impl XorLookup {
    /// The byte this lookup yields at stream position `pos`.
    pub fn at(&self, pos: usize) -> (r: u8)
        ensures
            r == spec_lookup(*self, pos as int),
    {
        match self {
            XorLookup::Fixed(k) => *k,
            XorLookup::ScdTable { table_off, static_xor } => {
                let idx = ((*table_off as usize) + pos % 256) % 256;
                proof {
                    let to = *table_off as int;
                    let p = pos as int;
                    vstd::arithmetic::div_mod::lemma_add_mod_noop(to, p, 256);
                    vstd::arithmetic::div_mod::lemma_mod_twice(p, 256);
                    vstd::arithmetic::div_mod::lemma_small_mod(to as nat, 256);
                }
                XOR_TABLE[idx] ^ *static_xor
            },
        }
    }
}

/// The XOR filter: wraps a byte buffer, holds a position counter starting
/// at zero, and XORs every byte it hands out against the lookup at that
/// byte's position.
pub struct XorRead {
    inner: Vec<u8>,
    xor_lookup: XorLookup,
    index: usize,
}

impl XorRead {
    /// The bytes still to hand out, already XORed.
    pub closed spec fn remaining(&self) -> Seq<u8> {
        xor_seq(self.inner@.skip(self.index as int), self.xor_lookup, self.index as int)
    }

    /// The position counter stays inside the buffer.
    pub closed spec fn wf(&self) -> bool {
        self.index <= self.inner@.len()
    }

    /// Wrap `reader` with a lookup; the position counter starts at zero.
    pub fn new(reader: Vec<u8>, xor_lookup: XorLookup) -> (r: XorRead)
        ensures
            r.wf(),
            r.remaining() == xor_seq(reader@, xor_lookup, 0),
    {
        let r = XorRead { inner: reader, xor_lookup, index: 0 };
        proof {
            assert(r.inner@.skip(0) =~= r.inner@);
        }
        r
    }

    /// Hand out up to `max` of the next bytes, XORed.
    pub fn read(&mut self, max: usize) -> (r: Vec<u8>)
        requires
            old(self).wf(),
        ensures
            final(self).wf(),
            r@.len() <= max,
            old(self).remaining() == r@ + final(self).remaining(),
            r@.len() == if max < old(self).remaining().len() {
                max as int
            } else {
                old(self).remaining().len() as int
            },
    {
        let avail = self.inner.len() - self.index;
        let n: usize = if avail < max {
            avail
        } else {
            max
        };
        let mut out: Vec<u8> = Vec::new();
        let ghost start = self.index as int;
        let mut j: usize = 0;
        while j < n
            invariant
                0 <= j <= n,
                self.index == start + j,
                start + n <= self.inner@.len(),
                self.inner@.len() <= usize::MAX,
                out@.len() == j,
                forall|t: int| 0 <= t < j ==> out@[t] == (self.inner@[start + t] ^ spec_lookup(
                    self.xor_lookup,
                    start + t,
                )) as u8,
                self.inner@ == old(self).inner@,
                self.xor_lookup == old(self).xor_lookup,
            decreases n - j,
        {
            let b = self.inner[self.index];
            let x = self.xor_lookup.at(self.index);
            out.push(b ^ x);
            self.index = self.index + 1;
            j += 1;
        }
        proof {
            assert(old(self).remaining() =~= out@ + self.remaining());
        }
        out
    }

    /// Hand out all remaining bytes, XORed.
    pub fn read_to_end(&mut self) -> (r: Vec<u8>)
        requires
            old(self).wf(),
        ensures
            final(self).wf(),
            r@ == old(self).remaining(),
            final(self).remaining().len() == 0,
    {
        let avail = self.inner.len() - self.index;
        let r = self.read(avail);
        proof {
            assert(r@ =~= old(self).remaining());
        }
        r
    }
}

/// The bytes of `data`, each XORed with the lookup at its position;
/// `data[0]` sits at position `start`.
pub fn xor_bytes(data: &Vec<u8>, l: XorLookup, start: usize) -> (r: Vec<u8>)
    requires
        start + data.len() <= usize::MAX,
    ensures
        r@ == xor_seq(data@, l, start as int),
{
    let n = data.len();
    let mut out: Vec<u8> = Vec::new();
    let mut i: usize = 0;
    while i < n
        invariant
            0 <= i <= n,
            n == data@.len(),
            start + n <= usize::MAX,
            out@.len() == i,
            forall|t: int| 0 <= t < i ==> out@[t] == (data@[t] ^ spec_lookup(l, start + t)) as u8,
        decreases n - i,
    {
        let b = data[i];
        let x = l.at(start + i);
        out.push(b ^ x);
        i += 1;
    }
    proof {
        assert(out@ =~= xor_seq(data@, l, start as int));
    }
    out
}

} // verus!
