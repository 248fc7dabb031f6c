//! Little-endian field access over the shared memory region, seen as a byte
//! sequence. Every access is bounds-checked by its precondition.
use vstd::bytes::*;
use vstd::prelude::*;

verus! {

/// `s` with the bytes at `off .. off + b.len()` replaced by `b`.
pub open spec fn splice(s: Seq<u8>, off: int, b: Seq<u8>) -> Seq<u8> {
    s.subrange(0, off) + b + s.subrange(off + b.len(), s.len() as int)
}

pub open spec fn field_u16(region: Seq<u8>, off: int) -> u16 {
    spec_u16_from_le_bytes(region.subrange(off, off + 2))
}

pub open spec fn field_u32(region: Seq<u8>, off: int) -> u32 {
    spec_u32_from_le_bytes(region.subrange(off, off + 4))
}

pub open spec fn field_u64(region: Seq<u8>, off: int) -> u64 {
    spec_u64_from_le_bytes(region.subrange(off, off + 8))
}

/// Two's complement reading of a 64-bit word.
pub open spec fn signed64(u: u64) -> int {
    if u < 0x8000_0000_0000_0000 {
        u as int
    } else {
        u as int - 0x1_0000_0000_0000_0000
    }
}

pub open spec fn field_i64(region: Seq<u8>, off: int) -> int {
    signed64(field_u64(region, off))
}

fn copy_bytes(region: &[u8], off: usize, n: usize) -> (r: Vec<u8>)
    requires
        off + n <= region@.len(),
    ensures
        r@ == region@.subrange(off as int, off + n),
{
    let len = region.len();
    let mut v: Vec<u8> = Vec::new();
    let mut i: usize = 0;
    while i < n
        invariant
            off + n <= region@.len(),
            region@.len() == len,
            i <= n,
            v@ == region@.subrange(off as int, off + i),
        decreases n - i,
    {
        v.push(region[off + i]);
        i = i + 1;
        assert(v@ =~= region@.subrange(off as int, off + i));
    }
    v
}

pub fn read_u16(region: &[u8], off: usize) -> (r: u16)
    requires
        off + 2 <= region@.len(),
    ensures
        r == field_u16(region@, off as int),
{
    let b = copy_bytes(region, off, 2);
    u16_from_le_bytes(b.as_slice())
}

pub fn read_u32(region: &[u8], off: usize) -> (r: u32)
    requires
        off + 4 <= region@.len(),
    ensures
        r == field_u32(region@, off as int),
{
    let b = copy_bytes(region, off, 4);
    u32_from_le_bytes(b.as_slice())
}

pub fn read_u64(region: &[u8], off: usize) -> (r: u64)
    requires
        off + 8 <= region@.len(),
    ensures
        r == field_u64(region@, off as int),
{
    let b = copy_bytes(region, off, 8);
    u64_from_le_bytes(b.as_slice())
}

pub fn read_i64(region: &[u8], off: usize) -> (r: i64)
    requires
        off + 8 <= region@.len(),
    ensures
        r as int == field_i64(region@, off as int),
{
    let u = read_u64(region, off);
    if u < 0x8000_0000_0000_0000 {
        u as i64
    } else {
        let low = (u - 0x8000_0000_0000_0000) as i64;
        low - 0x7fff_ffff_ffff_ffff - 1
    }
}

fn put_bytes(region: &mut [u8], off: usize, b: &Vec<u8>)
    requires
        off + b@.len() <= old(region)@.len(),
    ensures
        final(region)@ == splice(old(region)@, off as int, b@),
{
    let len = region.len();
    let mut i: usize = 0;
    while i < b.len()
        invariant
            off + b@.len() <= region@.len(),
            region@.len() == len,
            i <= b@.len(),
            region@.len() == old(region)@.len(),
            forall|k: int| 0 <= k < off || off + i <= k < region@.len() ==> region@[k] == old(region)@[k],
            forall|k: int| 0 <= k < i ==> region@[off + k] == b@[k],
        decreases b@.len() - i,
    {
        region[off + i] = b[i];
        i = i + 1;
    }
    assert(region@ =~= splice(old(region)@, off as int, b@));
}

pub fn write_u16(region: &mut [u8], off: usize, v: u16)
    requires
        off + 2 <= old(region)@.len(),
    ensures
        final(region)@ == splice(old(region)@, off as int, spec_u16_to_le_bytes(v)),
        field_u16(final(region)@, off as int) == v,
{
    proof { lemma_auto_spec_u16_to_from_le_bytes(); }
    let b = u16_to_le_bytes(v);
    put_bytes(region, off, &b);
    assert(region@.subrange(off as int, off + 2) =~= spec_u16_to_le_bytes(v));
}

pub fn write_u32(region: &mut [u8], off: usize, v: u32)
    requires
        off + 4 <= old(region)@.len(),
    ensures
        final(region)@ == splice(old(region)@, off as int, spec_u32_to_le_bytes(v)),
        field_u32(final(region)@, off as int) == v,
{
    proof { lemma_auto_spec_u32_to_from_le_bytes(); }
    let b = u32_to_le_bytes(v);
    put_bytes(region, off, &b);
    assert(region@.subrange(off as int, off + 4) =~= spec_u32_to_le_bytes(v));
}

} // verus!
