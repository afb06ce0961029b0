//! Byte-string building blocks: concatenation, comparison and little-endian integers.
use vstd::prelude::*;
use crate::group::le_bytes;

verus! {

/// Appends `bytes` to `buf`.
pub fn append_bytes(buf: &mut Vec<u8>, bytes: &[u8])
    ensures
        final(buf)@ == old(buf)@ + bytes@,
{
    buf.extend_from_slice(bytes);
    assert(final(buf)@ =~= old(buf)@ + bytes@);
}

/// Whether two 32-byte strings are equal.
pub fn bytes32_eq(a: &[u8; 32], b: &[u8; 32]) -> (res: bool)
    ensures
        res == (a@ == b@),
{
    let mut i: usize = 0;
    while i < 32
        invariant
            i <= 32,
            a@.len() == 32,
            b@.len() == 32,
            forall|j: int| 0 <= j < i ==> a@[j] == b@[j],
        decreases 32 - i,
    {
        if a[i] != b[i] {
            assert(a@[i as int] != b@[i as int]);
            return false;
        }
        i = i + 1;
    }
    assert(a@ =~= b@);
    true
}

/// Whether every byte of a 32-byte string is zero.
pub fn is_all_zero(a: &[u8; 32]) -> (res: bool)
    ensures
        res == (a@ == Seq::new(32, |_i: int| 0u8)),
{
    let mut i: usize = 0;
    while i < 32
        invariant
            i <= 32,
            a@.len() == 32,
            forall|j: int| 0 <= j < i ==> a@[j] == 0u8,
        decreases 32 - i,
    {
        if a[i] != 0 {
            assert(a@[i as int] != Seq::new(32, |_i: int| 0u8)[i as int]);
            return false;
        }
        i = i + 1;
    }
    assert(a@ =~= Seq::new(32, |_i: int| 0u8));
    true
}

/// The 8-byte little-endian encoding of `x`.
pub fn u64_le_bytes(x: u64) -> (res: [u8; 8])
    ensures
        res@ == le_bytes(x as nat, 8),
{
    let mut out = [0u8; 8];
    let mut v: u64 = x;
    let mut i: usize = 0;
    while i < 8
        invariant
            i <= 8,
            out@.len() == 8,
            out@.subrange(0, i as int) + le_bytes(v as nat, (8 - i) as nat) == le_bytes(x as nat, 8),
        decreases 8 - i,
    {
        let ghost prev = out@;
        assert(le_bytes(v as nat, (8 - i) as nat) == seq![(v % 256) as u8] + le_bytes(
            (v / 256) as nat,
            (8 - i - 1) as nat,
        ));
        out[i] = (v % 256) as u8;
        assert(out@.subrange(0, i + 1) =~= prev.subrange(0, i as int) + seq![(v % 256) as u8]);
        v = v / 256;
        i = i + 1;
    }
    assert(out@.subrange(0, 8) =~= out@);
    out
}

/// The 4-byte little-endian encoding of `x`.
pub fn u32_le_bytes(x: u32) -> (res: [u8; 4])
    ensures
        res@ == le_bytes(x as nat, 4),
{
    let mut out = [0u8; 4];
    let mut v: u32 = x;
    let mut i: usize = 0;
    while i < 4
        invariant
            i <= 4,
            out@.len() == 4,
            out@.subrange(0, i as int) + le_bytes(v as nat, (4 - i) as nat) == le_bytes(x as nat, 4),
        decreases 4 - i,
    {
        let ghost prev = out@;
        assert(le_bytes(v as nat, (4 - i) as nat) == seq![(v % 256) as u8] + le_bytes(
            (v / 256) as nat,
            (4 - i - 1) as nat,
        ));
        out[i] = (v % 256) as u8;
        assert(out@.subrange(0, i + 1) =~= prev.subrange(0, i as int) + seq![(v % 256) as u8]);
        v = v / 256;
        i = i + 1;
    }
    assert(out@.subrange(0, 4) =~= out@);
    out
}

} // verus!
