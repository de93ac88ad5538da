//! Little-endian integers in byte sequences.

use vstd::prelude::*;

verus! {

/// The value of a little-endian byte sequence.
pub open spec fn le_value(b: Seq<u8>) -> nat
    decreases b.len(),
{
    if b.len() == 0 {
        0
    } else {
        b[0] as nat + 256 * le_value(b.drop_first())
    }
}

/// The `n` low-order bytes of `v`, least significant first.
pub open spec fn le_bytes(v: nat, n: nat) -> Seq<u8>
    decreases n,
{
    if n == 0 {
        Seq::empty()
    } else {
        seq![(v % 256) as u8] + le_bytes(v / 256, (n - 1) as nat)
    }
}

pub open spec fn pow256(n: nat) -> nat
    decreases n,
{
    if n == 0 {
        1
    } else {
        256 * pow256((n - 1) as nat)
    }
}

pub proof fn lemma_le_value_bound(b: Seq<u8>)
    ensures
        le_value(b) < pow256(b.len()),
    decreases b.len(),
{
    if b.len() > 0 {
        lemma_le_value_bound(b.drop_first());
        let r = le_value(b.drop_first());
        let p = pow256(b.drop_first().len());
        assert(b[0] as nat + 256 * r < 256 * p) by (nonlinear_arith)
            requires
                r < p,
                b[0] < 256,
        ;
    }
}

pub proof fn lemma_pow256_8()
    ensures
        pow256(8) == 0x1_0000_0000_0000_0000,
        pow256(4) == 0x1_0000_0000,
        pow256(2) == 0x1_0000,
{
    reveal_with_fuel(pow256, 9);
}

/// Encoding a sequence's value in as many bytes gives the sequence back.
pub proof fn lemma_le_bytes_of_value(b: Seq<u8>)
    ensures
        le_bytes(le_value(b), b.len()) == b,
    decreases b.len(),
{
    if b.len() > 0 {
        let rest = b.drop_first();
        lemma_le_bytes_of_value(rest);
        let v = le_value(b);
        let r = le_value(rest);
        assert(v % 256 == b[0] as nat && v / 256 == r) by (nonlinear_arith)
            requires
                v == b[0] as nat + 256 * r,
                b[0] < 256,
        ;
        assert(le_bytes(v, b.len()) =~= b);
    }
}

/// Trailing zero bytes do not change a little-endian value.
pub proof fn lemma_le_value_zero_extend(b: Seq<u8>, n: nat)
    ensures
        le_value(b + Seq::new(n, |i: int| 0u8)) == le_value(b),
    decreases b.len(), n,
{
    if b.len() == 0 {
        lemma_le_value_zeros(n);
        assert(b + Seq::new(n, |i: int| 0u8) =~= Seq::new(n, |i: int| 0u8));
    } else {
        lemma_le_value_zero_extend(b.drop_first(), n);
        assert((b + Seq::new(n, |i: int| 0u8)).drop_first() =~= b.drop_first() + Seq::new(
            n,
            |i: int| 0u8,
        ));
    }
}

pub proof fn lemma_le_value_zeros(n: nat)
    ensures
        le_value(Seq::new(n, |i: int| 0u8)) == 0,
    decreases n,
{
    if n > 0 {
        lemma_le_value_zeros((n - 1) as nat);
        assert(Seq::new(n, |i: int| 0u8).drop_first() =~= Seq::new((n - 1) as nat, |i: int| 0u8));
    }
}

/// Reads `n` bytes at `off` as a little-endian unsigned integer.
pub fn read_le(b: &[u8], off: usize, n: usize) -> (r: u64)
    requires
        n <= 8,
        off + n <= b.len(),
    ensures
        r as nat == le_value(b@.subrange(off as int, off + n)),
    decreases n,
{
    proof {
        lemma_le_value_bound(b@.subrange(off as int, off + n));
        lemma_pow_mono(n as nat, 8);
        lemma_pow256_8();
    }
    if n == 0 {
        proof {
            assert(b@.subrange(off as int, off as int) =~= Seq::<u8>::empty());
        }
        0
    } else {
        let rest = read_le(b, off + 1, n - 1);
        proof {
            assert(b@.subrange(off as int, off + n).drop_first() =~= b@.subrange(
                off + 1,
                off + n,
            ));
        }
        b[off] as u64 + 256 * rest
    }
}

pub proof fn lemma_pow_mono(a: nat, b: nat)
    requires
        a <= b,
    ensures
        pow256(a) <= pow256(b),
    decreases b,
{
    if a < b {
        lemma_pow_mono(a, (b - 1) as nat);
    }
}

/// Appends the `n` low-order bytes of `v`, least significant first.
pub fn push_le(out: &mut Vec<u8>, v: u64, n: usize)
    ensures
        final(out)@ == old(out)@ + le_bytes(v as nat, n as nat),
    decreases n,
{
    if n == 0 {
        assert(old(out)@ + le_bytes(v as nat, 0) =~= old(out)@);
    } else {
        out.push((v % 256) as u8);
        push_le(out, v / 256, n - 1);
        assert(old(out)@ + le_bytes(v as nat, n as nat) =~= old(out)@.push((v % 256) as u8)
            + le_bytes((v / 256) as nat, (n - 1) as nat));
    }
}

} // verus!
