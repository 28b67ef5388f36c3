//! Small verified helpers shared across the crate: saturating arithmetic on
//! `u64` and byte-vector copying.

use vstd::prelude::*;

verus! {

/// Clamps a mathematical size to the `u64` range.
pub open spec fn sat64(n: nat) -> u64 {
    if n > u64::MAX { u64::MAX } else { n as u64 }
}

/// Saturating addition at the specification level.
pub open spec fn spec_sat_add(a: u64, b: u64) -> u64 {
    sat64((a + b) as nat)
}

/// Saturating multiplication at the specification level.
pub open spec fn spec_sat_mul(a: u64, b: u64) -> u64 {
    sat64((a * b) as nat)
}

/// Saturating `u64` addition.
pub fn sat_add(a: u64, b: u64) -> (r: u64)
    ensures
        r == spec_sat_add(a, b),
{
    if a > u64::MAX - b {
        u64::MAX
    } else {
        a + b
    }
}

/// Saturating `u64` multiplication.
pub fn sat_mul(a: u64, b: u64) -> (r: u64)
    ensures
        r == spec_sat_mul(a, b),
{
    if b == 0 {
        0
    } else {
        let q = u64::MAX / b;
        if a > q {
            proof {
                assert(a * b > u64::MAX) by (nonlinear_arith)
                    requires
                        b > 0,
                        a > u64::MAX as int / b as int,
                {};
            }
            u64::MAX
        } else {
            proof {
                assert(a * b <= u64::MAX) by (nonlinear_arith)
                    requires
                        b > 0,
                        a <= u64::MAX as int / b as int,
                {};
            }
            a * b
        }
    }
}

/// Clamped addition agrees with clamping the mathematical sum.
pub proof fn lemma_sat_add_min(a: nat, b: nat)
    ensures
        spec_sat_add(sat64(a), sat64(b)) == sat64(a + b),
{
}

/// Clamped multiplication by an unclamped factor agrees with clamping the
/// mathematical product, because a factor of at least one keeps a clamped
/// operand at the ceiling.
pub proof fn lemma_sat_mul_min(a: u64, b: nat)
    ensures
        spec_sat_mul(a, sat64(b)) == sat64(a as nat * b),
{
    if b > u64::MAX {
        if a == 0 {
            assert(a as nat * b == 0) by (nonlinear_arith)
                requires
                    a == 0,
            {};
        } else {
            assert(a as nat * b >= b) by (nonlinear_arith)
                requires
                    a >= 1,
                    b > 0,
            {};
        }
    }
}

/// Copies a byte vector.
pub fn clone_bytes(v: &Vec<u8>) -> (r: Vec<u8>)
    ensures
        r@ == v@,
{
    let mut out: Vec<u8> = Vec::new();
    let n = v.len();
    let mut i: usize = 0;
    while i < n
        invariant
            0 <= i <= n,
            n == v@.len(),
            out@ == v@.subrange(0, i as int),
        decreases n - i,
    {
        out.push(v[i]);
        proof {
            assert(out@ =~= v@.subrange(0, i + 1 as int));
        }
        i = i + 1;
    }
    proof {
        assert(out@ =~= v@);
    }
    out
}

} // verus!
