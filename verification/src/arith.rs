//! Small shared arithmetic helpers: an executable power of two and a few
//! lemmas about integer division used when reasoning about bit fields.

use vstd::prelude::*;
use vstd::arithmetic::power2::pow2;

verus! {

/// Executable power of two for exponents below 64.
pub fn pow2_u64(k: u32) -> (r: u64)
    requires
        k < 64,
    ensures
        r == pow2(k as nat),
{
    let mut r: u64 = 1;
    let mut i: u32 = 0;
    proof {
        vstd::arithmetic::power2::lemma2_to64();
    }
    while i < k
        invariant
            i <= k,
            k < 64,
            r == pow2(i as nat),
        decreases k - i,
    {
        proof {
            vstd::arithmetic::power2::lemma_pow2_strictly_increases(i as nat + 1, 64);
            vstd::arithmetic::power2::lemma2_to64();
            vstd::arithmetic::power2::lemma2_to64_rest();
            vstd::arithmetic::power2::lemma_pow2_unfold(i as nat + 1);
        }
        r = r * 2;
        i = i + 1;
    }
    r
}

/// A quotient is at least `lo` when the dividend is at least `lo` times
/// the divisor.
pub proof fn lemma_div_at_least(a: int, d: int, lo: int)
    requires
        d > 0,
        lo >= 0,
        lo * d <= a,
    ensures
        a / d >= lo,
{
    vstd::arithmetic::div_mod::lemma_div_is_ordered(lo * d, a, d);
    vstd::arithmetic::div_mod::lemma_div_by_multiple(lo, d);
}

/// A quotient is below `hi` when the dividend is below `hi` times the
/// divisor.
pub proof fn lemma_div_below(a: int, d: int, hi: int)
    requires
        d > 0,
        0 <= a,
        a < hi * d,
    ensures
        a / d < hi,
{
    vstd::arithmetic::mul::lemma_mul_is_commutative(hi, d);
    vstd::arithmetic::div_mod::lemma_multiply_divide_lt(a, d, hi);
}

/// Product of the first k entries of a factor list.
pub open spec fn prod_u64(s: Seq<u64>, k: int) -> int
    decreases k,
{
    if k <= 0 {
        1
    } else {
        prod_u64(s, k - 1) * s[k - 1]
    }
}

/// Whether the running product fits in 64 bits at every step, which is
/// exactly when a left-to-right checked product succeeds.
pub open spec fn prod_u64_ok(s: Seq<u64>, k: int) -> bool
    decreases k,
{
    if k <= 0 {
        true
    } else {
        prod_u64_ok(s, k - 1) && prod_u64(s, k) <= u64::MAX
    }
}

/// A bounded running product is bounded at every earlier step.
pub proof fn lemma_prod_u64_ok_mono(s: Seq<u64>, j: int, k: int)
    requires
        0 <= j <= k,
        prod_u64_ok(s, k),
    ensures
        prod_u64_ok(s, j),
    decreases k - j,
{
    if j < k {
        lemma_prod_u64_ok_mono(s, j, k - 1);
    }
}

/// A product of unsigned factors is non-negative.
pub proof fn lemma_prod_u64_nonneg(s: Seq<u64>, k: int)
    ensures
        prod_u64(s, k) >= 0,
    decreases k,
{
    if k > 0 {
        lemma_prod_u64_nonneg(s, k - 1);
        vstd::arithmetic::mul::lemma_mul_nonnegative(prod_u64(s, k - 1), s[k - 1] as int);
    }
}

/// With factors of at least one, the running product never decreases.
pub proof fn lemma_prod_u64_prefix_le(s: Seq<u64>, j: int, k: int)
    requires
        0 <= j <= k,
        forall|i: int| j <= i < k ==> #[trigger] s[i] >= 1,
    ensures
        prod_u64(s, j) <= prod_u64(s, k),
    decreases k - j,
{
    if j < k {
        lemma_prod_u64_prefix_le(s, j, k - 1);
        lemma_prod_u64_nonneg(s, k - 1);
        vstd::arithmetic::mul::lemma_mul_is_commutative(prod_u64(s, k - 1), s[k - 1] as int);
        vstd::arithmetic::mul::lemma_mul_inequality(1, s[k - 1] as int, prod_u64(s, k - 1));
    }
}

/// With factors of at least one and a bounded final product, every
/// running product is bounded.
pub proof fn lemma_prod_u64_ok_from_bound(s: Seq<u64>, k: int)
    requires
        k >= 0,
        forall|i: int| 0 <= i < k ==> #[trigger] s[i] >= 1,
        prod_u64(s, k) <= u64::MAX,
    ensures
        prod_u64_ok(s, k),
    decreases k,
{
    if k > 0 {
        lemma_prod_u64_prefix_le(s, k - 1, k);
        lemma_prod_u64_ok_from_bound(s, k - 1);
    }
}

/// Left-to-right checked product of a factor list.
pub fn checked_prod_u64(factors: &Vec<u64>) -> (r: Option<u64>)
    ensures
        r is Some <==> prod_u64_ok(factors@, factors@.len() as int),
        r is Some ==> r->Some_0 == prod_u64(factors@, factors@.len() as int),
{
    let mut total: u64 = 1;
    let mut k: usize = 0;
    while k < factors.len()
        invariant
            k <= factors@.len(),
            prod_u64_ok(factors@, k as int),
            total == prod_u64(factors@, k as int),
        decreases factors@.len() - k,
    {
        match total.checked_mul(factors[k]) {
            Some(t) => {
                total = t;
            },
            None => {
                proof {
                    if prod_u64_ok(factors@, factors@.len() as int) {
                        lemma_prod_u64_ok_mono(factors@, k as int + 1, factors@.len() as int);
                    }
                }
                return None;
            },
        }
        k = k + 1;
    }
    Some(total)
}

} // verus!
