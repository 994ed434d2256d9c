//! Difficulty retargeting and the difficulty/teraflops unit conversions.
//! All arithmetic is exact integer arithmetic; teraflops are carried in
//! thousandths (milli-teraflops), so one teraflop is 1000 units.

use vstd::prelude::*;
use crate::errors::DemleError;

verus! {

/// The retargeted difficulty: the ratio actual/target is clamped to
/// [1/max_adjustment, max_adjustment], the current difficulty is divided
/// by the clamped ratio exactly and floored, capped at the machine range,
/// and finally floored at the protocol minimum.
pub open spec fn spec_adjusted_difficulty(c: int, a: int, t: int, m: int) -> int {
    let raw = if a >= m * t {
        c / m
    } else if a * m <= t {
        c * m
    } else {
        (c * t) / a
    };
    let capped = if raw > u64::MAX {
        u64::MAX as int
    } else {
        raw
    };
    if capped < 1000 {
        1000
    } else {
        capped
    }
}

/// Retarget the difficulty from one observed block interval. A shorter
/// interval than the target raises difficulty, a longer one lowers it;
/// the clamp bounds the swing of a single retarget. The configuration
/// rules (a positive target, a factor above one) are demanded here and
/// checked by `validate_retarget_config`.
pub fn adjust_difficulty(
    current_difficulty: u64,
    actual_time: u64,
    target_time: u64,
    max_adjustment: u64,
) -> (r: u64)
    requires
        target_time >= 1,
        max_adjustment >= 2,
    ensures
        r == spec_adjusted_difficulty(
            current_difficulty as int,
            actual_time as int,
            target_time as int,
            max_adjustment as int,
        ),
{
    let c = current_difficulty as u128;
    let a = actual_time as u128;
    let t = target_time as u128;
    let m = max_adjustment as u128;
    proof {
        assert forall|x: int, y: int|
            0 <= x <= 0xffffffffffffffff && 0 <= y <= 0xffffffffffffffff implies #[trigger] (x
            * y) <= 0xffffffffffffffff * 0xffffffffffffffff by {
            vstd::arithmetic::mul::lemma_mul_upper_bound(
                x,
                0xffffffffffffffff,
                y,
                0xffffffffffffffff,
            );
        }
    }
    let raw: u128 = if a >= m * t {
        c / m
    } else if a * m <= t {
        c * m
    } else {
        proof {
            assert(a >= 1) by (nonlinear_arith)
                requires
                    !(a * m <= t),
                    t >= 1,
                    a >= 0,
                    m >= 0,
            ;
            vstd::arithmetic::div_mod::lemma_div_nonincreasing((c * t) as int, a as int);
        }
        (c * t) / a
    };
    let capped: u64 = if raw > 0xffff_ffff_ffff_ffff {
        u64::MAX
    } else {
        raw as u64
    };
    if capped < 1000 {
        1000
    } else {
        capped
    }
}

/// Reject retargeting misconfiguration: a zero block-time target or an
/// adjustment factor of one or less would make the ratio arithmetic
/// meaningless. Accepts exactly the configurations that
/// `adjust_difficulty` demands.
pub fn validate_retarget_config(target_time: u64, max_adjustment: u64) -> (r: Result<
    (),
    DemleError,
>)
    ensures
        r is Ok <==> target_time >= 1 && max_adjustment >= 2,
{
    if target_time == 0 {
        Err(DemleError::ConfigError(String::from_str("block time target must be positive")))
    } else if max_adjustment < 2 {
        Err(DemleError::ConfigError(String::from_str("max adjustment factor must exceed one")))
    } else {
        Ok(())
    }
}

/// A faster-than-target block never lowers the difficulty.
pub proof fn lemma_faster_raises(c: int, a: int, t: int, m: int)
    requires
        1 <= a <= t,
        m >= 2,
        0 <= c <= u64::MAX,
    ensures
        spec_adjusted_difficulty(c, a, t, m) >= c,
{
    if a >= m * t {
        assert(m * t >= 2 * t) by (nonlinear_arith)
            requires
                m >= 2,
                t >= 1,
        ;
        assert(false);
    } else if a * m <= t {
        assert(c * m >= c * 1) by (nonlinear_arith)
            requires
                m >= 1,
                c >= 0,
        ;
    } else {
        assert(c * t >= c * a) by (nonlinear_arith)
            requires
                a <= t,
                c >= 0,
        ;
        crate::arith::lemma_div_at_least(c * t, a, c);
        vstd::arithmetic::div_mod::lemma_div_by_multiple(c, a);
        assert(c * a / a == c);
    }
}

/// A slower-than-target block never raises the difficulty above the
/// current value, once the current value is at the protocol minimum.
pub proof fn lemma_slower_lowers(c: int, a: int, t: int, m: int)
    requires
        1 <= t <= a,
        m >= 2,
        1000 <= c <= u64::MAX,
    ensures
        spec_adjusted_difficulty(c, a, t, m) <= c,
{
    if a >= m * t {
        vstd::arithmetic::div_mod::lemma_div_nonincreasing(c, m);
        vstd::arithmetic::div_mod::lemma_div_pos_is_pos(c, m);
    } else if a * m <= t {
        assert(a * m >= a * 2) by (nonlinear_arith)
            requires
                m >= 2,
                a >= 1,
        ;
        assert(false);
    } else {
        assert(c * t <= c * a) by (nonlinear_arith)
            requires
                t <= a,
                c >= 0,
        ;
        vstd::arithmetic::div_mod::lemma_div_is_ordered(c * t, c * a, a);
        vstd::arithmetic::div_mod::lemma_div_by_multiple(c, a);
        vstd::arithmetic::div_mod::lemma_div_pos_is_pos(c * t, a);
    }
}

/// The retargeted difficulty never falls below the protocol minimum.
pub proof fn lemma_minimum_difficulty(c: int, a: int, t: int, m: int)
    ensures
        spec_adjusted_difficulty(c, a, t, m) >= 1000,
{
}

/// Difficulty for a compute rate: one milli-teraflop is 1000 difficulty
/// units, so difficulty equals teraflops times one million.
pub fn teraflops_to_difficulty(milli_teraflops: u64) -> (r: u64)
    requires
        milli_teraflops * 1000 <= u64::MAX,
    ensures
        r == milli_teraflops * 1000,
{
    milli_teraflops * 1000
}

/// Compute rate for a difficulty: the inverse of
/// `teraflops_to_difficulty`, flooring.
pub fn difficulty_to_teraflops(difficulty: u64) -> (r: u64)
    ensures
        r == difficulty / 1000,
{
    difficulty / 1000
}

/// The unit conversions invert each other exactly on whole
/// milli-teraflop values.
pub proof fn lemma_teraflops_inverse(milli_teraflops: u64)
    requires
        milli_teraflops * 1000 <= u64::MAX,
    ensures
        (milli_teraflops * 1000) / 1000 == milli_teraflops,
{
    vstd::arithmetic::div_mod::lemma_div_by_multiple(milli_teraflops as int, 1000);
}

} // verus!
