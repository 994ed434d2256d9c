//! Batch normalization over minifloat arithmetic. Per channel: the mean
//! of the channel's elements, the mean squared deviation, and the
//! standard deviation sqrt(variance + epsilon), each quantized; then
//! every element is normalized and scaled by the per-channel gamma and
//! beta parameters. Three sequential passes per channel, as the data
//! dependencies demand; channels are independent.

use vstd::prelude::*;
use vstd::arithmetic::power2::pow2;
use crate::arith::{prod_u64, checked_prod_u64, pow2_u64};
use crate::errors::DemleError;
use crate::fp8::{FP8, enc_q, val_q9, spec_div_bits, fp8_enc};
use crate::hashing::{sha3_hex, sha3_hex_of};
use crate::tensor::{
    generate_elements,
    gen_bytes,
    gen_byte,
    tensor_bytes,
    seed_add,
    spec_seed_add,
};

verus! {

/// Flat index of the p-th element of a channel: batch stride c*h*w,
/// channel stride h*w.
pub open spec fn bn_index(chw: int, hw: int, ch: int, p: int) -> int {
    (p / hw) * chw + ch * hw + (p % hw)
}

/// Minifloat sum of the first p elements of a channel.
pub open spec fn bn_sum(inp: Seq<u8>, chw: int, hw: int, ch: int, p: int) -> u8
    decreases p,
{
    if p <= 0 {
        0
    } else {
        let prev = bn_sum(inp, chw, hw, ch, p - 1);
        enc_q(val_q9(prev) + val_q9(inp[bn_index(chw, hw, ch, p - 1)]), 9)
    }
}

/// A Q9 value scaled by 2^20 and divided by a count, truncating toward
/// zero: the mean's full-precision value at 29 fraction bits.
pub open spec fn scaled_ratio(v: int, d: int) -> int {
    if v < 0 {
        -((-v) * 0x100000 / d)
    } else {
        v * 0x100000 / d
    }
}

/// Minifloat sum of squared deviations of the first p channel elements.
pub open spec fn bn_varsum(inp: Seq<u8>, chw: int, hw: int, ch: int, mean: u8, p: int) -> u8
    decreases p,
{
    if p <= 0 {
        0
    } else {
        let prev = bn_varsum(inp, chw, hw, ch, mean, p - 1);
        let diff = enc_q(val_q9(inp[bn_index(chw, hw, ch, p - 1)]) - val_q9(mean), 9);
        let sq = enc_q(val_q9(diff) * val_q9(diff), 18);
        enc_q(val_q9(prev) + val_q9(sq), 9)
    }
}

/// The j-th positive representable magnitude in Q9 scale.
pub open spec fn bnd_q9(j: int) -> int {
    (8 + j % 8) * pow2((j / 8) as nat)
}

/// How many representable magnitudes have a square at or below the
/// variance plus epsilon; the count determines sqrt's truncation cell.
/// The comparison is exact: b^2 <= v + eps scaled by 2^18 * 10^9.
pub open spec fn sqrt_count(vv: int, nanos: int, j: int) -> int
    decreases j,
{
    if j <= 0 {
        0
    } else {
        sqrt_count(vv, nanos, j - 1) + if bnd_q9(j - 1) * bnd_q9(j - 1) * 1000000000 <= vv
            * 512000000000 + nanos * 262144 {
            1int
        } else {
            0int
        }
    }
}

/// The standard-deviation pattern: the largest representable magnitude
/// whose square is at or below variance plus epsilon, or zero when even
/// the smallest is above it.
pub open spec fn sqrt_byte(vv: int, nanos: int) -> u8 {
    let c = sqrt_count(vv, nanos, 120);
    if c == 0 {
        0
    } else {
        (7 + c) as u8
    }
}

/// The channel mean pattern after the first pass.
pub open spec fn bn_mean(inp: Seq<u8>, chw: int, hw: int, cs: int, ch: int) -> u8 {
    enc_q(scaled_ratio(val_q9(bn_sum(inp, chw, hw, ch, cs)) as int, cs), 29)
}

/// The channel variance pattern after the second pass.
pub open spec fn bn_var(inp: Seq<u8>, chw: int, hw: int, cs: int, ch: int) -> u8 {
    enc_q(
        scaled_ratio(
            val_q9(bn_varsum(inp, chw, hw, ch, bn_mean(inp, chw, hw, cs, ch), cs)) as int,
            cs,
        ),
        29,
    )
}

/// The output pattern for flat position t: normalize by the channel's
/// mean and standard deviation, scale by gamma, shift by beta.
pub open spec fn bn_out_byte(
    inp: Seq<u8>,
    gamma: Seq<u8>,
    beta: Seq<u8>,
    chw: int,
    hw: int,
    cs: int,
    nanos: int,
    t: int,
) -> u8 {
    let ch = (t % chw) / hw;
    let mean = bn_mean(inp, chw, hw, cs, ch);
    let std = sqrt_byte(val_q9(bn_var(inp, chw, hw, cs, ch)) as int, nanos);
    let diff = enc_q(val_q9(inp[t]) - val_q9(mean), 9);
    let nrm = spec_div_bits(val_q9(diff) as int, val_q9(std) as int);
    let scaled = enc_q(val_q9(nrm) * val_q9(gamma[ch]), 18);
    enc_q(val_q9(scaled) + val_q9(beta[ch]), 9)
}

/// The whole output, row-major.
pub open spec fn bn_output(shape: (usize, usize, usize, usize), nanos: u64, seed: u64) -> Seq<
    u8,
> {
    let b = shape.0 as int;
    let c = shape.1 as int;
    let h = shape.2 as int;
    let w = shape.3 as int;
    let hw = h * w;
    let chw = c * hw;
    let cs = b * hw;
    let inp = gen_bytes(seed, b * chw);
    let gamma = gen_bytes(spec_seed_add(seed, 1), c);
    let beta = gen_bytes(spec_seed_add(seed, 2), c);
    Seq::new((b * chw) as nat, |t: int| bn_out_byte(inp, gamma, beta, chw, hw, cs, nanos as int, t))
}

/// When the normalization can run: the sizes fit the machine, and so
/// does the operation count whenever it is not zero.
pub open spec fn bn_ok(b: int, c: int, h: int, w: int) -> bool {
    &&& h * w <= usize::MAX
    &&& c * (h * w) <= usize::MAX
    &&& b * (c * (h * w)) <= usize::MAX
    &&& b * (h * w) <= usize::MAX
    &&& (b >= 1 && c >= 1 && h >= 1 && w >= 1 ==> 6 * b * c * h * w <= u64::MAX)
}

/// Divide a channel aggregate by the element count, truncating toward
/// zero, and re-quantize: the mean and variance step.
fn ratio_to_fp8(v: FP8, d: u64) -> (r: FP8)
    requires
        d >= 1,
    ensures
        r.spec_bits() == enc_q(scaled_ratio(v.value_q9(), d as int), 29),
{
    let va = v.decode_q9();
    if va < 0 {
        let mag: u64 = (((-va) as u64) * 0x10_0000) / d;
        proof {
            vstd::arithmetic::div_mod::lemma_div_nonincreasing(((-va) as u64 * 0x10_0000) as int, d as int);
        }
        fp8_enc(-(mag as i64), 29)
    } else {
        let mag: u64 = ((va as u64) * 0x10_0000) / d;
        proof {
            vstd::arithmetic::div_mod::lemma_div_nonincreasing((va as u64 * 0x10_0000) as int, d as int);
        }
        fp8_enc(mag as i64, 29)
    }
}

/// The standard-deviation pattern for a variance and an epsilon.
fn std_dev_fp8(variance: FP8, nanos: u64) -> (r: FP8)
    ensures
        r.spec_bits() == sqrt_byte(variance.value_q9(), nanos as int),
{
    let vv = variance.decode_q9();
    let rhs: i128 = (vv as i128) * 512_000_000_000 + (nanos as i128) * 262144;
    let mut cnt: u64 = 0;
    let mut j: usize = 0;
    while j < 120
        invariant
            j <= 120,
            cnt == sqrt_count(vv as int, nanos as int, j as int),
            cnt <= j,
            rhs == (vv as int) * 512000000000 + (nanos as int) * 262144,
        decreases 120 - j,
    {
        let f: u64 = pow2_u64((j / 8) as u32);
        proof {
            vstd::arithmetic::power2::lemma2_to64();
            if j / 8 < 14 {
                vstd::arithmetic::power2::lemma_pow2_strictly_increases((j / 8) as nat, 14);
            }
            vstd::arithmetic::mul::lemma_mul_upper_bound(
                (8 + (j % 8)) as int,
                15,
                f as int,
                16384,
            );
        }
        let bd: u64 = ((8 + (j % 8)) as u64) * f;
        proof {
            assert((bd as int) * (bd as int) <= 245760 * 245760) by (nonlinear_arith)
                requires
                    0 <= bd as int <= 245760,
            ;
            assert(bd == bnd_q9(j as int));
        }
        let lhs: i128 = (bd as i128) * (bd as i128) * 1_000_000_000;
        if lhs <= rhs {
            cnt = cnt + 1;
        }
        j = j + 1;
    }
    if cnt == 0 {
        FP8::from_bits(0)
    } else {
        FP8::from_bits(7 + (cnt as u8))
    }
}

/// Execute batch normalization for a shape, an epsilon in nanos and a
/// seed. On success the first component is the hex content hash of the
/// output bytes and the second is the exact operation count, six per
/// element; fails exactly when a size or the count overflows the
/// machine.
pub fn execute_batch_norm(shape: (usize, usize, usize, usize), epsilon: u64, seed: u64) -> (r:
    Result<(String, u64), DemleError>)
    ensures
        r is Ok <==> bn_ok(shape.0 as int, shape.1 as int, shape.2 as int, shape.3 as int),
        r is Ok ==> r->Ok_0.0@ == sha3_hex_of(bn_output(shape, epsilon, seed)),
        r is Ok ==> r->Ok_0.0@.len() == 64,
        r is Err ==> r->Err_0 is ComputationError,
        r is Ok ==> r->Ok_0.1 == 6 * (shape.0 as int) * (shape.1 as int) * (shape.2 as int) * (
        shape.3 as int),
{
    let (b, c, h, w) = shape;
    let hw: usize = match h.checked_mul(w) {
        Some(v) => v,
        None => {
            return Err(DemleError::ComputationError(String::from_str("shape overflows")));
        },
    };
    let chw: usize = match c.checked_mul(hw) {
        Some(v) => v,
        None => {
            return Err(DemleError::ComputationError(String::from_str("shape overflows")));
        },
    };
    let total: usize = match b.checked_mul(chw) {
        Some(v) => v,
        None => {
            return Err(DemleError::ComputationError(String::from_str("shape overflows")));
        },
    };
    let cs: usize = match b.checked_mul(hw) {
        Some(v) => v,
        None => {
            return Err(DemleError::ComputationError(String::from_str("shape overflows")));
        },
    };
    let flops: u64 = if b == 0 || c == 0 || h == 0 || w == 0 {
        proof {
            assert(6 * (b as int) * (c as int) * (h as int) * (w as int) == 0)
                by (nonlinear_arith)
                requires
                    b == 0 || c == 0 || h == 0 || w == 0,
            ;
        }
        0
    } else {
        let factors: Vec<u64> = vec![6, b as u64, c as u64, h as u64, w as u64];
        proof {
            reveal_with_fuel(prod_u64, 7);
        }
        match checked_prod_u64(&factors) {
            Some(v) => v,
            None => {
                proof {
                    if 6 * (b as int) * (c as int) * (h as int) * (w as int) <= u64::MAX {
                        crate::arith::lemma_prod_u64_ok_from_bound(factors@, 5);
                    }
                }
                return Err(
                    DemleError::ComputationError(
                        String::from_str("operation count overflows"),
                    ),
                );
            },
        }
    };
    let input = generate_elements(total, seed);
    let gamma = generate_elements(c, seed_add(seed, 1));
    let beta = generate_elements(c, seed_add(seed, 2));
    let ghost inp = gen_bytes(seed, total as int);
    let ghost gseq = gen_bytes(spec_seed_add(seed, 1), c as int);
    let ghost bseq = gen_bytes(spec_seed_add(seed, 2), c as int);
    let mut out: Vec<FP8> = Vec::new();
    if total > 0 {
        proof {
            assert(b >= 1 && c >= 1 && hw >= 1 && cs >= 1) by (nonlinear_arith)
                requires
                    total == (b as int) * (chw as int),
                    chw == (c as int) * (hw as int),
                    cs == (b as int) * (hw as int),
                    total >= 1,
                    0 <= b && 0 <= c && 0 <= hw,
            ;
        }
        // first pass: per-channel mean and standard deviation
        let mut means: Vec<FP8> = Vec::new();
        let mut stds: Vec<FP8> = Vec::new();
        let mut ch: usize = 0;
        while ch < c
            invariant
                ch <= c,
                b >= 1,
                c >= 1,
                hw >= 1,
                cs >= 1,
                chw == (c as int) * (hw as int),
                total == (b as int) * (chw as int),
                cs == (b as int) * (hw as int),
                input@.len() == total,
                forall|t: int|
                    0 <= t < total ==> (#[trigger] input@[t]).spec_bits() == gen_byte(seed, t),
                inp == gen_bytes(seed, total as int),
                means@.len() == ch,
                stds@.len() == ch,
                forall|t: int|
                    0 <= t < ch ==> (#[trigger] means@[t]).spec_bits() == bn_mean(
                        inp,
                        chw as int,
                        hw as int,
                        cs as int,
                        t,
                    ),
                forall|t: int|
                    0 <= t < ch ==> (#[trigger] stds@[t]).spec_bits() == sqrt_byte(
                        val_q9(
                            bn_var(inp, chw as int, hw as int, cs as int, t),
                        ),
                        epsilon as int,
                    ),
            decreases c - ch,
        {
            let mut sum = FP8::zero();
            let mut p: usize = 0;
            while p < cs
                invariant
                    p <= cs,
                    ch < c,
                    b >= 1,
                    c >= 1,
                    hw >= 1,
                    cs >= 1,
                    chw == (c as int) * (hw as int),
                    total == (b as int) * (chw as int),
                    cs == (b as int) * (hw as int),
                    input@.len() == total,
                    forall|t: int|
                        0 <= t < total ==> (#[trigger] input@[t]).spec_bits() == gen_byte(
                            seed,
                            t,
                        ),
                    inp == gen_bytes(seed, total as int),
                    sum.spec_bits() == bn_sum(inp, chw as int, hw as int, ch as int, p as int),
                decreases cs - p,
            {
                let q: usize = p / hw;
                let s: usize = p % hw;
                proof {
                    lemma_bn_index_bounds(
                        b as int,
                        c as int,
                        hw as int,
                        chw as int,
                        cs as int,
                        total as int,
                        ch as int,
                        p as int,
                    );
                }
                let idx: usize = q * chw + ch * hw + s;
                let v = input[idx];
                sum = sum.add(v);
                p = p + 1;
            }
            let mean = ratio_to_fp8(sum, cs as u64);
            let mut varsum = FP8::zero();
            let mut p2: usize = 0;
            while p2 < cs
                invariant
                    p2 <= cs,
                    ch < c,
                    b >= 1,
                    c >= 1,
                    hw >= 1,
                    cs >= 1,
                    chw == (c as int) * (hw as int),
                    total == (b as int) * (chw as int),
                    cs == (b as int) * (hw as int),
                    input@.len() == total,
                    forall|t: int|
                        0 <= t < total ==> (#[trigger] input@[t]).spec_bits() == gen_byte(
                            seed,
                            t,
                        ),
                    inp == gen_bytes(seed, total as int),
                    mean.spec_bits() == bn_mean(inp, chw as int, hw as int, cs as int, ch as int),
                    varsum.spec_bits() == bn_varsum(
                        inp,
                        chw as int,
                        hw as int,
                        ch as int,
                        mean.spec_bits(),
                        p2 as int,
                    ),
                decreases cs - p2,
            {
                let q: usize = p2 / hw;
                let s: usize = p2 % hw;
                proof {
                    lemma_bn_index_bounds(
                        b as int,
                        c as int,
                        hw as int,
                        chw as int,
                        cs as int,
                        total as int,
                        ch as int,
                        p2 as int,
                    );
                }
                let idx: usize = q * chw + ch * hw + s;
                let diff = input[idx].sub(mean);
                let sq = diff.mul(diff);
                varsum = varsum.add(sq);
                p2 = p2 + 1;
            }
            let variance = ratio_to_fp8(varsum, cs as u64);
            let std = std_dev_fp8(variance, epsilon);
            means.push(mean);
            stds.push(std);
            ch = ch + 1;
        }
        // second pass: normalize every element, row-major
        let mut t: usize = 0;
        while t < total
            invariant
                t <= total,
                b >= 1,
                c >= 1,
                hw >= 1,
                cs >= 1,
                chw == (c as int) * (hw as int),
                total == (b as int) * (chw as int),
                cs == (b as int) * (hw as int),
                input@.len() == total,
                gamma@.len() == c,
                beta@.len() == c,
                means@.len() == c,
                stds@.len() == c,
                forall|u: int|
                    0 <= u < total ==> (#[trigger] input@[u]).spec_bits() == gen_byte(seed, u),
                forall|u: int|
                    0 <= u < c ==> (#[trigger] gamma@[u]).spec_bits() == gen_byte(
                        spec_seed_add(seed, 1),
                        u,
                    ),
                forall|u: int|
                    0 <= u < c ==> (#[trigger] beta@[u]).spec_bits() == gen_byte(
                        spec_seed_add(seed, 2),
                        u,
                    ),
                inp == gen_bytes(seed, total as int),
                gseq == gen_bytes(spec_seed_add(seed, 1), c as int),
                bseq == gen_bytes(spec_seed_add(seed, 2), c as int),
                forall|u: int|
                    0 <= u < c ==> (#[trigger] means@[u]).spec_bits() == bn_mean(
                        inp,
                        chw as int,
                        hw as int,
                        cs as int,
                        u,
                    ),
                forall|u: int|
                    0 <= u < c ==> (#[trigger] stds@[u]).spec_bits() == sqrt_byte(
                        val_q9(
                            bn_var(inp, chw as int, hw as int, cs as int, u),
                        ),
                        epsilon as int,
                    ),
                out@.len() == t,
                forall|u: int|
                    0 <= u < t ==> (#[trigger] out@[u]).spec_bits() == bn_out_byte(
                        inp,
                        gseq,
                        bseq,
                        chw as int,
                        hw as int,
                        cs as int,
                        epsilon as int,
                        u,
                    ),
            decreases total - t,
        {
            proof {
                assert(chw >= 1) by (nonlinear_arith)
                    requires
                        chw == (c as int) * (hw as int),
                        c >= 1,
                        hw >= 1,
                ;
            }
            let ch: usize = (t % chw) / hw;
            proof {
                crate::arith::lemma_div_below((t as int) % (chw as int), hw as int, c as int);
            }
            let v = input[t];
            let diff = v.sub(means[ch]);
            let nrm = diff.div(stds[ch]);
            let scaled = nrm.mul(gamma[ch]);
            let o = scaled.add(beta[ch]);
            out.push(o);
            t = t + 1;
        }
    }
    let bytes = tensor_bytes(&out);
    let result_hash = sha3_hex(bytes.as_slice());
    proof {
        if total == 0 {
            assert(bytes@ =~= bn_output(shape, epsilon, seed));
        } else {
            assert(bytes@ =~= bn_output(shape, epsilon, seed));
        }
    }
    Ok((result_hash, flops))
}

/// The flat index of a channel element is within the tensor, and its
/// pieces stay within the machine's range.
proof fn lemma_bn_index_bounds(
    b: int,
    c: int,
    hw: int,
    chw: int,
    cs: int,
    total: int,
    ch: int,
    p: int,
)
    requires
        b >= 1,
        c >= 1,
        hw >= 1,
        chw == c * hw,
        total == b * chw,
        cs == b * hw,
        0 <= ch < c,
        0 <= p < cs,
    ensures
        0 <= p / hw < b,
        (p / hw) * chw + ch * hw + (p % hw) < total,
        (p / hw) * chw + ch * hw + (p % hw) == bn_index(chw, hw, ch, p),
        (p / hw) * chw <= total,
        ch * hw < chw,
{
    crate::arith::lemma_div_below(p, hw, b);
    vstd::arithmetic::div_mod::lemma_div_pos_is_pos(p, hw);
    let q = p / hw;
    let s = p % hw;
    assert(0 <= s < hw);
    assert(q * chw + ch * hw + s < total) by (nonlinear_arith)
        requires
            0 <= q < b,
            0 <= ch < c,
            0 <= s < hw,
            chw == c * hw,
            total == b * chw,
            hw >= 1,
    ;
    assert(q * chw <= total && ch * hw < chw) by (nonlinear_arith)
        requires
            0 <= q < b,
            0 <= ch < c,
            chw == c * hw,
            total == b * chw,
            hw >= 1,
            chw >= 0,
    ;
}

} // verus!
