//! Multi-head attention over minifloat arithmetic. The input and the
//! three projection matrices are generated from the seed and its three
//! successors. Per batch and head: the head's query, key and value slices
//! are projected column by column; scores are scaled dot products; the
//! softmax weights (at 30 fraction bits) weight the value rows, and the
//! weighted values are accumulated in the format's own discipline: each
//! product and each partial sum is re-quantized, with no
//! extended-precision accumulation. Heads and positions are independent;
//! the weighted sums run only after the projections are complete.

use vstd::prelude::*;
use crate::arith::{prod_u64, checked_prod_u64};
use crate::batch_norm::bnd_q9;
use crate::errors::DemleError;
use crate::fp8::{FP8, enc_q, val_q9, fp8_enc};
use crate::hashing::{sha3_hex, sha3_hex_of};
use crate::operations::{softmax, softmax_weight};
use crate::tensor::{
    generate_elements,
    gen_bytes,
    gen_byte,
    tensor_bytes,
    bits_of,
    seed_add,
    spec_seed_add,
};

verus! {

/// The projection accumulator for output column `col` of position i of a
/// batch, after l steps over the model dimension.
pub open spec fn proj_cell(
    inp: Seq<u8>,
    wm: Seq<u8>,
    d: int,
    s: int,
    bi: int,
    col: int,
    i: int,
    l: int,
) -> u8
    decreases l,
{
    if l <= 0 {
        0
    } else {
        let prev = proj_cell(inp, wm, d, s, bi, col, i, l - 1);
        let prod = enc_q(
            val_q9(inp[bi * (s * d) + i * d + (l - 1)]) * val_q9(wm[(l - 1) * d + col]),
            18,
        );
        enc_q(val_q9(prev) + val_q9(prod), 9)
    }
}

/// One projected head as a byte sequence: position-major, head-dimension
/// minor.
pub open spec fn head_seq(
    inp: Seq<u8>,
    wm: Seq<u8>,
    d: int,
    s: int,
    dk: int,
    bi: int,
    h2: int,
) -> Seq<u8> {
    Seq::new((s * dk) as nat, |p: int| proj_cell(inp, wm, d, s, bi, h2 * dk + p % dk, p / dk, d))
}

/// The score accumulator for query position i against key position j2,
/// after l steps over the head dimension.
pub open spec fn score_acc(qb: Seq<u8>, kb: Seq<u8>, dk: int, i: int, j2: int, l: int) -> u8
    decreases l,
{
    if l <= 0 {
        0
    } else {
        let prev = score_acc(qb, kb, dk, i, j2, l - 1);
        let prod = enc_q(val_q9(qb[i * dk + (l - 1)]) * val_q9(kb[j2 * dk + (l - 1)]), 18);
        enc_q(val_q9(prev) + val_q9(prod), 9)
    }
}

/// How many representable magnitudes have a square at or below 1/dk: the
/// count determines the truncation cell of the scale factor 1/sqrt(dk).
pub open spec fn inv_sqrt_count(dk: int, j: int) -> int
    decreases j,
{
    if j <= 0 {
        0
    } else {
        inv_sqrt_count(dk, j - 1) + if bnd_q9(j - 1) * bnd_q9(j - 1) * dk <= 262144 {
            1int
        } else {
            0int
        }
    }
}

/// The scale pattern: the largest representable magnitude whose square
/// times dk is at most one.
pub open spec fn inv_sqrt_byte(dk: int) -> u8 {
    let c = inv_sqrt_count(dk, 120);
    if c == 0 {
        0
    } else {
        (7 + c) as u8
    }
}

/// The scaled score row of query position i.
pub open spec fn score_row(qb: Seq<u8>, kb: Seq<u8>, dk: int, s: int, scale: u8, i: int) -> Seq<
    u8,
> {
    Seq::new(s as nat, |j2: int| enc_q(val_q9(score_acc(qb, kb, dk, i, j2, dk)) * val_q9(scale), 18))
}

/// The weighted value accumulator for head column j of query position i
/// after k2 steps over the key positions. The weights carry 30 fraction
/// bits and the values 9, so each product enters at 39; every product
/// and every partial sum is re-quantized through the format.
pub open spec fn att_chain(scores: Seq<u8>, vb: Seq<u8>, dk: int, j: int, k2: int) -> u8
    decreases k2,
{
    if k2 <= 0 {
        0
    } else {
        let prev = att_chain(scores, vb, dk, j, k2 - 1);
        let term = enc_q(
            softmax_weight(scores, k2 - 1) * val_q9(vb[(k2 - 1) * dk + j]),
            39,
        );
        enc_q(val_q9(prev) + val_q9(term), 9)
    }
}

/// The output pattern of one head position: the weighted value chain run
/// over all key positions.
pub open spec fn head_out_byte(
    qb: Seq<u8>,
    kb: Seq<u8>,
    vb: Seq<u8>,
    dk: int,
    s: int,
    scale: u8,
    i: int,
    j: int,
) -> u8 {
    att_chain(score_row(qb, kb, dk, s, scale, i), vb, dk, j, s)
}

/// The output pattern of one attention position, from the generated
/// input and weights.
pub open spec fn att_head_out(
    inp: Seq<u8>,
    wqb: Seq<u8>,
    wkb: Seq<u8>,
    wvb: Seq<u8>,
    d: int,
    s: int,
    dk: int,
    bi: int,
    h2: int,
    i: int,
    j: int,
) -> u8 {
    head_out_byte(
        head_seq(inp, wqb, d, s, dk, bi, h2),
        head_seq(inp, wkb, d, s, dk, bi, h2),
        head_seq(inp, wvb, d, s, dk, bi, h2),
        dk,
        s,
        inv_sqrt_byte(dk),
        i,
        j,
    )
}

/// The whole output, row-major over (batch, position, model column).
pub open spec fn att_output(b: int, s: int, d: int, nh: int, seed: u64) -> Seq<u8> {
    let dk = d / nh;
    let inp = gen_bytes(seed, b * (s * d));
    let wqb = gen_bytes(spec_seed_add(seed, 1), d * d);
    let wkb = gen_bytes(spec_seed_add(seed, 2), d * d);
    let wvb = gen_bytes(spec_seed_add(seed, 3), d * d);
    Seq::new(
        (b * (s * d)) as nat,
        |t: int|
            {
                let bi = t / (s * d);
                let r1 = t % (s * d);
                let i = r1 / d;
                let col = r1 % d;
                let h2 = col / dk;
                let j = col % dk;
                att_head_out(inp, wqb, wkb, wvb, d, s, dk, bi, h2, i, j)
            },
    )
}

/// When the attention can run: a positive head count dividing the model
/// dimension, sizes that fit the machine, and an operation count within
/// 64 bits whenever it is not zero.
pub open spec fn att_ok(b: int, s: int, d: int, nh: int) -> bool {
    &&& nh >= 1
    &&& d % nh == 0
    &&& s * d <= usize::MAX
    &&& b * (s * d) <= usize::MAX
    &&& d * d <= usize::MAX
    &&& (b >= 1 && s >= 1 && d >= 1 ==> 3 * b * s * d * d + 2 * b * nh * s * s * (d / nh) + b
        * s * d * d <= u64::MAX)
}

/// Execute multi-head attention for the shape and seed. On success the
/// first component is the hex content hash of the output bytes and the
/// second is the exact operation count: three projections, the two
/// attention products, and the output projection. Fails with a
/// computation error exactly when the head count is zero or does not
/// divide the model dimension, or when a size or the count overflows the
/// machine.
pub fn execute_attention(
    batch_size: usize,
    seq_length: usize,
    d_model: usize,
    num_heads: usize,
    seed: u64,
) -> (r: Result<(String, u64), DemleError>)
    ensures
        r is Ok <==> att_ok(
            batch_size as int,
            seq_length as int,
            d_model as int,
            num_heads as int,
        ),
        r is Ok ==> r->Ok_0.0@ == sha3_hex_of(
            att_output(
                batch_size as int,
                seq_length as int,
                d_model as int,
                num_heads as int,
                seed,
            ),
        ),
        r is Ok ==> r->Ok_0.0@.len() == 64,
        r is Err ==> r->Err_0 is ComputationError,
        r is Ok ==> r->Ok_0.1 == 3 * (batch_size as int) * (seq_length as int) * (d_model as int)
            * (d_model as int) + 2 * (batch_size as int) * (num_heads as int) * (
        seq_length as int) * (seq_length as int) * ((d_model as int) / (num_heads as int)) + (
        batch_size as int) * (seq_length as int) * (d_model as int) * (d_model as int),
{
    let b = batch_size;
    let s = seq_length;
    let d = d_model;
    let nh = num_heads;
    if nh == 0 {
        return Err(DemleError::ComputationError(String::from_str("head count is zero")));
    }
    if d % nh != 0 {
        return Err(
            DemleError::ComputationError(
                String::from_str("model dimension is not a multiple of the head count"),
            ),
        );
    }
    let dk: usize = d / nh;
    proof {
        vstd::arithmetic::div_mod::lemma_fundamental_div_mod(d as int, nh as int);
    }
    let sd: usize = match s.checked_mul(d) {
        Some(v) => v,
        None => {
            return Err(DemleError::ComputationError(String::from_str("shape overflows")));
        },
    };
    let bsd: usize = match b.checked_mul(sd) {
        Some(v) => v,
        None => {
            return Err(DemleError::ComputationError(String::from_str("shape overflows")));
        },
    };
    let dd: usize = match d.checked_mul(d) {
        Some(v) => v,
        None => {
            return Err(DemleError::ComputationError(String::from_str("shape overflows")));
        },
    };
    let ghost total_flops_spec = 3 * (b as int) * (s as int) * (d as int) * (d as int) + 2 * (
    b as int) * (nh as int) * (s as int) * (s as int) * (dk as int) + (b as int) * (s as int) * (
    d as int) * (d as int);
    let flops: u64 = if b == 0 || s == 0 || d == 0 {
        proof {
            assert(3 * (b as int) * (s as int) * (d as int) * (d as int) == 0 && 2 * (b as int)
                * (nh as int) * (s as int) * (s as int) * (dk as int) == 0 && (b as int) * (
            s as int) * (d as int) * (d as int) == 0) by (nonlinear_arith)
                requires
                    b == 0 || s == 0 || d == 0,
                    d == 0 ==> dk == 0,
                    0 <= b && 0 <= s && 0 <= d && 0 <= dk && 0 <= nh,
            ;
        }
        0
    } else {
        proof {
            assert(dk >= 1) by (nonlinear_arith)
                requires
                    d as int == (nh as int) * (dk as int),
                    d >= 1,
                    nh >= 1,
                    0 <= dk,
            ;
            assert(3 * (b as int) * (s as int) * (d as int) * (d as int) >= 0 && 2 * (b as int)
                * (nh as int) * (s as int) * (s as int) * (dk as int) >= 0 && (b as int) * (
            s as int) * (d as int) * (d as int) >= 0) by (nonlinear_arith)
                requires
                    0 <= b && 0 <= s && 0 <= d && 0 <= dk && 0 <= nh,
            ;
        }
        let f1: Vec<u64> = vec![3, b as u64, s as u64, d as u64, d as u64];
        let f2: Vec<u64> = vec![2, b as u64, nh as u64, s as u64, s as u64, dk as u64];
        let f3: Vec<u64> = vec![b as u64, s as u64, d as u64, d as u64];
        proof {
            reveal_with_fuel(prod_u64, 9);
        }
        let p1 = match checked_prod_u64(&f1) {
            Some(v) => v,
            None => {
                proof {
                    if total_flops_spec <= u64::MAX {
                        crate::arith::lemma_prod_u64_ok_from_bound(f1@, 5);
                    }
                }
                return Err(
                    DemleError::ComputationError(
                        String::from_str("operation count overflows"),
                    ),
                );
            },
        };
        let p2 = match checked_prod_u64(&f2) {
            Some(v) => v,
            None => {
                proof {
                    if total_flops_spec <= u64::MAX {
                        crate::arith::lemma_prod_u64_ok_from_bound(f2@, 6);
                    }
                }
                return Err(
                    DemleError::ComputationError(
                        String::from_str("operation count overflows"),
                    ),
                );
            },
        };
        let p3 = match checked_prod_u64(&f3) {
            Some(v) => v,
            None => {
                proof {
                    if total_flops_spec <= u64::MAX {
                        crate::arith::lemma_prod_u64_ok_from_bound(f3@, 4);
                    }
                }
                return Err(
                    DemleError::ComputationError(
                        String::from_str("operation count overflows"),
                    ),
                );
            },
        };
        let t1 = match p1.checked_add(p2) {
            Some(v) => v,
            None => {
                return Err(
                    DemleError::ComputationError(
                        String::from_str("operation count overflows"),
                    ),
                );
            },
        };
        match t1.checked_add(p3) {
            Some(v) => v,
            None => {
                return Err(
                    DemleError::ComputationError(
                        String::from_str("operation count overflows"),
                    ),
                );
            },
        }
    };
    let x = generate_elements(bsd, seed);
    let wq = generate_elements(dd, seed_add(seed, 1));
    let wk = generate_elements(dd, seed_add(seed, 2));
    let wv = generate_elements(dd, seed_add(seed, 3));
    let ghost xb = gen_bytes(seed, bsd as int);
    let ghost wqb = gen_bytes(spec_seed_add(seed, 1), dd as int);
    let ghost wkb = gen_bytes(spec_seed_add(seed, 2), dd as int);
    let ghost wvb = gen_bytes(spec_seed_add(seed, 3), dd as int);
    proof {
        assert(bits_of(x@) =~= xb);
        assert(bits_of(wq@) =~= wqb);
        assert(bits_of(wk@) =~= wkb);
        assert(bits_of(wv@) =~= wvb);
    }
    let scale = inv_sqrt_fp8(dk);
    let mut all_heads: Vec<Vec<FP8>> = Vec::new();
    let mut bi: usize = 0;
    while bi < b
        invariant
            bi <= b,
            d == (nh as int) * (dk as int),
            nh >= 1,
            sd == (s as int) * (d as int),
            bsd == (b as int) * (sd as int),
            dd == (d as int) * (d as int),
            x@.len() == bsd,
            wq@.len() == dd,
            wk@.len() == dd,
            wv@.len() == dd,
            bits_of(x@) == xb,
            bits_of(wq@) == wqb,
            bits_of(wk@) == wkb,
            bits_of(wv@) == wvb,
            scale.spec_bits() == inv_sqrt_byte(dk as int),
            all_heads@.len() == (bi as int) * (nh as int),
            forall|bh: int|
                0 <= bh < all_heads@.len() ==> (#[trigger] all_heads@[bh]@).len() == (s as int)
                    * (dk as int),
            forall|bh: int, p: int|
                0 <= bh < all_heads@.len() && 0 <= p < (s as int) * (dk as int)
                    ==> (#[trigger] all_heads@[bh]@[p]).spec_bits() == att_head_out(
                    xb,
                    wqb,
                    wkb,
                    wvb,
                    d as int,
                    s as int,
                    dk as int,
                    bh / (nh as int),
                    bh % (nh as int),
                    p / (dk as int),
                    p % (dk as int),
                ),
        decreases b - bi,
    {
        let mut h2: usize = 0;
        while h2 < nh
            invariant
                bi < b,
                h2 <= nh,
                d == (nh as int) * (dk as int),
                nh >= 1,
                    sd == (s as int) * (d as int),
                bsd == (b as int) * (sd as int),
                dd == (d as int) * (d as int),
                x@.len() == bsd,
                wq@.len() == dd,
                wk@.len() == dd,
                wv@.len() == dd,
                bits_of(x@) == xb,
                bits_of(wq@) == wqb,
                bits_of(wk@) == wkb,
                bits_of(wv@) == wvb,
                scale.spec_bits() == inv_sqrt_byte(dk as int),
                all_heads@.len() == (bi as int) * (nh as int) + h2,
                forall|bh: int|
                    0 <= bh < all_heads@.len() ==> (#[trigger] all_heads@[bh]@).len() == (
                    s as int) * (dk as int),
                forall|bh: int, p: int|
                    0 <= bh < all_heads@.len() && 0 <= p < (s as int) * (dk as int)
                        ==> (#[trigger] all_heads@[bh]@[p]).spec_bits() == att_head_out(
                        xb,
                        wqb,
                        wkb,
                        wvb,
                        d as int,
                        s as int,
                        dk as int,
                        bh / (nh as int),
                        bh % (nh as int),
                        p / (dk as int),
                        p % (dk as int),
                    ),
            decreases nh - h2,
        {
            let qh = project_head(&x, &wq, b, s, d, nh, dk, bi, h2);
            let kh = project_head(&x, &wk, b, s, d, nh, dk, bi, h2);
            let vh = project_head(&x, &wv, b, s, d, nh, dk, bi, h2);
            proof {
                assert(bits_of(qh@) =~= head_seq(xb, wqb, d as int, s as int, dk as int, bi as int, h2 as int));
                assert(bits_of(kh@) =~= head_seq(xb, wkb, d as int, s as int, dk as int, bi as int, h2 as int));
                assert(bits_of(vh@) =~= head_seq(xb, wvb, d as int, s as int, dk as int, bi as int, h2 as int));
                assert((s as int) * (dk as int) <= (s as int) * (d as int)) by (nonlinear_arith)
                    requires
                        d == (nh as int) * (dk as int),
                        nh >= 1,
                        0 <= dk,
                        0 <= s,
                ;
            }
            let ho = head_attention(&qh, &kh, &vh, s, dk, scale);
            all_heads.push(ho);
            proof {
                let bh_new = (bi as int) * (nh as int) + (h2 as int);
                vstd::arithmetic::div_mod::lemma_div_multiples_vanish_fancy(
                    bi as int,
                    h2 as int,
                    nh as int,
                );
                vstd::arithmetic::div_mod::lemma_mod_multiples_vanish(
                    bi as int,
                    h2 as int,
                    nh as int,
                );
                vstd::arithmetic::mul::lemma_mul_is_commutative(bi as int, nh as int);
                vstd::arithmetic::div_mod::lemma_small_mod(h2 as nat, nh as nat);
                assert(bh_new / (nh as int) == bi as int);
                assert(bh_new % (nh as int) == h2 as int);
            }
            h2 = h2 + 1;
        }
        proof {
            assert((bi as int) * (nh as int) + (nh as int) == ((bi as int) + 1) * (nh as int))
                by (nonlinear_arith);
        }
        bi = bi + 1;
    }
    // assemble the output, row-major over (batch, position, column)
    let nheads: usize = all_heads.len();
    let mut out: Vec<FP8> = Vec::new();
    let mut t: usize = 0;
    while t < bsd
        invariant
            t <= bsd,
            nheads == (b as int) * (nh as int),
            nheads <= usize::MAX,
            d == (nh as int) * (dk as int),
            nh >= 1,
            sd == (s as int) * (d as int),
            bsd == (b as int) * (sd as int),
            all_heads@.len() == (b as int) * (nh as int),
            forall|bh: int|
                0 <= bh < all_heads@.len() ==> (#[trigger] all_heads@[bh]@).len() == (s as int)
                    * (dk as int),
            forall|bh: int, p: int|
                0 <= bh < all_heads@.len() && 0 <= p < (s as int) * (dk as int)
                    ==> (#[trigger] all_heads@[bh]@[p]).spec_bits() == att_head_out(
                    xb,
                    wqb,
                    wkb,
                    wvb,
                    d as int,
                    s as int,
                    dk as int,
                    bh / (nh as int),
                    bh % (nh as int),
                    p / (dk as int),
                    p % (dk as int),
                ),
            out@.len() == t,
            forall|u: int|
                0 <= u < t ==> (#[trigger] out@[u]).spec_bits() == att_head_out(
                    xb,
                    wqb,
                    wkb,
                    wvb,
                    d as int,
                    s as int,
                    dk as int,
                    u / (sd as int),
                    ((u % (sd as int)) % (d as int)) / (dk as int),
                    (u % (sd as int)) / (d as int),
                    ((u % (sd as int)) % (d as int)) % (dk as int),
                ),
        decreases bsd - t,
    {
        proof {
            assert(sd >= 1 && d >= 1 && s >= 1 && b >= 1 && dk >= 1) by (nonlinear_arith)
                requires
                    bsd == (b as int) * (sd as int),
                    sd == (s as int) * (d as int),
                    d == (nh as int) * (dk as int),
                    (t as int) < bsd,
                    0 <= t as int,
                    0 <= b && 0 <= s && 0 <= d && 0 <= dk && 0 <= nh,
            ;
        }
        let bi2: usize = t / sd;
        let r1: usize = t % sd;
        let i: usize = r1 / d;
        let col: usize = r1 % d;
        let h2: usize = col / dk;
        let j: usize = col % dk;
        proof {
            crate::arith::lemma_div_below(t as int, sd as int, b as int);
            crate::arith::lemma_div_below(r1 as int, d as int, s as int);
            crate::arith::lemma_div_below(col as int, dk as int, nh as int);
            assert((bi2 as int) * (nh as int) + (h2 as int) < (b as int) * (nh as int))
                by (nonlinear_arith)
                requires
                    0 <= (bi2 as int) < (b as int),
                    0 <= (h2 as int) < (nh as int),
            ;
            assert((i as int) * (dk as int) + (j as int) < (s as int) * (dk as int))
                by (nonlinear_arith)
                requires
                    0 <= (i as int) < (s as int),
                    0 <= (j as int) < (dk as int),
            ;
            let bh = (bi2 as int) * (nh as int) + (h2 as int);
            let p = (i as int) * (dk as int) + (j as int);
            assert((s as int) * (dk as int) <= sd as int) by (nonlinear_arith)
                requires
                    sd == (s as int) * (d as int),
                    d == (nh as int) * (dk as int),
                    nh >= 1,
                    0 <= dk,
                    0 <= s,
            ;
            vstd::arithmetic::div_mod::lemma_div_multiples_vanish_fancy(
                bi2 as int,
                h2 as int,
                nh as int,
            );
            vstd::arithmetic::div_mod::lemma_mod_multiples_vanish(
                bi2 as int,
                h2 as int,
                nh as int,
            );
            vstd::arithmetic::mul::lemma_mul_is_commutative(bi2 as int, nh as int);
            vstd::arithmetic::div_mod::lemma_small_mod(h2 as nat, nh as nat);
            vstd::arithmetic::div_mod::lemma_div_multiples_vanish_fancy(
                i as int,
                j as int,
                dk as int,
            );
            vstd::arithmetic::div_mod::lemma_mod_multiples_vanish(i as int, j as int, dk as int);
            vstd::arithmetic::mul::lemma_mul_is_commutative(i as int, dk as int);
            vstd::arithmetic::div_mod::lemma_small_mod(j as nat, dk as nat);
        }
        let v = all_heads[bi2 * nh + h2][i * dk + j];
        out.push(v);
        t = t + 1;
    }
    let bytes = tensor_bytes(&out);
    let result_hash = sha3_hex(bytes.as_slice());
    proof {
        assert(bytes@ =~= att_output(b as int, s as int, d as int, nh as int, seed));
    }
    Ok((result_hash, flops))
}

/// Project one head: for each position and head column, the dot product
/// of the position's input row with the weight column at the head's
/// offset, accumulated in minifloat arithmetic.
fn project_head(
    x: &Vec<FP8>,
    wm: &Vec<FP8>,
    b: usize,
    s: usize,
    d: usize,
    nh: usize,
    dk: usize,
    bi: usize,
    h2: usize,
) -> (r: Vec<FP8>)
    requires
        d == (nh as int) * (dk as int),
        x@.len() == (b as int) * ((s as int) * (d as int)),
        wm@.len() == (d as int) * (d as int),
        bi < b,
        h2 < nh,
        (s as int) * (d as int) <= usize::MAX,
        (b as int) * ((s as int) * (d as int)) <= usize::MAX,
        (d as int) * (d as int) <= usize::MAX,
    ensures
        r@.len() == (s as int) * (dk as int),
        forall|p: int|
            0 <= p < r@.len() ==> (#[trigger] r@[p]).spec_bits() == proj_cell(
                bits_of(x@),
                bits_of(wm@),
                d as int,
                s as int,
                bi as int,
                (h2 as int) * (dk as int) + p % (dk as int),
                p / (dk as int),
                d as int,
            ),
{
    let ghost xb = bits_of(x@);
    let ghost wb = bits_of(wm@);
    proof {
        assert((s as int) * (dk as int) <= (s as int) * (d as int)) by (nonlinear_arith)
            requires
                d == (nh as int) * (dk as int),
                nh >= 1,
                0 <= dk,
                0 <= s,
        ;
    }
    let sdk: usize = s * dk;
    let mut r: Vec<FP8> = Vec::new();
    let mut p: usize = 0;
    while p < sdk
        invariant
            p <= sdk,
            sdk == (s as int) * (dk as int),
            d == (nh as int) * (dk as int),
            x@.len() == (b as int) * ((s as int) * (d as int)),
            wm@.len() == (d as int) * (d as int),
            bi < b,
            h2 < nh,
            (s as int) * (d as int) <= usize::MAX,
            (b as int) * ((s as int) * (d as int)) <= usize::MAX,
            (d as int) * (d as int) <= usize::MAX,
            xb == bits_of(x@),
            wb == bits_of(wm@),
            r@.len() == p,
            forall|q: int|
                0 <= q < p ==> (#[trigger] r@[q]).spec_bits() == proj_cell(
                    xb,
                    wb,
                    d as int,
                    s as int,
                    bi as int,
                    (h2 as int) * (dk as int) + q % (dk as int),
                    q / (dk as int),
                    d as int,
                ),
        decreases sdk - p,
    {
        proof {
            assert(dk >= 1 && s >= 1) by (nonlinear_arith)
                requires
                    sdk == (s as int) * (dk as int),
                    (p as int) < sdk,
                    0 <= p as int,
                    0 <= s as int,
                    0 <= dk as int,
            ;
        }
        let i: usize = p / dk;
        let j: usize = p % dk;
        proof {
            crate::arith::lemma_div_below(p as int, dk as int, s as int);
            assert((h2 as int) * (dk as int) + (j as int) < d) by (nonlinear_arith)
                requires
                    0 <= (h2 as int) < (nh as int),
                    0 <= (j as int) < (dk as int),
                    d == (nh as int) * (dk as int),
            ;
        }
        let col: usize = h2 * dk + j;
        let mut sum = FP8::zero();
        let mut l: usize = 0;
        while l < d
            invariant
                l <= d,
                i < s,
                col < d,
                d == (nh as int) * (dk as int),
                x@.len() == (b as int) * ((s as int) * (d as int)),
                wm@.len() == (d as int) * (d as int),
                bi < b,
                (s as int) * (d as int) <= usize::MAX,
                (b as int) * ((s as int) * (d as int)) <= usize::MAX,
                (d as int) * (d as int) <= usize::MAX,
                xb == bits_of(x@),
                wb == bits_of(wm@),
                sum.spec_bits() == proj_cell(
                    xb,
                    wb,
                    d as int,
                    s as int,
                    bi as int,
                    col as int,
                    i as int,
                    l as int,
                ),
            decreases d - l,
        {
            proof {
                assert((bi as int) * ((s as int) * (d as int)) + (i as int) * (d as int) + (
                l as int) < (b as int) * ((s as int) * (d as int))) by (nonlinear_arith)
                    requires
                        0 <= (bi as int) < (b as int),
                        0 <= (i as int) < (s as int),
                        0 <= (l as int) < (d as int),
                ;
                assert((l as int) * (d as int) + (col as int) < (d as int) * (d as int))
                    by (nonlinear_arith)
                    requires
                        0 <= (l as int) < (d as int),
                        0 <= (col as int) < (d as int),
                ;
            }
            let xv = x[bi * (s * d) + i * d + l];
            let wv = wm[l * d + col];
            let prod = xv.mul(wv);
            sum = sum.add(prod);
            l = l + 1;
        }
        r.push(sum);
        p = p + 1;
    }
    r
}

/// The scale factor 1/sqrt(dk), truncated to the format.
fn inv_sqrt_fp8(dk: usize) -> (r: FP8)
    ensures
        r.spec_bits() == inv_sqrt_byte(dk as int),
{
    let mut cnt: u64 = 0;
    let mut j: usize = 0;
    while j < 120
        invariant
            j <= 120,
            cnt == inv_sqrt_count(dk as int, j as int),
            cnt <= j,
        decreases 120 - j,
    {
        let f: u64 = crate::arith::pow2_u64((j / 8) as u32);
        proof {
            vstd::arithmetic::power2::lemma2_to64();
            if j / 8 < 14 {
                vstd::arithmetic::power2::lemma_pow2_strictly_increases((j / 8) as nat, 14);
            }
            vstd::arithmetic::mul::lemma_mul_upper_bound(
                (8 + (j % 8)) as int,
                15,
                f as int,
                16384,
            );
        }
        let bd: u64 = ((8 + (j % 8)) as u64) * f;
        proof {
            assert(bd == bnd_q9(j as int));
            assert((bd as int) * (bd as int) <= 245760 * 245760) by (nonlinear_arith)
                requires
                    0 <= bd as int <= 245760,
            ;
            assert((bd as int) * (bd as int) * (dk as int) <= 245760 * 245760 * (dk as int)
                <= 245760 * 245760 * 0xffffffffffffffff) by (nonlinear_arith)
                requires
                    0 <= (bd as int) * (bd as int) <= 245760 * 245760,
                    0 <= dk as int <= 0xffffffffffffffff,
            ;
        }
        let lhs: u128 = (bd as u128) * (bd as u128) * (dk as u128);
        if lhs <= 262144 {
            cnt = cnt + 1;
        }
        j = j + 1;
    }
    if cnt == 0 {
        FP8::from_bits(0)
    } else {
        FP8::from_bits(7 + (cnt as u8))
    }
}

/// Attention within one projected head: scaled dot-product scores per
/// query position, softmax weights, and the weighted value rows folded
/// in minifloat arithmetic, key position ascending.
fn head_attention(qh: &Vec<FP8>, kh: &Vec<FP8>, vh: &Vec<FP8>, s: usize, dk: usize, scale: FP8) -> (r:
    Vec<FP8>)
    requires
        qh@.len() == (s as int) * (dk as int),
        kh@.len() == (s as int) * (dk as int),
        vh@.len() == (s as int) * (dk as int),
        (s as int) * (dk as int) <= usize::MAX,
    ensures
        r@.len() == (s as int) * (dk as int),
        forall|p: int|
            0 <= p < r@.len() ==> (#[trigger] r@[p]).spec_bits() == head_out_byte(
                bits_of(qh@),
                bits_of(kh@),
                bits_of(vh@),
                dk as int,
                s as int,
                scale.spec_bits(),
                p / (dk as int),
                p % (dk as int),
            ),
{
    let ghost qb = bits_of(qh@);
    let ghost kb = bits_of(kh@);
    let ghost vb = bits_of(vh@);
    let sdk: usize = s * dk;
    let mut r: Vec<FP8> = Vec::new();
    let mut i: usize = 0;
    while i < s
        invariant
            i <= s,
            sdk == (s as int) * (dk as int),
            qh@.len() == sdk,
            kh@.len() == sdk,
            vh@.len() == sdk,
            qb == bits_of(qh@),
            kb == bits_of(kh@),
            vb == bits_of(vh@),
            r@.len() == (i as int) * (dk as int),
            r@.len() <= sdk,
            forall|p: int|
                0 <= p < r@.len() ==> (#[trigger] r@[p]).spec_bits() == head_out_byte(
                    qb,
                    kb,
                    vb,
                    dk as int,
                    s as int,
                    scale.spec_bits(),
                    p / (dk as int),
                    p % (dk as int),
                ),
        decreases s - i,
    {
        // scores for query position i
        let mut scores: Vec<FP8> = Vec::new();
        let mut j2: usize = 0;
        while j2 < s
            invariant
                j2 <= s,
                i < s,
                sdk == (s as int) * (dk as int),
                qh@.len() == sdk,
                kh@.len() == sdk,
                qb == bits_of(qh@),
                kb == bits_of(kh@),
                scores@.len() == j2,
                forall|q: int|
                    0 <= q < j2 ==> (#[trigger] scores@[q]).spec_bits() == enc_q(
                        val_q9(score_acc(qb, kb, dk as int, i as int, q, dk as int)) * val_q9(
                            scale.spec_bits(),
                        ),
                        18,
                    ),
            decreases s - j2,
        {
            let mut acc = FP8::zero();
            let mut l: usize = 0;
            while l < dk
                invariant
                    l <= dk,
                    i < s,
                    j2 < s,
                    sdk == (s as int) * (dk as int),
                    qh@.len() == sdk,
                    kh@.len() == sdk,
                    qb == bits_of(qh@),
                    kb == bits_of(kh@),
                    acc.spec_bits() == score_acc(qb, kb, dk as int, i as int, j2 as int, l as int),
                decreases dk - l,
            {
                proof {
                    assert((i as int) * (dk as int) + (l as int) < (s as int) * (dk as int)
                        && (j2 as int) * (dk as int) + (l as int) < (s as int) * (dk as int))
                        by (nonlinear_arith)
                        requires
                            0 <= (i as int) < (s as int),
                            0 <= (j2 as int) < (s as int),
                            0 <= (l as int) < (dk as int),
                    ;
                }
                let prod = qh[i * dk + l].mul(kh[j2 * dk + l]);
                acc = acc.add(prod);
                l = l + 1;
            }
            let sc = acc.mul(scale);
            scores.push(sc);
            j2 = j2 + 1;
        }
        let ghost srow = score_row(qb, kb, dk as int, s as int, scale.spec_bits(), i as int);
        proof {
            assert(bits_of(scores@) =~= srow);
        }
        let weights = softmax(scores.as_slice());
        // weighted value rows
        let mut j: usize = 0;
        while j < dk
            invariant
                j <= dk,
                i < s,
                    sdk == (s as int) * (dk as int),
                vh@.len() == sdk,
                vb == bits_of(vh@),
                weights@.len() == s,
                forall|q: int| 0 <= q < s ==> weights@[q] == softmax_weight(srow, q),
                forall|q: int| 0 <= q < s ==> weights@[q] <= 0x40000000,
                srow == score_row(qb, kb, dk as int, s as int, scale.spec_bits(), i as int),
                qb == bits_of(qh@),
                kb == bits_of(kh@),
                qh@.len() == sdk,
                kh@.len() == sdk,
                r@.len() == (i as int) * (dk as int) + j,
                r@.len() <= sdk,
                forall|p: int|
                    0 <= p < r@.len() ==> (#[trigger] r@[p]).spec_bits() == head_out_byte(
                        qb,
                        kb,
                        vb,
                        dk as int,
                        s as int,
                        scale.spec_bits(),
                        p / (dk as int),
                        p % (dk as int),
                    ),
            decreases dk - j,
        {
            let mut acc = FP8::zero();
            let mut k2: usize = 0;
            while k2 < s
                invariant
                    k2 <= s,
                    j < dk,
                    i < s,
                    sdk == (s as int) * (dk as int),
                    vh@.len() == sdk,
                    vb == bits_of(vh@),
                    weights@.len() == s,
                    forall|q: int| 0 <= q < s ==> weights@[q] == softmax_weight(srow, q),
                    forall|q: int| 0 <= q < s ==> weights@[q] <= 0x40000000,
                    acc.spec_bits() == att_chain(srow, vb, dk as int, j as int, k2 as int),
                decreases s - k2,
            {
                proof {
                    assert((k2 as int) * (dk as int) + (j as int) < (s as int) * (dk as int))
                        by (nonlinear_arith)
                        requires
                            0 <= (k2 as int) < (s as int),
                            0 <= (j as int) < (dk as int),
                    ;
                }
                let w = weights[k2];
                let v = vh[k2 * dk + j].decode_q9();
                proof {
                    assert(-0x1000000000000 <= (w as int) * (v as int) <= 0x1000000000000)
                        by (nonlinear_arith)
                        requires
                            0 <= w as int <= 0x40000000,
                            -245760 <= v as int <= 245760,
                    ;
                }
                let term = fp8_enc((w as i64) * v, 39);
                acc = acc.add(term);
                k2 = k2 + 1;
            }
            proof {
                assert((i as int) * (dk as int) + (j as int) + 1 <= (s as int) * (dk as int))
                    by (nonlinear_arith)
                    requires
                        0 <= (i as int) < (s as int),
                        0 <= (j as int) < (dk as int),
                ;
            }
            r.push(acc);
            proof {
                assert(((i as int) * (dk as int) + (j as int)) / (dk as int) == i as int
                    && ((i as int) * (dk as int) + (j as int)) % (dk as int) == j as int) by {
                    vstd::arithmetic::div_mod::lemma_div_multiples_vanish_fancy(
                        i as int,
                        j as int,
                        dk as int,
                    );
                    vstd::arithmetic::div_mod::lemma_mod_multiples_vanish(
                        i as int,
                        j as int,
                        dk as int,
                    );
                    vstd::arithmetic::mul::lemma_mul_is_commutative(i as int, dk as int);
                    vstd::arithmetic::div_mod::lemma_small_mod(j as nat, dk as nat);
                }
            }
            j = j + 1;
        }
        proof {
            assert((i as int) * (dk as int) + (dk as int) == ((i as int) + 1) * (dk as int))
                by (nonlinear_arith);
            assert(((i as int) + 1) * (dk as int) <= (s as int) * (dk as int))
                by (nonlinear_arith)
                requires
                    (i as int) + 1 <= s as int,
                    0 <= dk as int,
            ;
        }
        i = i + 1;
    }
    r
}

} // verus!
