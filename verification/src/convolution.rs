//! 2-D convolution over minifloat arithmetic with implicit zero padding.
//! The output spatial size is (h + 2*ph - kh) / sh + 1 by
//! (w + 2*pw - kw) / sw + 1; contributions whose input coordinate falls
//! outside the image are zero and are skipped, leaving the accumulator
//! unchanged. The kernel tensor uses the input's channel count, and the
//! accumulation order is the flattened (channel, kernel row, kernel
//! column) index ascending.

use vstd::prelude::*;
use crate::arith::{prod_u64, checked_prod_u64};
use crate::errors::DemleError;
use crate::fp8::{FP8, enc_q, val_q9};
use crate::hashing::{sha3_hex, sha3_hex_of};
use crate::tensor::{
    generate_elements,
    gen_bytes,
    gen_byte,
    tensor_bytes,
    seed_add,
    spec_seed_add,
};

verus! {

/// The accumulator for output cell (bi, oci, oy, ox) after u steps of the
/// flattened (channel, kernel row, kernel column) walk.
pub open spec fn conv_acc(
    inp: Seq<u8>,
    ker: Seq<u8>,
    c: int,
    h: int,
    w: int,
    kh: int,
    kw: int,
    sh: int,
    sw: int,
    ph: int,
    pw: int,
    bi: int,
    oci: int,
    oy: int,
    ox: int,
    u: int,
) -> u8
    decreases u,
{
    if u <= 0 {
        0
    } else {
        let prev = conv_acc(inp, ker, c, h, w, kh, kw, sh, sw, ph, pw, bi, oci, oy, ox, u - 1);
        let v = u - 1;
        let ic = v / (kh * kw);
        let rem = v % (kh * kw);
        let ky = rem / kw;
        let kx = rem % kw;
        let iy = oy * sh + ky;
        let ix = ox * sw + kx;
        if iy >= ph && ix >= pw && iy - ph < h && ix - pw < w {
            let in_idx = bi * (c * (h * w)) + ic * (h * w) + (iy - ph) * w + (ix - pw);
            let k_idx = oci * (c * (kh * kw)) + ic * (kh * kw) + ky * kw + kx;
            let prod = enc_q(val_q9(inp[in_idx]) * val_q9(ker[k_idx]), 18);
            enc_q(val_q9(prev) + val_q9(prod), 9)
        } else {
            prev
        }
    }
}

/// Output spatial height: (h + 2*ph - kh) / sh + 1.
pub open spec fn conv_odim(h: int, kh: int, sh: int, ph: int) -> int {
    (h + 2 * ph - kh) / sh + 1
}

/// The whole output, row-major over (batch, out channel, row, column).
pub open spec fn conv_output(
    input_shape: (usize, usize, usize, usize),
    kernel_shape: (usize, usize, usize, usize),
    stride: (usize, usize),
    padding: (usize, usize),
    seed: u64,
) -> Seq<u8> {
    let b = input_shape.0 as int;
    let c = input_shape.1 as int;
    let h = input_shape.2 as int;
    let w = input_shape.3 as int;
    let oc = kernel_shape.0 as int;
    let kh = kernel_shape.2 as int;
    let kw = kernel_shape.3 as int;
    let sh = stride.0 as int;
    let sw = stride.1 as int;
    let ph = padding.0 as int;
    let pw = padding.1 as int;
    let oh = conv_odim(h, kh, sh, ph);
    let ow = conv_odim(w, kw, sw, pw);
    let inp = gen_bytes(seed, b * (c * (h * w)));
    let ker = gen_bytes(spec_seed_add(seed, 1), oc * (c * (kh * kw)));
    Seq::new(
        (b * (oc * (oh * ow))) as nat,
        |t: int|
            {
                let bi = t / (oc * (oh * ow));
                let r1 = t % (oc * (oh * ow));
                let oci = r1 / (oh * ow);
                let r2 = r1 % (oh * ow);
                let oy = r2 / ow;
                let ox = r2 % ow;
                conv_acc(
                    inp,
                    ker,
                    c,
                    h,
                    w,
                    kh,
                    kw,
                    sh,
                    sw,
                    ph,
                    pw,
                    bi,
                    oci,
                    oy,
                    ox,
                    c * (kh * kw),
                )
            },
    )
}

/// Malformed parameters: a zero stride, or a kernel that does not fit the
/// padded input.
pub open spec fn conv_invalid(
    h: int,
    w: int,
    kh: int,
    kw: int,
    sh: int,
    sw: int,
    ph: int,
    pw: int,
) -> bool {
    sh == 0 || sw == 0 || kh > h + 2 * ph || kw > w + 2 * pw
}

/// When the convolution can run: well-formed parameters, sizes that fit
/// the machine, and an operation count within 64 bits whenever it is not
/// zero.
pub open spec fn conv_ok(
    b: int,
    c: int,
    h: int,
    w: int,
    oc: int,
    kh: int,
    kw: int,
    sh: int,
    sw: int,
    ph: int,
    pw: int,
) -> bool {
    let oh = conv_odim(h, kh, sh, ph);
    let ow = conv_odim(w, kw, sw, pw);
    &&& !conv_invalid(h, w, kh, kw, sh, sw, ph, pw)
    &&& h + 2 * ph <= usize::MAX
    &&& w + 2 * pw <= usize::MAX
    &&& oh <= usize::MAX
    &&& ow <= usize::MAX
    &&& h * w <= usize::MAX
    &&& c * (h * w) <= usize::MAX
    &&& b * (c * (h * w)) <= usize::MAX
    &&& kh * kw <= usize::MAX
    &&& c * (kh * kw) <= usize::MAX
    &&& oc * (c * (kh * kw)) <= usize::MAX
    &&& oh * ow <= usize::MAX
    &&& oc * (oh * ow) <= usize::MAX
    &&& b * (oc * (oh * ow)) <= usize::MAX
    &&& (b >= 1 && oc >= 1 && c >= 1 && kh >= 1 && kw >= 1 ==> 2 * b * oc * c * kh * kw * oh
        * ow <= u64::MAX)
}

/// Execute the convolution for the shapes, strides, padding and seed. On
/// success the first component is the hex content hash of the output
/// bytes and the second is the exact operation count,
/// 2 * b * oc * c * kh * kw * oh * ow. Fails with a validation error
/// exactly on malformed parameters (zero stride or a kernel that does not
/// fit), and with a computation error when a size or the count overflows
/// the machine.
pub fn execute_conv2d(
    input_shape: (usize, usize, usize, usize),
    kernel_shape: (usize, usize, usize, usize),
    stride: (usize, usize),
    padding: (usize, usize),
    seed: u64,
) -> (r: Result<(String, u64), DemleError>)
    ensures
        r is Ok <==> conv_ok(
            input_shape.0 as int,
            input_shape.1 as int,
            input_shape.2 as int,
            input_shape.3 as int,
            kernel_shape.0 as int,
            kernel_shape.2 as int,
            kernel_shape.3 as int,
            stride.0 as int,
            stride.1 as int,
            padding.0 as int,
            padding.1 as int,
        ),
        r is Err ==> (r->Err_0 is ValidationError <==> conv_invalid(
            input_shape.2 as int,
            input_shape.3 as int,
            kernel_shape.2 as int,
            kernel_shape.3 as int,
            stride.0 as int,
            stride.1 as int,
            padding.0 as int,
            padding.1 as int,
        )),
        r is Ok ==> r->Ok_0.0@ == sha3_hex_of(
            conv_output(input_shape, kernel_shape, stride, padding, seed),
        ),
        r is Ok ==> r->Ok_0.0@.len() == 64,
        r is Err ==> r->Err_0 is ValidationError || r->Err_0 is ComputationError,
        r is Ok ==> r->Ok_0.1 == 2 * (input_shape.0 as int) * (kernel_shape.0 as int) * (
        input_shape.1 as int) * (kernel_shape.2 as int) * (kernel_shape.3 as int) * conv_odim(
            input_shape.2 as int,
            kernel_shape.2 as int,
            stride.0 as int,
            padding.0 as int,
        ) * conv_odim(
            input_shape.3 as int,
            kernel_shape.3 as int,
            stride.1 as int,
            padding.1 as int,
        ),
{
    let (b, c, h, w) = input_shape;
    let (oc, _kc, kh, kw) = kernel_shape;
    let (sh, sw) = stride;
    let (ph, pw) = padding;
    if sh == 0 || sw == 0 {
        return Err(DemleError::ValidationError(String::from_str("stride must be positive")));
    }
    let padh: u128 = (h as u128) + 2 * (ph as u128);
    let padw: u128 = (w as u128) + 2 * (pw as u128);
    if (kh as u128) > padh || (kw as u128) > padw {
        return Err(
            DemleError::ValidationError(
                String::from_str("kernel does not fit the padded input"),
            ),
        );
    }
    let oh128: u128 = (padh - (kh as u128)) / (sh as u128) + 1;
    let ow128: u128 = (padw - (kw as u128)) / (sw as u128) + 1;
    if padh > (usize::MAX as u128) || padw > (usize::MAX as u128) || oh128 > (usize::MAX as u128)
        || ow128 > (usize::MAX as u128) {
        return Err(DemleError::ComputationError(String::from_str("output size overflows")));
    }
    let oh: usize = oh128 as usize;
    let ow: usize = ow128 as usize;
    proof {
        assert(oh == conv_odim(h as int, kh as int, sh as int, ph as int));
        assert(ow == conv_odim(w as int, kw as int, sw as int, pw as int));
    }
    let hw: usize = match h.checked_mul(w) {
        Some(v) => v,
        None => {
            return Err(DemleError::ComputationError(String::from_str("input size overflows")));
        },
    };
    let chw: usize = match c.checked_mul(hw) {
        Some(v) => v,
        None => {
            return Err(DemleError::ComputationError(String::from_str("input size overflows")));
        },
    };
    let total_in: usize = match b.checked_mul(chw) {
        Some(v) => v,
        None => {
            return Err(DemleError::ComputationError(String::from_str("input size overflows")));
        },
    };
    let khkw: usize = match kh.checked_mul(kw) {
        Some(v) => v,
        None => {
            return Err(
                DemleError::ComputationError(String::from_str("kernel size overflows")),
            );
        },
    };
    let ickk: usize = match c.checked_mul(khkw) {
        Some(v) => v,
        None => {
            return Err(
                DemleError::ComputationError(String::from_str("kernel size overflows")),
            );
        },
    };
    let ktotal: usize = match oc.checked_mul(ickk) {
        Some(v) => v,
        None => {
            return Err(
                DemleError::ComputationError(String::from_str("kernel size overflows")),
            );
        },
    };
    let ohow: usize = match oh.checked_mul(ow) {
        Some(v) => v,
        None => {
            return Err(
                DemleError::ComputationError(String::from_str("output size overflows")),
            );
        },
    };
    let ocohow: usize = match oc.checked_mul(ohow) {
        Some(v) => v,
        None => {
            return Err(
                DemleError::ComputationError(String::from_str("output size overflows")),
            );
        },
    };
    let total_out: usize = match b.checked_mul(ocohow) {
        Some(v) => v,
        None => {
            return Err(
                DemleError::ComputationError(String::from_str("output size overflows")),
            );
        },
    };
    let flops: u64 = if b == 0 || oc == 0 || c == 0 || kh == 0 || kw == 0 {
        proof {
            assert(2 * (b as int) * (oc as int) * (c as int) * (kh as int) * (kw as int) * (
            oh as int) * (ow as int) == 0) by (nonlinear_arith)
                requires
                    b == 0 || oc == 0 || c == 0 || kh == 0 || kw == 0,
            ;
        }
        0
    } else {
        proof {
            assert(oh >= 1 && ow >= 1);
        }
        let factors: Vec<u64> = vec![
            2,
            b as u64,
            oc as u64,
            c as u64,
            kh as u64,
            kw as u64,
            oh as u64,
            ow as u64,
        ];
        proof {
            reveal_with_fuel(prod_u64, 10);
        }
        match checked_prod_u64(&factors) {
            Some(v) => v,
            None => {
                proof {
                    if 2 * (b as int) * (oc as int) * (c as int) * (kh as int) * (kw as int) * (
                    oh as int) * (ow as int) <= u64::MAX {
                        crate::arith::lemma_prod_u64_ok_from_bound(factors@, 8);
                    }
                }
                return Err(
                    DemleError::ComputationError(
                        String::from_str("operation count overflows"),
                    ),
                );
            },
        }
    };
    let inp = generate_elements(total_in, seed);
    let ker = generate_elements(ktotal, seed_add(seed, 1));
    let ghost inpb = gen_bytes(seed, total_in as int);
    let ghost kerb = gen_bytes(spec_seed_add(seed, 1), ktotal as int);
    let mut out: Vec<FP8> = Vec::new();
    let mut t: usize = 0;
    while t < total_out
        invariant
            t <= total_out,
            sh >= 1,
            sw >= 1,
            kh <= h + 2 * ph,
            kw <= w + 2 * pw,
            h + 2 * ph <= usize::MAX,
            w + 2 * pw <= usize::MAX,
            oh == conv_odim(h as int, kh as int, sh as int, ph as int),
            ow == conv_odim(w as int, kw as int, sw as int, pw as int),
            hw == (h as int) * (w as int),
            chw == (c as int) * (hw as int),
            total_in == (b as int) * (chw as int),
            khkw == (kh as int) * (kw as int),
            ickk == (c as int) * (khkw as int),
            ktotal == (oc as int) * (ickk as int),
            ohow == (oh as int) * (ow as int),
            ocohow == (oc as int) * (ohow as int),
            total_out == (b as int) * (ocohow as int),
            inp@.len() == total_in,
            ker@.len() == ktotal,
            forall|u: int|
                0 <= u < total_in ==> (#[trigger] inp@[u]).spec_bits() == gen_byte(seed, u),
            forall|u: int|
                0 <= u < ktotal ==> (#[trigger] ker@[u]).spec_bits() == gen_byte(
                    spec_seed_add(seed, 1),
                    u,
                ),
            inpb == gen_bytes(seed, total_in as int),
            kerb == gen_bytes(spec_seed_add(seed, 1), ktotal as int),
            out@.len() == t,
            forall|u: int|
                0 <= u < t ==> (#[trigger] out@[u]).spec_bits() == conv_acc(
                    inpb,
                    kerb,
                    c as int,
                    h as int,
                    w as int,
                    kh as int,
                    kw as int,
                    sh as int,
                    sw as int,
                    ph as int,
                    pw as int,
                    u / (ocohow as int),
                    (u % (ocohow as int)) / (ohow as int),
                    ((u % (ocohow as int)) % (ohow as int)) / (ow as int),
                    ((u % (ocohow as int)) % (ohow as int)) % (ow as int),
                    ickk as int,
                ),
        decreases total_out - t,
    {
        proof {
            assert(ocohow >= 1 && ohow >= 1 && ow >= 1 && oh >= 1 && oc >= 1 && b >= 1)
                by (nonlinear_arith)
                requires
                    total_out == (b as int) * (ocohow as int),
                    ocohow == (oc as int) * (ohow as int),
                    ohow == (oh as int) * (ow as int),
                    (t as int) < total_out,
                    0 <= t as int,
                    0 <= b as int,
                    0 <= oc as int,
                    0 <= oh as int,
                    0 <= ow as int,
            ;
        }
        let bi: usize = t / ocohow;
        let r1: usize = t % ocohow;
        let oci: usize = r1 / ohow;
        let r2: usize = r1 % ohow;
        let oy: usize = r2 / ow;
        let ox: usize = r2 % ow;
        proof {
            crate::arith::lemma_div_below(t as int, ocohow as int, b as int);
            crate::arith::lemma_div_below(r1 as int, ohow as int, oc as int);
            crate::arith::lemma_div_below(r2 as int, ow as int, oh as int);
        }
        let mut sum = FP8::zero();
        let mut u: usize = 0;
        while u < ickk
            invariant
                u <= ickk,
                bi < b,
                oci < oc,
                oy < oh,
                ox < ow,
                sh >= 1,
                sw >= 1,
                kh <= h + 2 * ph,
                kw <= w + 2 * pw,
                h + 2 * ph <= usize::MAX,
                w + 2 * pw <= usize::MAX,
                oh == conv_odim(h as int, kh as int, sh as int, ph as int),
                ow == conv_odim(w as int, kw as int, sw as int, pw as int),
                hw == (h as int) * (w as int),
                chw == (c as int) * (hw as int),
                total_in == (b as int) * (chw as int),
                khkw == (kh as int) * (kw as int),
                ickk == (c as int) * (khkw as int),
                ktotal == (oc as int) * (ickk as int),
                inp@.len() == total_in,
                ker@.len() == ktotal,
                forall|q: int|
                    0 <= q < total_in ==> (#[trigger] inp@[q]).spec_bits() == gen_byte(seed, q),
                forall|q: int|
                    0 <= q < ktotal ==> (#[trigger] ker@[q]).spec_bits() == gen_byte(
                        spec_seed_add(seed, 1),
                        q,
                    ),
                inpb == gen_bytes(seed, total_in as int),
                kerb == gen_bytes(spec_seed_add(seed, 1), ktotal as int),
                sum.spec_bits() == conv_acc(
                    inpb,
                    kerb,
                    c as int,
                    h as int,
                    w as int,
                    kh as int,
                    kw as int,
                    sh as int,
                    sw as int,
                    ph as int,
                    pw as int,
                    bi as int,
                    oci as int,
                    oy as int,
                    ox as int,
                    u as int,
                ),
            decreases ickk - u,
        {
            proof {
                assert(khkw >= 1 && kw >= 1 && kh >= 1 && c >= 1) by (nonlinear_arith)
                    requires
                        ickk == (c as int) * (khkw as int),
                        khkw == (kh as int) * (kw as int),
                        (u as int) < ickk,
                        0 <= u as int,
                        0 <= c as int,
                        0 <= kh as int,
                        0 <= kw as int,
                ;
            }
            let ic: usize = u / khkw;
            let rem: usize = u % khkw;
            let ky: usize = rem / kw;
            let kx: usize = rem % kw;
            proof {
                crate::arith::lemma_div_below(u as int, khkw as int, c as int);
                crate::arith::lemma_div_below(rem as int, kw as int, kh as int);
                lemma_conv_coord(
                    h as int,
                    ph as int,
                    kh as int,
                    sh as int,
                    oy as int,
                    ky as int,
                );
                lemma_conv_coord(
                    w as int,
                    pw as int,
                    kw as int,
                    sw as int,
                    ox as int,
                    kx as int,
                );
            }
            let iy: usize = oy * sh + ky;
            let ix: usize = ox * sw + kx;
            if iy >= ph && ix >= pw {
                let ry: usize = iy - ph;
                let rx: usize = ix - pw;
                if ry < h && rx < w {
                    proof {
                        assert((bi as int) * (chw as int) + (ic as int) * (hw as int) + (
                        ry as int) * (w as int) + (rx as int) < total_in) by (nonlinear_arith)
                            requires
                                0 <= (bi as int) < (b as int),
                                0 <= (ic as int) < (c as int),
                                0 <= (ry as int) < (h as int),
                                0 <= (rx as int) < (w as int),
                                hw == (h as int) * (w as int),
                                chw == (c as int) * (hw as int),
                                total_in == (b as int) * (chw as int),
                        ;
                        assert((oci as int) * (ickk as int) + (ic as int) * (khkw as int) + (
                        ky as int) * (kw as int) + (kx as int) < ktotal) by (nonlinear_arith)
                            requires
                                0 <= (oci as int) < (oc as int),
                                0 <= (ic as int) < (c as int),
                                0 <= (ky as int) < (kh as int),
                                0 <= (kx as int) < (kw as int),
                                khkw == (kh as int) * (kw as int),
                                ickk == (c as int) * (khkw as int),
                                ktotal == (oc as int) * (ickk as int),
                        ;
                    }
                    let in_idx: usize = bi * chw + ic * hw + ry * w + rx;
                    let k_idx: usize = oci * ickk + ic * khkw + ky * kw + kx;
                    let prod = inp[in_idx].mul(ker[k_idx]);
                    sum = sum.add(prod);
                }
            }
            u = u + 1;
        }
        out.push(sum);
        t = t + 1;
    }
    let bytes = tensor_bytes(&out);
    let result_hash = sha3_hex(bytes.as_slice());
    proof {
        assert(bytes@ =~= conv_output(input_shape, kernel_shape, stride, padding, seed));
    }
    Ok((result_hash, flops))
}

/// An input coordinate oy * s + k stays within the padded extent, so its
/// machine arithmetic cannot overflow.
proof fn lemma_conv_coord(h: int, p: int, kd: int, s: int, oy: int, ky: int)
    requires
        s >= 1,
        kd <= h + 2 * p,
        0 <= ky < kd,
        0 <= oy,
        oy < (h + 2 * p - kd) / s + 1,
    ensures
        oy * s + ky <= h + 2 * p,
{
    let x = h + 2 * p - kd;
    vstd::arithmetic::div_mod::lemma_fundamental_div_mod(x, s);
    assert(oy <= x / s);
    assert(oy * s <= (x / s) * s) by (nonlinear_arith)
        requires
            0 <= oy,
            oy <= x / s,
            s >= 1,
    ;
    assert((x / s) * s <= x) by (nonlinear_arith)
        requires
            x == s * (x / s) + x % s,
            x % s >= 0,
    ;
}

} // verus!
