//! The 8-bit minifloat format: 1 sign bit, 4 exponent bits (bias 7) and
//! 3 mantissa bits.
//!
//! Every representable value is an integer multiple of 2^-9, so the whole
//! format is modelled exactly by integers: `val_q9` gives a pattern's value
//! scaled by 2^9 ("Q9"). The all-zero pattern is zero, and any pattern with
//! a zero exponent field also decodes to zero (denormals collapse to zero).
//! Arithmetic decodes both operands, computes exactly, and re-encodes by
//! truncating the mantissa; `enc_q` is that truncating encoder.

use vstd::prelude::*;
use vstd::arithmetic::power2::pow2;
use vstd::math::abs;
use crate::arith::{pow2_u64, lemma_div_at_least, lemma_div_below};

verus! {

/// Index of the most significant set bit: the unique p with
/// 2^p <= a < 2^(p+1) for a >= 1 (and 0 for a == 0).
pub open spec fn msb(a: nat) -> nat
    decreases a,
{
    if a < 2 {
        0
    } else {
        1 + msb(a / 2)
    }
}

/// The defining property of `msb`.
pub proof fn lemma_msb_bounds(a: nat)
    requires
        a >= 1,
    ensures
        pow2(msb(a)) <= a < pow2(msb(a) + 1),
    decreases a,
{
    vstd::arithmetic::power2::lemma2_to64();
    if a >= 2 {
        lemma_msb_bounds(a / 2);
        vstd::arithmetic::power2::lemma_pow2_unfold(msb(a));
        vstd::arithmetic::power2::lemma_pow2_unfold(msb(a) + 1);
    }
}

/// The truncating encoder: the minifloat pattern for the value n * 2^-shift.
/// The sign is taken from n; the exponent field is the value's binary
/// exponent plus the bias 7, clamped to [0, 15]; the mantissa field is the
/// top 3 fraction bits, truncated. A clamped-to-zero exponent field keeps
/// its truncated mantissa bits, exactly as conversion from a full-precision
/// value does.
pub open spec fn enc_q(n: int, shift: nat) -> u8 {
    if n == 0 {
        0
    } else {
        let a: int = abs(n) as int;
        let p: nat = msb(a as nat);
        let m3: int = if p >= 3 {
            a / (pow2((p - 3) as nat) as int) - 8
        } else {
            a * (pow2((3 - p) as nat) as int) - 8
        };
        let efi: int = if p + 7 <= shift {
            0
        } else if p + 7 >= shift + 15 {
            15
        } else {
            p + 7 - shift
        };
        let s: int = if n < 0 {
            128
        } else {
            0
        };
        (s + efi * 8 + m3) as u8
    }
}

/// An 8-bit minifloat value, stored as its raw bit pattern.
#[derive(Clone, Copy, Debug, PartialEq, Eq, Structural)]
pub struct FP8 {
    bits: u8,
}

/// Sign field of a pattern: 0 or 1.
pub open spec fn sign_of(bits: u8) -> int {
    (bits as int) / 128
}

/// Exponent field of a pattern: 0 to 15.
pub open spec fn exp_of(bits: u8) -> int {
    ((bits as int) / 8) % 16
}

/// Mantissa field of a pattern: 0 to 7.
pub open spec fn mant_of(bits: u8) -> int {
    (bits as int) % 8
}

/// The decoded value of a pattern, scaled by 2^9. A zero exponent field
/// decodes to zero; otherwise the magnitude is (8 + mantissa) * 2^(exp - 1),
/// which is (1 + mantissa/8) * 2^(exp - 7) in real terms.
pub open spec fn val_q9(bits: u8) -> int {
    if exp_of(bits) == 0 {
        0
    } else {
        let mag = (8 + mant_of(bits)) * pow2((exp_of(bits) - 1) as nat);
        if sign_of(bits) == 1 {
            -mag
        } else {
            mag
        }
    }
}

impl FP8 {
    /// Create a value from its raw bit pattern.
    pub fn from_bits(bits: u8) -> (r: Self)
        ensures
            r.spec_bits() == bits,
    {
        Self { bits }
    }

    /// The raw bit pattern.
    pub fn to_bits(self) -> (r: u8)
        ensures
            r == self.spec_bits(),
    {
        self.bits
    }

    /// Spec view of the raw bit pattern.
    pub closed spec fn spec_bits(self) -> u8 {
        self.bits
    }

    /// Spec view of the decoded value in Q9 scale.
    pub open spec fn value_q9(self) -> int {
        val_q9(self.spec_bits())
    }

    /// The zero value: the all-zero pattern.
    pub fn zero() -> (r: Self)
        ensures
            r.spec_bits() == 0,
            r.value_q9() == 0,
    {
        Self { bits: 0 }
    }

    /// The value one: sign 0, exponent field 7, mantissa 0.
    pub fn one() -> (r: Self)
        ensures
            r.spec_bits() == 56,
            r.value_q9() == 512,
    {
        proof {
            vstd::arithmetic::power2::lemma2_to64();
            assert(val_q9(56) == 8 * pow2(6));
        }
        Self { bits: 56 }
    }

    /// The decoded value in Q9 scale, as a machine integer.
    pub fn decode_q9(self) -> (v: i64)
        ensures
            v == self.value_q9(),
            -245760 <= v <= 245760,
    {
        let e: u8 = (self.bits / 8) % 16;
        let m: u8 = self.bits % 8;
        if e == 0 {
            0
        } else {
            let f: u64 = pow2_u64((e - 1) as u32);
            proof {
                vstd::arithmetic::power2::lemma2_to64();
                if e < 15 {
                    vstd::arithmetic::power2::lemma_pow2_strictly_increases(
                        (e - 1) as nat,
                        14,
                    );
                }
                vstd::arithmetic::mul::lemma_mul_upper_bound(
                    (8 + m) as int,
                    15,
                    f as int,
                    16384,
                );
            }
            let mag: u64 = ((8 + m) as u64) * f;
            if self.bits >= 128 {
                -(mag as i64)
            } else {
                mag as i64
            }
        }
    }

    /// Conversion from a full-precision value, given as the bit pattern of
    /// an IEEE single-precision float. The sign bit, the rebiased exponent
    /// (clamped to [0, 15]) and the top 3 mantissa bits are kept; the
    /// mantissa is truncated, never rounded. Both zero patterns map to the
    /// all-zero pattern.
    pub fn from_f32(b32: u32) -> (r: Self)
        ensures
            r.spec_bits() == spec_from_f32(b32),
    {
        if b32 % 0x8000_0000 == 0 {
            return Self { bits: 0 };
        }
        let s: u32 = b32 / 0x8000_0000;
        let e32: u32 = (b32 / 0x80_0000) % 256;
        let m3: u32 = (b32 / 0x10_0000) % 8;
        let ef: u32 = if e32 <= 120 {
            0
        } else if e32 >= 135 {
            15
        } else {
            e32 - 120
        };
        Self { bits: (s as u8) * 128 + (ef as u8) * 8 + (m3 as u8) }
    }

    /// Conversion to a full-precision value, given as the bit pattern of an
    /// IEEE single-precision float. A zero exponent field decodes to zero
    /// (denormals collapse); otherwise the exponent is rebiased and the
    /// mantissa bits are shifted into place. Exact: every nonzero pattern's
    /// value is a normal single-precision number.
    pub fn to_f32(self) -> (r: u32)
        ensures
            r == spec_to_f32(self.spec_bits()),
    {
        let e: u8 = (self.bits / 8) % 16;
        let m: u8 = self.bits % 8;
        if e == 0 {
            0
        } else {
            let s: u32 = if self.bits >= 128 {
                1
            } else {
                0
            };
            s * 0x8000_0000 + ((e as u32) + 120) * 0x80_0000 + (m as u32) * 0x10_0000
        }
    }

    /// Minifloat addition: decode both operands, add exactly, re-encode.
    pub fn add(self, rhs: Self) -> (r: Self)
        ensures
            r.spec_bits() == enc_q(self.value_q9() + rhs.value_q9(), 9),
    {
        let va = self.decode_q9();
        let vb = rhs.decode_q9();
        fp8_enc(va + vb, 9)
    }

    /// Minifloat subtraction: decode both operands, subtract exactly,
    /// re-encode.
    pub fn sub(self, rhs: Self) -> (r: Self)
        ensures
            r.spec_bits() == enc_q(self.value_q9() - rhs.value_q9(), 9),
    {
        let va = self.decode_q9();
        let vb = rhs.decode_q9();
        fp8_enc(va - vb, 9)
    }

    /// Minifloat multiplication: decode both operands, multiply exactly,
    /// re-encode.
    pub fn mul(self, rhs: Self) -> (r: Self)
        ensures
            r.spec_bits() == enc_q(self.value_q9() * rhs.value_q9(), 18),
    {
        let va = self.decode_q9();
        let vb = rhs.decode_q9();
        proof {
            assert(-(245760 * 245760) <= (va as int) * (vb as int) <= 245760 * 245760)
                by (nonlinear_arith)
                requires
                    -245760 <= va as int <= 245760,
                    -245760 <= vb as int <= 245760,
            ;
        }
        fp8_enc(va * vb, 18)
    }

    /// Minifloat division: decode both operands, divide with 20 guard bits
    /// truncating toward zero, re-encode. A zero divisor saturates to the
    /// largest-exponent pattern with the dividend's sign, and zero over
    /// zero yields the quiet-not-a-number image pattern, so the operation
    /// is total.
    pub fn div(self, rhs: Self) -> (r: Self)
        ensures
            r.spec_bits() == spec_div_bits(self.value_q9(), rhs.value_q9()),
    {
        let va = self.decode_q9();
        let vb = rhs.decode_q9();
        if vb == 0 {
            if va == 0 {
                Self { bits: 0x7C }
            } else if va < 0 {
                Self { bits: 0xF8 }
            } else {
                Self { bits: 0x78 }
            }
        } else {
            let am: u64 = if va < 0 {
                (-va) as u64
            } else {
                va as u64
            };
            let bm: u64 = if vb < 0 {
                (-vb) as u64
            } else {
                vb as u64
            };
            let q: u64 = (am * 0x10_0000) / bm;
            proof {
                vstd::arithmetic::div_mod::lemma_div_nonincreasing(
                    am as int * 0x10_0000,
                    bm as int,
                );
            }
            let qs: i64 = if (va < 0) != (vb < 0) {
                -(q as i64)
            } else {
                q as i64
            };
            fp8_enc(qs, 20)
        }
    }
}

/// Division in the value domain: the quotient scaled by 2^20 and truncated
/// toward zero, then encoded; with the stated total-function rule for a
/// zero divisor.
pub open spec fn spec_div_bits(va: int, vb: int) -> u8 {
    if vb == 0 {
        if va == 0 {
            0x7C
        } else if va < 0 {
            0xF8
        } else {
            0x78
        }
    } else {
        let q: int = ((abs(va) as int) * 0x10_0000) / (abs(vb) as int);
        let n: int = if (va < 0) != (vb < 0) {
            -q
        } else {
            q
        };
        enc_q(n, 20)
    }
}

/// The minifloat pattern that conversion from a single-precision bit
/// pattern produces.
pub open spec fn spec_from_f32(b32: u32) -> u8 {
    if (b32 as int) % 0x8000_0000 == 0 {
        0
    } else {
        let s = (b32 as int) / 0x8000_0000;
        let e32 = ((b32 as int) / 0x80_0000) % 256;
        let m3 = ((b32 as int) / 0x10_0000) % 8;
        let ef: int = if e32 <= 120 {
            0
        } else if e32 >= 135 {
            15
        } else {
            e32 - 120
        };
        (s * 128 + ef * 8 + m3) as u8
    }
}

/// The single-precision bit pattern that conversion to full precision
/// produces.
pub open spec fn spec_to_f32(bits: u8) -> u32 {
    if exp_of(bits) == 0 {
        0
    } else {
        (sign_of(bits) * 0x8000_0000 + (exp_of(bits) + 120) * 0x80_0000 + mant_of(bits)
            * 0x10_0000) as u32
    }
}

/// Patterns with equal bits are equal values.
pub proof fn lemma_fp8_eq(x: FP8, y: FP8)
    requires
        x.spec_bits() == y.spec_bits(),
    ensures
        x == y,
{
}

/// Executable truncating encoder for a value n * 2^-shift.
pub fn fp8_enc(n: i64, shift: u32) -> (r: FP8)
    requires
        shift <= 60,
    ensures
        r.spec_bits() == enc_q(n as int, shift as nat),
{
    if n == 0 {
        return FP8 { bits: 0 };
    }
    let neg: bool = n < 0;
    let a: u64 = if neg {
        (-(n as i128)) as u64
    } else {
        n as u64
    };
    proof {
        assert(a == abs(n as int));
    }
    let mut p: u32 = 0;
    let mut x: u64 = a;
    while x >= 2
        invariant
            1 <= x <= a,
            p <= 64,
            msb(a as nat) == p + msb(x as nat),
        decreases x,
    {
        proof {
            assert(msb(x as nat) == 1 + msb((x / 2) as nat));
            lemma_msb_bounds(a as nat);
            vstd::arithmetic::power2::lemma2_to64();
            vstd::arithmetic::power2::lemma2_to64_rest();
            if p >= 64 {
                vstd::arithmetic::power2::lemma_pow2_strictly_increases(64, msb(a as nat));
                assert(false);
            }
        }
        x = x / 2;
        p = p + 1;
    }
    proof {
        assert(msb(x as nat) == 0);
        assert(p == msb(a as nat));
        lemma_msb_bounds(a as nat);
        vstd::arithmetic::power2::lemma2_to64();
        vstd::arithmetic::power2::lemma2_to64_rest();
        if p >= 64 {
            if p > 64 {
                vstd::arithmetic::power2::lemma_pow2_strictly_increases(64, p as nat);
            }
            assert(false);
        }
    }
    let m3: u64 = if p >= 3 {
        let d = pow2_u64(p - 3);
        proof {
            vstd::arithmetic::power2::lemma_pow2_adds(3, (p - 3) as nat);
            vstd::arithmetic::power2::lemma_pow2_adds(4, (p - 3) as nat);
            vstd::arithmetic::power2::lemma2_to64();
            lemma_div_at_least(a as int, d as int, 8);
            lemma_div_below(a as int, d as int, 16);
        }
        a / d - 8
    } else {
        let f = pow2_u64(3 - p);
        proof {
            vstd::arithmetic::power2::lemma_pow2_adds(p as nat, (3 - p) as nat);
            vstd::arithmetic::power2::lemma_pow2_adds((p + 1) as nat, (3 - p) as nat);
            vstd::arithmetic::power2::lemma2_to64();
            vstd::arithmetic::mul::lemma_mul_inequality(
                pow2(p as nat) as int,
                a as int,
                pow2((3 - p) as nat) as int,
            );
            vstd::arithmetic::mul::lemma_mul_strict_inequality(
                a as int,
                pow2((p + 1) as nat) as int,
                pow2((3 - p) as nat) as int,
            );
        }
        a * f - 8
    };
    let efv: u32 = if p + 7 <= shift {
        0
    } else if p + 7 >= shift + 15 {
        15
    } else {
        p + 7 - shift
    };
    let sb: u8 = if neg {
        128
    } else {
        0
    };
    FP8 { bits: sb + (efv as u8) * 8 + (m3 as u8) }
}

/// The zero rule: both full-precision zero patterns convert to the
/// all-zero pattern, and the all-zero pattern converts back to the
/// positive zero pattern.
pub proof fn lemma_zero_conversions()
    ensures
        spec_from_f32(0x00000000) == 0,
        spec_from_f32(0x80000000) == 0,
        spec_to_f32(0) == 0,
        val_q9(0) == 0,
{
}

/// Values below the smallest representable magnitude collapse to a
/// zero-exponent pattern, which decodes to zero.
pub proof fn lemma_small_values_collapse(b32: u32)
    requires
        ((b32 as int) / 0x80_0000) % 256 <= 120,
    ensures
        val_q9(spec_from_f32(b32)) == 0,
{
}

/// The round-trip bound: for a full-precision value whose unbiased
/// exponent lies in the representable range [-6, 8], converting to the
/// format and back loses less than one quantization step, and never
/// rounds away from zero. The value and the decoded result are compared
/// exactly at 29 fraction bits: t is the value's magnitude at that scale,
/// d the decoded magnitude, and the gap lies in [0, 2^(k + 20)), one
/// mantissa step. This covers every value in [-4, 4] apart from the
/// neighbourhood of zero, where `lemma_small_values_collapse` bounds the
/// loss by 2^-6.
pub proof fn lemma_round_trip_bound(b32: u32)
    requires
        121 <= ((b32 as int) / 0x80_0000) % 256 <= 135,
    ensures
        ({
            let k = ((b32 as int) / 0x80_0000) % 256 - 121;
            let m23 = (b32 as int) % 0x80_0000;
            let t = (0x80_0000 + m23) * pow2(k as nat);
            let d = abs(val_q9(spec_from_f32(b32))) as int * pow2(20);
            0 <= t - d < pow2((k + 20) as nat)
        }),
{
    let e32 = ((b32 as int) / 0x80_0000) % 256;
    let k = e32 - 121;
    let m23 = (b32 as int) % 0x80_0000;
    let m3 = ((b32 as int) / 0x10_0000) % 8;
    let byte = spec_from_f32(b32);
    vstd::arithmetic::power2::lemma2_to64();
    // the three mantissa bits are the top bits of the 23-bit mantissa
    assert(m23 == 0x10_0000 * m3 + (b32 as int) % 0x10_0000 && 0 <= (b32 as int) % 0x10_0000
        < 0x10_0000) by {
        vstd::arithmetic::div_mod::lemma_breakdown(b32 as int, 0x10_0000, 8);
        vstd::arithmetic::div_mod::lemma_mod_breakdown(b32 as int, 0x10_0000, 8);
    }
    // the encoded fields
    assert(exp_of(byte) == k + 1 && mant_of(byte) == m3);
    assert(abs(val_q9(byte)) as int == (8 + m3) * pow2(k as nat));
    // compare at 29 fraction bits
    vstd::arithmetic::power2::lemma_pow2_adds(k as nat, 20);
    assert((8 + m3) * pow2(k as nat) * pow2(20) == (8 + m3) * pow2((k + 20) as nat))
        by (nonlinear_arith)
        requires
            pow2(k as nat) * pow2(20) == pow2((k + 20) as nat),
    ;
    assert((0x80_0000 + m23) * pow2(k as nat) - (8 + m3) * pow2((k + 20) as nat) == ((
    b32 as int) % 0x10_0000) * pow2(k as nat)) by (nonlinear_arith)
        requires
            m23 == 0x10_0000 * m3 + (b32 as int) % 0x10_0000,
            pow2((k + 20) as nat) == pow2(k as nat) * pow2(20),
            pow2(20) == 0x10_0000,
    ;
    assert(0 <= ((b32 as int) % 0x10_0000) * pow2(k as nat) < pow2((k + 20) as nat))
        by (nonlinear_arith)
        requires
            0 <= (b32 as int) % 0x10_0000 < 0x10_0000,
            pow2(k as nat) >= 1,
            pow2((k + 20) as nat) == pow2(k as nat) * pow2(20),
            pow2(20) == 0x10_0000,
    ;
}

/// The bit index never decreases with the value.
pub proof fn lemma_msb_monotone(a: nat, b: nat)
    requires
        a <= b,
    ensures
        msb(a) <= msb(b),
    decreases b,
{
    if a >= 2 {
        lemma_msb_monotone(a / 2, b / 2);
    }
}

/// The decoded magnitude of an encoded non-positive value, as a function
/// of the magnitude of the input.
proof fn lemma_enc_neg_val(n: int, p: nat)
    requires
        n < 0,
        p == msb((-n) as nat),
        p < 18,
    ensures
        exp_of(enc_q(n, 9)) == if p + 7 <= 9 {
            0
        } else {
            p - 2
        },
        val_q9(enc_q(n, 9)) == if p + 7 <= 9 {
            0
        } else {
            -((8 + mant_of(enc_q(n, 9))) * pow2((p - 3) as nat))
        },
        p >= 3 ==> mant_of(enc_q(n, 9)) == (-n) / (pow2((p - 3) as nat) as int) - 8,
{
    let a = -n;
    lemma_msb_bounds(a as nat);
    vstd::arithmetic::power2::lemma2_to64();
    let m3: int = if p >= 3 {
        a / (pow2((p - 3) as nat) as int) - 8
    } else {
        a * (pow2((3 - p) as nat) as int) - 8
    };
    if p >= 3 {
        vstd::arithmetic::power2::lemma_pow2_adds(3, (p - 3) as nat);
        vstd::arithmetic::power2::lemma_pow2_adds(4, (p - 3) as nat);
        crate::arith::lemma_div_at_least(a, pow2((p - 3) as nat) as int, 8);
        crate::arith::lemma_div_below(a, pow2((p - 3) as nat) as int, 16);
    } else {
        vstd::arithmetic::power2::lemma_pow2_adds(p, (3 - p) as nat);
        vstd::arithmetic::power2::lemma_pow2_adds((p + 1) as nat, (3 - p) as nat);
        vstd::arithmetic::mul::lemma_mul_inequality(
            pow2(p) as int,
            a,
            pow2((3 - p) as nat) as int,
        );
        vstd::arithmetic::mul::lemma_mul_strict_inequality(
            a,
            pow2((p + 1) as nat) as int,
            pow2((3 - p) as nat) as int,
        );
    }
    assert(0 <= m3 < 8);
    let efi: int = if p + 7 <= 9 {
        0
    } else {
        p - 2
    };
    assert(efi <= 15);
    let byte = enc_q(n, 9);
    assert(byte == (128 + efi * 8 + m3) as u8);
    assert(sign_of(byte) == 1 && exp_of(byte) == efi && mant_of(byte) == m3);
    if p >= 3 && efi >= 1 {
        assert((p - 3) as nat == (efi - 1) as nat);
    }
}

/// Encoding at 9 fraction bits is monotone on the non-positive range
/// below one binade of overflow: for inputs in (-2^18, 0], a smaller
/// value encodes to a pattern with a smaller decoded value.
pub proof fn lemma_enc_monotone_nonpos(n1: int, n2: int)
    requires
        -262144 < n1 <= n2 <= 0,
    ensures
        val_q9(enc_q(n1, 9)) <= val_q9(enc_q(n2, 9)),
{
    vstd::arithmetic::power2::lemma2_to64();
    if n2 == 0 {
        // enc(0) is the zero pattern; enc(n1) is non-positive
        if n1 < 0 {
            let p1 = msb((-n1) as nat);
            lemma_msb_bounds((-n1) as nat);
            if p1 >= 18 {
                if p1 > 18 {
                    vstd::arithmetic::power2::lemma_pow2_strictly_increases(18, p1);
                }
                assert(pow2(18) <= pow2(p1));
                assert(false);
            }
            lemma_enc_neg_val(n1, p1);
            if exp_of(enc_q(n1, 9)) != 0 {
                vstd::arithmetic::mul::lemma_mul_nonnegative(
                    8 + mant_of(enc_q(n1, 9)),
                    pow2((p1 - 3) as nat) as int,
                );
            }
        }
    } else {
        let a1 = -n1;
        let a2 = -n2;
        let p1 = msb(a1 as nat);
        let p2 = msb(a2 as nat);
        lemma_msb_bounds(a1 as nat);
        lemma_msb_bounds(a2 as nat);
        lemma_msb_monotone(a2 as nat, a1 as nat);
        if p1 >= 18 {
            if p1 > 18 {
                vstd::arithmetic::power2::lemma_pow2_strictly_increases(18, p1);
            }
            assert(pow2(18) <= pow2(p1));
            assert(false);
        }
        lemma_enc_neg_val(n1, p1);
        lemma_enc_neg_val(n2, p2);
        let b1 = enc_q(n1, 9);
        let b2 = enc_q(n2, 9);
        if p2 + 7 <= 9 {
            // the smaller magnitude collapses to zero; the larger encodes
            // to a non-positive value
            if p1 + 7 > 9 {
                vstd::arithmetic::mul::lemma_mul_nonnegative(
                    8 + mant_of(b1),
                    pow2((p1 - 3) as nat) as int,
                );
            }
        } else {
            // both encode with exponent fields p - 2 >= 1
            assert(p1 >= 3 && p2 >= 3);
            if p1 == p2 {
                vstd::arithmetic::div_mod::lemma_div_is_ordered(
                    a2,
                    a1,
                    pow2((p1 - 3) as nat) as int,
                );
                vstd::arithmetic::mul::lemma_mul_inequality(
                    8 + mant_of(b2),
                    8 + mant_of(b1),
                    pow2((p1 - 3) as nat) as int,
                );
            } else {
                // p2 < p1: the larger magnitude has a strictly larger
                // exponent, and mantissas cannot bridge a binade
                assert(p2 < p1);
                vstd::arithmetic::power2::lemma_pow2_adds((p2 - 3) as nat, 1);
                vstd::arithmetic::power2::lemma_pow2_strictly_increases(
                    (p2 - 2) as nat,
                    (p1 - 2) as nat,
                );
                vstd::arithmetic::power2::lemma_pow2_adds((p1 - 3) as nat, 0);
                assert((8 + mant_of(b2)) * pow2((p2 - 3) as nat) <= 15 * pow2((p2 - 3) as nat))
                    by (nonlinear_arith)
                    requires
                        mant_of(b2) <= 7,
                        pow2((p2 - 3) as nat) >= 0,
                ;
                assert(16 * pow2((p2 - 3) as nat) == 8 * pow2((p2 - 2) as nat))
                    by (nonlinear_arith)
                    requires
                        pow2((p2 - 2) as nat) == 2 * pow2((p2 - 3) as nat),
                ;
                vstd::arithmetic::power2::lemma_pow2_unfold((p2 - 2) as nat);
                if (p2 - 2) < (p1 - 3) {
                    vstd::arithmetic::power2::lemma_pow2_strictly_increases(
                        (p2 - 2) as nat,
                        (p1 - 3) as nat,
                    );
                }
                assert(8 * pow2((p2 - 2) as nat) <= 8 * pow2((p1 - 3) as nat))
                    by (nonlinear_arith)
                    requires
                        pow2((p2 - 2) as nat) <= pow2((p1 - 3) as nat),
                ;
                assert(8 * pow2((p1 - 3) as nat) <= (8 + mant_of(b1)) * pow2((p1 - 3) as nat))
                    by (nonlinear_arith)
                    requires
                        mant_of(b1) >= 0,
                        pow2((p1 - 3) as nat) >= 0,
                ;
            }
        }
    }
}

/// Every pattern's decoded magnitude is at most 15 * 2^14.
pub proof fn lemma_val_q9_bounds(bits: u8)
    ensures
        -245760 <= val_q9(bits) <= 245760,
{
    vstd::arithmetic::power2::lemma2_to64();
    if exp_of(bits) != 0 {
        if exp_of(bits) < 15 {
            vstd::arithmetic::power2::lemma_pow2_strictly_increases(
                (exp_of(bits) - 1) as nat,
                14,
            );
        }
        vstd::arithmetic::mul::lemma_mul_upper_bound(
            8 + mant_of(bits),
            15,
            pow2((exp_of(bits) - 1) as nat) as int,
            16384,
        );
        vstd::arithmetic::mul::lemma_mul_nonnegative(
            8 + mant_of(bits),
            pow2((exp_of(bits) - 1) as nat) as int,
        );
    }
}

/// Among sign-bit patterns, a larger pattern decodes to a smaller (more
/// negative) value, strictly so once the exponent field is positive.
pub proof fn lemma_neg_byte_order(b1: u8, b2: u8)
    requires
        128 <= b1 <= b2,
    ensures
        val_q9(b2) <= val_q9(b1),
        b1 < b2 && exp_of(b1) >= 1 ==> val_q9(b2) < val_q9(b1),
{
    vstd::arithmetic::power2::lemma2_to64();
    let e1 = exp_of(b1);
    let m1 = mant_of(b1);
    let e2 = exp_of(b2);
    let m2 = mant_of(b2);
    assert(sign_of(b1) == 1 && sign_of(b2) == 1);
    assert(b1 == 128 + e1 * 8 + m1 && b2 == 128 + e2 * 8 + m2);
    if e1 == 0 {
        if e2 != 0 {
            vstd::arithmetic::mul::lemma_mul_nonnegative(8 + m2, pow2((e2 - 1) as nat) as int);
        }
    } else {
        assert(e1 <= e2);
        if e1 == e2 {
            vstd::arithmetic::mul::lemma_mul_inequality(
                8 + m1,
                8 + m2,
                pow2((e1 - 1) as nat) as int,
            );
            if m1 < m2 {
                vstd::arithmetic::mul::lemma_mul_strict_inequality(
                    8 + m1,
                    8 + m2,
                    pow2((e1 - 1) as nat) as int,
                );
            }
        } else {
            assert(e1 < e2);
            vstd::arithmetic::power2::lemma_pow2_unfold(e1 as nat);
            if e1 < (e2 - 1) {
                vstd::arithmetic::power2::lemma_pow2_strictly_increases(
                    e1 as nat,
                    (e2 - 1) as nat,
                );
            }
            assert((8 + m1) * pow2((e1 - 1) as nat) <= 15 * pow2((e1 - 1) as nat))
                by (nonlinear_arith)
                requires
                    m1 <= 7,
                    pow2((e1 - 1) as nat) >= 0,
            ;
            assert(16 * pow2((e1 - 1) as nat) == 8 * pow2(e1 as nat)) by (nonlinear_arith)
                requires
                    pow2(e1 as nat) == 2 * pow2((e1 - 1) as nat),
            ;
            assert(8 * pow2(e1 as nat) <= 8 * pow2((e2 - 1) as nat)) by (nonlinear_arith)
                requires
                    pow2(e1 as nat) <= pow2((e2 - 1) as nat),
            ;
            assert(8 * pow2((e2 - 1) as nat) <= (8 + m2) * pow2((e2 - 1) as nat))
                by (nonlinear_arith)
                requires
                    m2 >= 0,
                    pow2((e2 - 1) as nat) >= 0,
            ;
        }
    }
}

/// A value at or below minus one binade of overflow encodes to a pattern
/// with the top exponent field.
pub proof fn lemma_enc_clamped_neg(n: int)
    requires
        -491520 <= n <= -262144,
    ensures
        248 <= enc_q(n, 9),
{
    vstd::arithmetic::power2::lemma2_to64();
    let a = -n;
    let p = msb(a as nat);
    lemma_msb_bounds(a as nat);
    if p < 18 {
        if p + 1 < 18 {
            vstd::arithmetic::power2::lemma_pow2_strictly_increases((p + 1) as nat, 18);
        }
        assert(false);
    }
    if p > 18 {
        vstd::arithmetic::power2::lemma_pow2_strictly_increases(19, (p) as nat);
        assert(false);
    }
    assert(p == 18);
    crate::arith::lemma_div_at_least(a, pow2(15) as int, 8);
    crate::arith::lemma_div_below(a, pow2(15) as int, 16);
    let m3: int = a / (pow2(15) as int) - 8;
    assert(0 <= m3 < 8);
    assert(enc_q(n, 9) == (128 + 15 * 8 + m3) as u8);
}

} // verus!
