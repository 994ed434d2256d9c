//! Softmax over minifloat inputs, with numerically stable
//! max-subtraction. The row maximum is subtracted from each entry and the
//! difference re-quantized; a fixed table gives the exponential of each
//! non-positive minifloat value at 30 fraction bits; the weights are the
//! table values normalized by their exact sum, truncating. The weights
//! are returned at 30 fraction bits rather than re-quantized to the
//! 3-mantissa-bit format, so that they are non-negative and sum to one
//! within the stated tolerance.

use vstd::prelude::*;
use crate::fp8::{FP8, enc_q, val_q9, fp8_enc, msb};
use crate::tensor::bits_of;

verus! {

/// The exponential of a minifloat value at 30 fraction bits:
/// round(2^30 * exp(value)) for non-positive values, and one (the table's
/// cap) for positive values, which the max-subtraction never produces.
pub open spec fn exp_q30_of(bits: u8) -> u32 {
    if bits < 128 {
        1073741824
    } else {
        if bits == 128 {
            1073741824
        } else if bits == 129 {
            1073741824
        } else if bits == 130 {
            1073741824
        } else if bits == 131 {
            1073741824
        } else if bits == 132 {
            1073741824
        } else if bits == 133 {
            1073741824
        } else if bits == 134 {
            1073741824
        } else if bits == 135 {
            1073741824
        } else if bits == 136 {
            1057095000
        } else if bits == 137 {
            1055032376
        } else if bits == 138 {
            1052973777
        } else if bits == 139 {
            1050919195
        } else if bits == 140 {
            1048868621
        } else if bits == 141 {
            1046822049
        } else if bits == 142 {
            1044779470
        } else if bits == 143 {
            1042740877
        } else if bits == 144 {
            1040706261
        } else if bits == 145 {
            1036648932
        } else if bits == 146 {
            1032607421
        } else if bits == 147 {
            1028581666
        } else if bits == 148 {
            1024571606
        } else if bits == 149 {
            1020577180
        } else if bits == 150 {
            1016598326
        } else if bits == 151 {
            1012634985
        } else if bits == 152 {
            1008687096
        } else if bits == 153 {
            1000837430
        } else if bits == 154 {
            993048852
        } else if bits == 155 {
            985320884
        } else if bits == 156 {
            977653056
        } else if bits == 157 {
            970044900
        } else if bits == 158 {
            962495950
        } else if bits == 159 {
            955005748
        } else if bits == 160 {
            947573834
        } else if bits == 161 {
            932883063
        } else if bits == 162 {
            918420052
        } else if bits == 163 {
            904181269
        } else if bits == 164 {
            890163238
        } else if bits == 165 {
            876362536
        } else if bits == 166 {
            862775794
        } else if bits == 167 {
            849399695
        } else if bits == 168 {
            836230973
        } else if bits == 169 {
            810502851
        } else if bits == 170 {
            785566300
        } else if bits == 171 {
            761396966
        } else if bits == 172 {
            737971244
        } else if bits == 173 {
            715266256
        } else if bits == 174 {
            693259826
        } else if bits == 175 {
            671930464
        } else if bits == 176 {
            651257337
        } else if bits == 177 {
            611799650
        } else if bits == 178 {
            574732583
        } else if bits == 179 {
            539911296
        } else if bits == 180 {
            507199724
        } else if bits == 181 {
            476470046
        } else if bits == 182 {
            447602185
        } else if bits == 183 {
            420483340
        } else if bits == 184 {
            395007542
        } else if bits == 185 {
            348592932
        } else if bits == 186 {
            307632183
        } else if bits == 187 {
            271484449
        } else if bits == 188 {
            239584185
        } else if bits == 189 {
            211432301
        } else if bits == 190 {
            186588351
        } else if bits == 191 {
            164663642
        } else if bits == 192 {
            145315154
        } else if bits == 193 {
            113171556
        } else if bits == 194 {
            88138096
        } else if bits == 195 {
            68642018
        } else if bits == 196 {
            53458458
        } else if bits == 197 {
            41633489
        } else if bits == 198 {
            32424194
        } else if bits == 199 {
            25251987
        } else if bits == 200 {
            19666268
        } else if bits == 201 {
            11928194
        } else if bits == 202 {
            7234816
        } else if bits == 203 {
            4388137
        } else if bits == 204 {
            2661540
        } else if bits == 205 {
            1614306
        } else if bits == 206 {
            979126
        } else if bits == 207 {
            593870
        } else if bits == 208 {
            360200
        } else if bits == 209 {
            132510
        } else if bits == 210 {
            48748
        } else if bits == 211 {
            17933
        } else if bits == 212 {
            6597
        } else if bits == 213 {
            2427
        } else if bits == 214 {
            893
        } else if bits == 215 {
            328
        } else if bits == 216 {
            121
        } else if bits == 217 {
            16
        } else if bits == 218 {
            2
        } else if bits == 219 {
            0
        } else if bits == 220 {
            0
        } else if bits == 221 {
            0
        } else if bits == 222 {
            0
        } else if bits == 223 {
            0
        } else if bits == 224 {
            0
        } else if bits == 225 {
            0
        } else if bits == 226 {
            0
        } else if bits == 227 {
            0
        } else if bits == 228 {
            0
        } else if bits == 229 {
            0
        } else if bits == 230 {
            0
        } else if bits == 231 {
            0
        } else if bits == 232 {
            0
        } else if bits == 233 {
            0
        } else if bits == 234 {
            0
        } else if bits == 235 {
            0
        } else if bits == 236 {
            0
        } else if bits == 237 {
            0
        } else if bits == 238 {
            0
        } else if bits == 239 {
            0
        } else if bits == 240 {
            0
        } else if bits == 241 {
            0
        } else if bits == 242 {
            0
        } else if bits == 243 {
            0
        } else if bits == 244 {
            0
        } else if bits == 245 {
            0
        } else if bits == 246 {
            0
        } else if bits == 247 {
            0
        } else if bits == 248 {
            0
        } else if bits == 249 {
            0
        } else if bits == 250 {
            0
        } else if bits == 251 {
            0
        } else if bits == 252 {
            0
        } else if bits == 253 {
            0
        } else if bits == 254 {
            0
        } else if bits == 255 {
            0
        } else {
            1073741824
        }
    }
}

/// Executable exponential table.
fn exp_q30(v: FP8) -> (r: u32)
    ensures
        r == exp_q30_of(v.spec_bits()),
        r <= 0x40000000,
{
    let b = v.to_bits();
    if b < 128 {
        return 0x4000_0000;
    }
    match b {
        128 => 1073741824,
        129 => 1073741824,
        130 => 1073741824,
        131 => 1073741824,
        132 => 1073741824,
        133 => 1073741824,
        134 => 1073741824,
        135 => 1073741824,
        136 => 1057095000,
        137 => 1055032376,
        138 => 1052973777,
        139 => 1050919195,
        140 => 1048868621,
        141 => 1046822049,
        142 => 1044779470,
        143 => 1042740877,
        144 => 1040706261,
        145 => 1036648932,
        146 => 1032607421,
        147 => 1028581666,
        148 => 1024571606,
        149 => 1020577180,
        150 => 1016598326,
        151 => 1012634985,
        152 => 1008687096,
        153 => 1000837430,
        154 => 993048852,
        155 => 985320884,
        156 => 977653056,
        157 => 970044900,
        158 => 962495950,
        159 => 955005748,
        160 => 947573834,
        161 => 932883063,
        162 => 918420052,
        163 => 904181269,
        164 => 890163238,
        165 => 876362536,
        166 => 862775794,
        167 => 849399695,
        168 => 836230973,
        169 => 810502851,
        170 => 785566300,
        171 => 761396966,
        172 => 737971244,
        173 => 715266256,
        174 => 693259826,
        175 => 671930464,
        176 => 651257337,
        177 => 611799650,
        178 => 574732583,
        179 => 539911296,
        180 => 507199724,
        181 => 476470046,
        182 => 447602185,
        183 => 420483340,
        184 => 395007542,
        185 => 348592932,
        186 => 307632183,
        187 => 271484449,
        188 => 239584185,
        189 => 211432301,
        190 => 186588351,
        191 => 164663642,
        192 => 145315154,
        193 => 113171556,
        194 => 88138096,
        195 => 68642018,
        196 => 53458458,
        197 => 41633489,
        198 => 32424194,
        199 => 25251987,
        200 => 19666268,
        201 => 11928194,
        202 => 7234816,
        203 => 4388137,
        204 => 2661540,
        205 => 1614306,
        206 => 979126,
        207 => 593870,
        208 => 360200,
        209 => 132510,
        210 => 48748,
        211 => 17933,
        212 => 6597,
        213 => 2427,
        214 => 893,
        215 => 328,
        216 => 121,
        217 => 16,
        218 => 2,
        219 => 0,
        220 => 0,
        221 => 0,
        222 => 0,
        223 => 0,
        224 => 0,
        225 => 0,
        226 => 0,
        227 => 0,
        228 => 0,
        229 => 0,
        230 => 0,
        231 => 0,
        232 => 0,
        233 => 0,
        234 => 0,
        235 => 0,
        236 => 0,
        237 => 0,
        238 => 0,
        239 => 0,
        240 => 0,
        241 => 0,
        242 => 0,
        243 => 0,
        244 => 0,
        245 => 0,
        246 => 0,
        247 => 0,
        248 => 0,
        249 => 0,
        250 => 0,
        251 => 0,
        252 => 0,
        253 => 0,
        254 => 0,
        255 => 0,
        _ => 0x4000_0000,
    }
}

/// The largest decoded value among the first k entries (k >= 1).
pub open spec fn max_val(s: Seq<u8>, k: int) -> int
    decreases k,
{
    if k <= 1 {
        val_q9(s[0])
    } else {
        let m = max_val(s, k - 1);
        if val_q9(s[k - 1]) > m {
            val_q9(s[k - 1])
        } else {
            m
        }
    }
}

/// The exponential term of entry i: the entry less the row maximum,
/// re-quantized, run through the table.
pub open spec fn sm_exp(s: Seq<u8>, i: int) -> int {
    exp_q30_of(enc_q(val_q9(s[i]) - max_val(s, s.len() as int), 9)) as int
}

/// The sum of the first k exponential terms.
pub open spec fn sm_sum(s: Seq<u8>, k: int) -> int
    decreases k,
{
    if k <= 0 {
        0
    } else {
        sm_sum(s, k - 1) + sm_exp(s, k - 1)
    }
}

/// The normalized weight of entry i at 30 fraction bits.
pub open spec fn softmax_weight(s: Seq<u8>, i: int) -> int {
    (sm_exp(s, i) * 0x40000000) / sm_sum(s, s.len() as int)
}

/// Every partial sum dominates each of its terms.
proof fn lemma_sm_sum_lower(s: Seq<u8>, t: int, k: int)
    requires
        0 <= t < k,
    ensures
        sm_sum(s, k) >= sm_exp(s, t),
        sm_sum(s, k) >= 0,
    decreases k,
{
    if k > 0 {
        if t < k - 1 {
            lemma_sm_sum_lower(s, t, k - 1);
        } else {
            lemma_sm_sum_nonneg(s, k - 1);
        }
    }
}

/// Exponential terms are non-negative, so partial sums are.
proof fn lemma_sm_sum_nonneg(s: Seq<u8>, k: int)
    ensures
        sm_sum(s, k) >= 0,
    decreases k,
{
    if k > 0 {
        lemma_sm_sum_nonneg(s, k - 1);
    }
}

/// The sum of the first k weights.
pub open spec fn weight_sum(s: Seq<u8>, k: int) -> int
    decreases k,
{
    if k <= 0 {
        0
    } else {
        weight_sum(s, k - 1) + softmax_weight(s, k - 1)
    }
}

/// Floors almost distribute over sums: the floor of a sum of two ratios
/// is the sum of the floors, up to one.
proof fn lemma_floor_add(a: int, b: int, d: int)
    requires
        d >= 1,
        a >= 0,
        b >= 0,
    ensures
        a / d + b / d <= (a + b) / d <= a / d + b / d + 1,
{
    vstd::arithmetic::div_mod::lemma_fundamental_div_mod(a, d);
    vstd::arithmetic::div_mod::lemma_fundamental_div_mod(b, d);
    vstd::arithmetic::div_mod::lemma_div_pos_is_pos(a, d);
    vstd::arithmetic::div_mod::lemma_div_pos_is_pos(b, d);
    assert((a / d + b / d) * d <= a + b) by (nonlinear_arith)
        requires
            a == d * (a / d) + a % d,
            b == d * (b / d) + b % d,
            a % d >= 0,
            b % d >= 0,
    ;
    crate::arith::lemma_div_at_least(a + b, d, a / d + b / d);
    assert(a + b < (a / d + b / d + 2) * d) by (nonlinear_arith)
        requires
            a == d * (a / d) + a % d,
            b == d * (b / d) + b % d,
            a % d < d,
            b % d < d,
    ;
    crate::arith::lemma_div_below(a + b, d, a / d + b / d + 2);
}

/// Some entry attains the maximum.
proof fn lemma_max_attained(s: Seq<u8>, k: int)
    requires
        1 <= k <= s.len(),
    ensures
        exists|t: int| 0 <= t < k && val_q9(s[t]) == max_val(s, k),
    decreases k,
{
    if k == 1 {
        assert(val_q9(s[0]) == max_val(s, 1));
    } else {
        lemma_max_attained(s, k - 1);
    }
}

/// The exponential sum of a non-empty row is at least one, because the
/// maximal entry's term is exactly one.
pub proof fn lemma_sm_sum_at_least_one(s: Seq<u8>)
    requires
        s.len() >= 1,
    ensures
        sm_sum(s, s.len() as int) >= 0x40000000,
{
    lemma_max_attained(s, s.len() as int);
    let t = choose|t: int| 0 <= t < s.len() && val_q9(s[t]) == max_val(s, s.len() as int);
    assert(enc_q(val_q9(s[t]) - max_val(s, s.len() as int), 9) == 0);
    assert(sm_exp(s, t) == 0x40000000);
    lemma_sm_sum_lower(s, t, s.len() as int);
}

/// The running weight sum tracks the exponential mass seen so far.
proof fn lemma_weight_sum_rec(s: Seq<u8>, k: int)
    requires
        0 <= k <= s.len(),
        s.len() >= 1,
    ensures
        (sm_sum(s, k) * 0x40000000) / sm_sum(s, s.len() as int) - k <= weight_sum(s, k),
        weight_sum(s, k) <= (sm_sum(s, k) * 0x40000000) / sm_sum(s, s.len() as int),
    decreases k,
{
    let sv = sm_sum(s, s.len() as int);
    lemma_sm_sum_at_least_one(s);
    if k == 0 {
        vstd::arithmetic::div_mod::lemma_div_of0(sv);
    } else {
        lemma_weight_sum_rec(s, k - 1);
        lemma_sm_sum_nonneg(s, k - 1);
        vstd::arithmetic::mul::lemma_mul_is_distributive_add_other_way(
            0x40000000,
            sm_sum(s, k - 1),
            sm_exp(s, k - 1),
        );
        lemma_floor_add(sm_sum(s, k - 1) * 0x40000000, sm_exp(s, k - 1) * 0x40000000, sv);
        assert(sm_exp(s, k - 1) * 0x40000000 >= 0) by (nonlinear_arith)
            requires
                sm_exp(s, k - 1) >= 0,
        ;
        assert(sm_sum(s, k - 1) * 0x40000000 >= 0) by (nonlinear_arith)
            requires
                sm_sum(s, k - 1) >= 0,
        ;
    }
}

/// Softmax weights sum to one within the quantization tolerance: for a
/// non-empty row of n entries, the weight sum lies within n parts in
/// 2^30 below one, and never exceeds one. Each weight is non-negative by
/// type. With the monotonicity lemma below, this is the softmax
/// invariant.
pub proof fn lemma_softmax_sum_to_one(s: Seq<u8>)
    requires
        s.len() >= 1,
    ensures
        0x40000000 - s.len() <= weight_sum(s, s.len() as int) <= 0x40000000,
{
    let n = s.len() as int;
    let sv = sm_sum(s, n);
    lemma_sm_sum_at_least_one(s);
    lemma_weight_sum_rec(s, n);
    vstd::arithmetic::mul::lemma_mul_is_commutative(sv, 0x40000000);
    vstd::arithmetic::div_mod::lemma_div_by_multiple(0x40000000, sv);
}

/// A larger exponential term never receives a smaller weight: softmax is
/// monotone in the exponentiated, re-quantized differences.
pub proof fn lemma_softmax_monotone(s: Seq<u8>, i: int, j: int)
    requires
        s.len() >= 1,
        0 <= i < s.len(),
        0 <= j < s.len(),
        sm_exp(s, i) <= sm_exp(s, j),
    ensures
        softmax_weight(s, i) <= softmax_weight(s, j),
{
    let sv = sm_sum(s, s.len() as int);
    lemma_sm_sum_at_least_one(s);
    vstd::arithmetic::mul::lemma_mul_inequality(sm_exp(s, i), sm_exp(s, j), 0x40000000);
    vstd::arithmetic::div_mod::lemma_div_is_ordered(
        sm_exp(s, i) * 0x40000000,
        sm_exp(s, j) * 0x40000000,
        sv,
    );
}

/// Softmax: subtract the row maximum, exponentiate, normalize by the
/// exact sum. Weights are at 30 fraction bits; each is between zero and
/// one. The empty input yields the empty output.
pub fn softmax(input: &[FP8]) -> (r: Vec<u32>)
    ensures
        r@.len() == input@.len(),
        forall|i: int|
            0 <= i < r@.len() ==> r@[i] == softmax_weight(bits_of(input@), i),
        forall|i: int| 0 <= i < r@.len() ==> r@[i] <= 0x40000000,
{
    let ghost s = bits_of(input@);
    let n = input.len();
    let mut r: Vec<u32> = Vec::new();
    if n == 0 {
        return r;
    }
    let mut maxv: i64 = input[0].decode_q9();
    let mut am: usize = 0;
    let mut i: usize = 1;
    while i < n
        invariant
            1 <= i <= n,
            n == s.len(),
            s == bits_of(input@),
            input@.len() == n,
            am < i,
            maxv == max_val(s, i as int),
            maxv == val_q9(s[am as int]),
            -245760 <= maxv <= 245760,
        decreases n - i,
    {
        let v = input[i].decode_q9();
        if v > maxv {
            maxv = v;
            am = i;
        }
        i = i + 1;
    }
    let mut exps: Vec<u32> = Vec::new();
    let mut total: u128 = 0;
    let mut i2: usize = 0;
    while i2 < n
        invariant
            0 <= i2 <= n,
            n == s.len(),
            s == bits_of(input@),
            input@.len() == n,
            am < n,
            maxv == max_val(s, n as int),
            maxv == val_q9(s[am as int]),
            -245760 <= maxv <= 245760,
            exps@.len() == i2,
            forall|t: int| 0 <= t < i2 ==> exps@[t] == sm_exp(s, t),
            forall|t: int| 0 <= t < i2 ==> exps@[t] <= 0x40000000,
            total == sm_sum(s, i2 as int),
            total <= (i2 as int) * 0x40000000,
        decreases n - i2,
    {
        let d = fp8_enc(input[i2].decode_q9() - maxv, 9);
        let e = exp_q30(d);
        exps.push(e);
        proof {
            assert((i2 as int) * 0x40000000 + 0x40000000 == ((i2 as int) + 1) * 0x40000000)
                by (nonlinear_arith);
            vstd::arithmetic::mul::lemma_mul_upper_bound(
                (i2 as int) + 1,
                0x10000000000000000,
                0x40000000,
                0x40000000,
            );
        }
        total = total + (e as u128);
        i2 = i2 + 1;
    }
    proof {
        lemma_sm_sum_lower(s, am as int, n as int);
        assert(enc_q(val_q9(s[am as int]) - maxv, 9) == 0);
        assert(sm_exp(s, am as int) == 0x40000000);
        assert(total >= 0x40000000);
    }
    let mut i3: usize = 0;
    while i3 < n
        invariant
            0 <= i3 <= n,
            n == s.len(),
            s == bits_of(input@),
            input@.len() == n,
            exps@.len() == n,
            forall|t: int| 0 <= t < n ==> exps@[t] == sm_exp(s, t),
            forall|t: int| 0 <= t < n ==> exps@[t] <= 0x40000000,
            total == sm_sum(s, n as int),
            total >= 0x40000000,
            r@.len() == i3,
            forall|t: int| 0 <= t < i3 ==> r@[t] == softmax_weight(s, t),
            forall|t: int| 0 <= t < i3 ==> r@[t] <= 0x40000000,
        decreases n - i3,
    {
        let e = exps[i3];
        let w64: u128 = ((e as u128) * 0x4000_0000) / total;
        proof {
            lemma_sm_sum_lower(s, i3 as int, n as int);
            vstd::arithmetic::mul::lemma_mul_inequality(
                e as int,
                total as int,
                0x40000000,
            );
            vstd::arithmetic::mul::lemma_mul_is_commutative(total as int, 0x40000000);
            vstd::arithmetic::div_mod::lemma_div_is_ordered(
                (e as int) * 0x40000000,
                (total as int) * 0x40000000,
                total as int,
            );
            vstd::arithmetic::div_mod::lemma_div_by_multiple(0x40000000, total as int);
        }
        r.push(w64 as u32);
        i3 = i3 + 1;
    }
    r
}


/// The rectified linear unit on a pattern: positive values pass through
/// unchanged (their conversion round trip is exact), everything else
/// becomes the zero pattern.
pub open spec fn relu_byte(bits: u8) -> u8 {
    if val_q9(bits) > 0 {
        bits
    } else {
        0
    }
}

/// The quantized Gaussian error linear unit: for each pattern, the value
/// of the approximation 0.5 * x * (1 + tanh(0.7978845608 * (x +
/// 0.044715 * x^3))) at the pattern's value, truncated to the format.
pub open spec fn gelu_byte(bits: u8) -> u8 {
    if bits == 0 {
        0
    } else if bits == 1 {
        0
    } else if bits == 2 {
        0
    } else if bits == 3 {
        0
    } else if bits == 4 {
        0
    } else if bits == 5 {
        0
    } else if bits == 6 {
        0
    } else if bits == 7 {
        0
    } else if bits == 8 {
        0
    } else if bits == 9 {
        1
    } else if bits == 10 {
        2
    } else if bits == 11 {
        3
    } else if bits == 12 {
        4
    } else if bits == 13 {
        5
    } else if bits == 14 {
        6
    } else if bits == 15 {
        7
    } else if bits == 16 {
        8
    } else if bits == 17 {
        9
    } else if bits == 18 {
        10
    } else if bits == 19 {
        11
    } else if bits == 20 {
        12
    } else if bits == 21 {
        13
    } else if bits == 22 {
        14
    } else if bits == 23 {
        15
    } else if bits == 24 {
        16
    } else if bits == 25 {
        17
    } else if bits == 26 {
        18
    } else if bits == 27 {
        19
    } else if bits == 28 {
        20
    } else if bits == 29 {
        22
    } else if bits == 30 {
        23
    } else if bits == 31 {
        24
    } else if bits == 32 {
        24
    } else if bits == 33 {
        26
    } else if bits == 34 {
        27
    } else if bits == 35 {
        28
    } else if bits == 36 {
        29
    } else if bits == 37 {
        31
    } else if bits == 38 {
        32
    } else if bits == 39 {
        32
    } else if bits == 40 {
        33
    } else if bits == 41 {
        34
    } else if bits == 42 {
        36
    } else if bits == 43 {
        37
    } else if bits == 44 {
        39
    } else if bits == 45 {
        40
    } else if bits == 46 {
        41
    } else if bits == 47 {
        42
    } else if bits == 48 {
        43
    } else if bits == 49 {
        44
    } else if bits == 50 {
        46
    } else if bits == 51 {
        48
    } else if bits == 52 {
        49
    } else if bits == 53 {
        50
    } else if bits == 54 {
        51
    } else if bits == 55 {
        52
    } else if bits == 56 {
        53
    } else if bits == 57 {
        55
    } else if bits == 58 {
        56
    } else if bits == 59 {
        58
    } else if bits == 60 {
        59
    } else if bits == 61 {
        60
    } else if bits == 62 {
        61
    } else if bits == 63 {
        62
    } else if bits == 64 {
        63
    } else if bits == 65 {
        64
    } else if bits == 66 {
        65
    } else if bits == 67 {
        66
    } else if bits == 68 {
        67
    } else if bits == 69 {
        68
    } else if bits == 70 {
        69
    } else if bits == 71 {
        70
    } else if bits == 72 {
        71
    } else if bits == 73 {
        72
    } else if bits == 74 {
        73
    } else if bits == 75 {
        74
    } else if bits == 76 {
        75
    } else if bits == 77 {
        76
    } else if bits == 78 {
        77
    } else if bits == 79 {
        79
    } else if bits == 80 {
        80
    } else if bits == 81 {
        81
    } else if bits == 82 {
        82
    } else if bits == 83 {
        83
    } else if bits == 84 {
        84
    } else if bits == 85 {
        85
    } else if bits == 86 {
        86
    } else if bits == 87 {
        87
    } else if bits == 88 {
        88
    } else if bits == 89 {
        89
    } else if bits == 90 {
        90
    } else if bits == 91 {
        91
    } else if bits == 92 {
        92
    } else if bits == 93 {
        93
    } else if bits == 94 {
        94
    } else if bits == 95 {
        95
    } else if bits == 96 {
        96
    } else if bits == 97 {
        97
    } else if bits == 98 {
        98
    } else if bits == 99 {
        99
    } else if bits == 100 {
        100
    } else if bits == 101 {
        101
    } else if bits == 102 {
        102
    } else if bits == 103 {
        103
    } else if bits == 104 {
        104
    } else if bits == 105 {
        105
    } else if bits == 106 {
        106
    } else if bits == 107 {
        107
    } else if bits == 108 {
        108
    } else if bits == 109 {
        109
    } else if bits == 110 {
        110
    } else if bits == 111 {
        111
    } else if bits == 112 {
        112
    } else if bits == 113 {
        113
    } else if bits == 114 {
        114
    } else if bits == 115 {
        115
    } else if bits == 116 {
        116
    } else if bits == 117 {
        117
    } else if bits == 118 {
        118
    } else if bits == 119 {
        119
    } else if bits == 120 {
        120
    } else if bits == 121 {
        121
    } else if bits == 122 {
        122
    } else if bits == 123 {
        123
    } else if bits == 124 {
        124
    } else if bits == 125 {
        125
    } else if bits == 126 {
        126
    } else if bits == 127 {
        127
    } else if bits == 128 {
        0
    } else if bits == 129 {
        0
    } else if bits == 130 {
        0
    } else if bits == 131 {
        0
    } else if bits == 132 {
        0
    } else if bits == 133 {
        0
    } else if bits == 134 {
        0
    } else if bits == 135 {
        0
    } else if bits == 136 {
        135
    } else if bits == 137 {
        128
    } else if bits == 138 {
        129
    } else if bits == 139 {
        130
    } else if bits == 140 {
        131
    } else if bits == 141 {
        132
    } else if bits == 142 {
        133
    } else if bits == 143 {
        134
    } else if bits == 144 {
        135
    } else if bits == 145 {
        136
    } else if bits == 146 {
        137
    } else if bits == 147 {
        138
    } else if bits == 148 {
        139
    } else if bits == 149 {
        140
    } else if bits == 150 {
        141
    } else if bits == 151 {
        142
    } else if bits == 152 {
        143
    } else if bits == 153 {
        144
    } else if bits == 154 {
        145
    } else if bits == 155 {
        146
    } else if bits == 156 {
        147
    } else if bits == 157 {
        147
    } else if bits == 158 {
        148
    } else if bits == 159 {
        149
    } else if bits == 160 {
        150
    } else if bits == 161 {
        151
    } else if bits == 162 {
        152
    } else if bits == 163 {
        153
    } else if bits == 164 {
        154
    } else if bits == 165 {
        154
    } else if bits == 166 {
        155
    } else if bits == 167 {
        156
    } else if bits == 168 {
        156
    } else if bits == 169 {
        158
    } else if bits == 170 {
        159
    } else if bits == 171 {
        160
    } else if bits == 172 {
        160
    } else if bits == 173 {
        160
    } else if bits == 174 {
        161
    } else if bits == 175 {
        161
    } else if bits == 176 {
        161
    } else if bits == 177 {
        162
    } else if bits == 178 {
        162
    } else if bits == 179 {
        162
    } else if bits == 180 {
        162
    } else if bits == 181 {
        162
    } else if bits == 182 {
        162
    } else if bits == 183 {
        162
    } else if bits == 184 {
        162
    } else if bits == 185 {
        161
    } else if bits == 186 {
        160
    } else if bits == 187 {
        158
    } else if bits == 188 {
        156
    } else if bits == 189 {
        154
    } else if bits == 190 {
        152
    } else if bits == 191 {
        150
    } else if bits == 192 {
        147
    } else if bits == 193 {
        141
    } else if bits == 194 {
        135
    } else if bits == 195 {
        135
    } else if bits == 196 {
        134
    } else if bits == 197 {
        132
    } else if bits == 198 {
        130
    } else if bits == 199 {
        134
    } else if bits == 200 {
        129
    } else if bits == 201 {
        130
    } else if bits == 202 {
        135
    } else if bits == 203 {
        132
    } else if bits == 204 {
        131
    } else if bits == 205 {
        131
    } else if bits == 206 {
        130
    } else if bits == 207 {
        0
    } else if bits == 208 {
        0
    } else if bits == 209 {
        0
    } else if bits == 210 {
        0
    } else if bits == 211 {
        0
    } else if bits == 212 {
        0
    } else if bits == 213 {
        0
    } else if bits == 214 {
        0
    } else if bits == 215 {
        0
    } else if bits == 216 {
        0
    } else if bits == 217 {
        0
    } else if bits == 218 {
        0
    } else if bits == 219 {
        0
    } else if bits == 220 {
        0
    } else if bits == 221 {
        0
    } else if bits == 222 {
        0
    } else if bits == 223 {
        0
    } else if bits == 224 {
        0
    } else if bits == 225 {
        0
    } else if bits == 226 {
        0
    } else if bits == 227 {
        0
    } else if bits == 228 {
        0
    } else if bits == 229 {
        0
    } else if bits == 230 {
        0
    } else if bits == 231 {
        0
    } else if bits == 232 {
        0
    } else if bits == 233 {
        0
    } else if bits == 234 {
        0
    } else if bits == 235 {
        0
    } else if bits == 236 {
        0
    } else if bits == 237 {
        0
    } else if bits == 238 {
        0
    } else if bits == 239 {
        0
    } else if bits == 240 {
        0
    } else if bits == 241 {
        0
    } else if bits == 242 {
        0
    } else if bits == 243 {
        0
    } else if bits == 244 {
        0
    } else if bits == 245 {
        0
    } else if bits == 246 {
        0
    } else if bits == 247 {
        0
    } else if bits == 248 {
        0
    } else if bits == 249 {
        0
    } else if bits == 250 {
        0
    } else if bits == 251 {
        0
    } else if bits == 252 {
        0
    } else if bits == 253 {
        0
    } else if bits == 254 {
        0
    } else if bits == 255 {
        0
    } else {
        0
    }
}

/// The quantized swish: for each pattern, x / (1 + exp(-x)) at the
/// pattern's value, truncated to the format.
pub open spec fn swish_byte(bits: u8) -> u8 {
    if bits == 0 {
        0
    } else if bits == 1 {
        0
    } else if bits == 2 {
        0
    } else if bits == 3 {
        0
    } else if bits == 4 {
        0
    } else if bits == 5 {
        0
    } else if bits == 6 {
        0
    } else if bits == 7 {
        0
    } else if bits == 8 {
        0
    } else if bits == 9 {
        1
    } else if bits == 10 {
        2
    } else if bits == 11 {
        3
    } else if bits == 12 {
        4
    } else if bits == 13 {
        5
    } else if bits == 14 {
        6
    } else if bits == 15 {
        7
    } else if bits == 16 {
        8
    } else if bits == 17 {
        9
    } else if bits == 18 {
        10
    } else if bits == 19 {
        11
    } else if bits == 20 {
        12
    } else if bits == 21 {
        13
    } else if bits == 22 {
        14
    } else if bits == 23 {
        15
    } else if bits == 24 {
        16
    } else if bits == 25 {
        17
    } else if bits == 26 {
        18
    } else if bits == 27 {
        19
    } else if bits == 28 {
        20
    } else if bits == 29 {
        21
    } else if bits == 30 {
        22
    } else if bits == 31 {
        23
    } else if bits == 32 {
        24
    } else if bits == 33 {
        25
    } else if bits == 34 {
        26
    } else if bits == 35 {
        27
    } else if bits == 36 {
        29
    } else if bits == 37 {
        30
    } else if bits == 38 {
        31
    } else if bits == 39 {
        32
    } else if bits == 40 {
        32
    } else if bits == 41 {
        34
    } else if bits == 42 {
        35
    } else if bits == 43 {
        36
    } else if bits == 44 {
        38
    } else if bits == 45 {
        39
    } else if bits == 46 {
        40
    } else if bits == 47 {
        41
    } else if bits == 48 {
        41
    } else if bits == 49 {
        43
    } else if bits == 50 {
        45
    } else if bits == 51 {
        46
    } else if bits == 52 {
        48
    } else if bits == 53 {
        49
    } else if bits == 54 {
        49
    } else if bits == 55 {
        50
    } else if bits == 56 {
        51
    } else if bits == 57 {
        53
    } else if bits == 58 {
        55
    } else if bits == 59 {
        56
    } else if bits == 60 {
        57
    } else if bits == 61 {
        58
    } else if bits == 62 {
        59
    } else if bits == 63 {
        61
    } else if bits == 64 {
        62
    } else if bits == 65 {
        64
    } else if bits == 66 {
        65
    } else if bits == 67 {
        66
    } else if bits == 68 {
        67
    } else if bits == 69 {
        68
    } else if bits == 70 {
        69
    } else if bits == 71 {
        70
    } else if bits == 72 {
        71
    } else if bits == 73 {
        72
    } else if bits == 74 {
        73
    } else if bits == 75 {
        74
    } else if bits == 76 {
        75
    } else if bits == 77 {
        76
    } else if bits == 78 {
        77
    } else if bits == 79 {
        78
    } else if bits == 80 {
        79
    } else if bits == 81 {
        80
    } else if bits == 82 {
        81
    } else if bits == 83 {
        82
    } else if bits == 84 {
        83
    } else if bits == 85 {
        84
    } else if bits == 86 {
        85
    } else if bits == 87 {
        86
    } else if bits == 88 {
        87
    } else if bits == 89 {
        88
    } else if bits == 90 {
        89
    } else if bits == 91 {
        90
    } else if bits == 92 {
        91
    } else if bits == 93 {
        92
    } else if bits == 94 {
        93
    } else if bits == 95 {
        94
    } else if bits == 96 {
        95
    } else if bits == 97 {
        96
    } else if bits == 98 {
        98
    } else if bits == 99 {
        99
    } else if bits == 100 {
        100
    } else if bits == 101 {
        101
    } else if bits == 102 {
        102
    } else if bits == 103 {
        103
    } else if bits == 104 {
        104
    } else if bits == 105 {
        105
    } else if bits == 106 {
        106
    } else if bits == 107 {
        107
    } else if bits == 108 {
        108
    } else if bits == 109 {
        109
    } else if bits == 110 {
        110
    } else if bits == 111 {
        111
    } else if bits == 112 {
        112
    } else if bits == 113 {
        113
    } else if bits == 114 {
        114
    } else if bits == 115 {
        115
    } else if bits == 116 {
        116
    } else if bits == 117 {
        117
    } else if bits == 118 {
        118
    } else if bits == 119 {
        119
    } else if bits == 120 {
        120
    } else if bits == 121 {
        121
    } else if bits == 122 {
        122
    } else if bits == 123 {
        123
    } else if bits == 124 {
        124
    } else if bits == 125 {
        125
    } else if bits == 126 {
        126
    } else if bits == 127 {
        127
    } else if bits == 128 {
        0
    } else if bits == 129 {
        0
    } else if bits == 130 {
        0
    } else if bits == 131 {
        0
    } else if bits == 132 {
        0
    } else if bits == 133 {
        0
    } else if bits == 134 {
        0
    } else if bits == 135 {
        0
    } else if bits == 136 {
        135
    } else if bits == 137 {
        128
    } else if bits == 138 {
        129
    } else if bits == 139 {
        130
    } else if bits == 140 {
        131
    } else if bits == 141 {
        132
    } else if bits == 142 {
        133
    } else if bits == 143 {
        134
    } else if bits == 144 {
        135
    } else if bits == 145 {
        136
    } else if bits == 146 {
        137
    } else if bits == 147 {
        138
    } else if bits == 148 {
        139
    } else if bits == 149 {
        140
    } else if bits == 150 {
        141
    } else if bits == 151 {
        142
    } else if bits == 152 {
        143
    } else if bits == 153 {
        144
    } else if bits == 154 {
        145
    } else if bits == 155 {
        146
    } else if bits == 156 {
        147
    } else if bits == 157 {
        148
    } else if bits == 158 {
        149
    } else if bits == 159 {
        150
    } else if bits == 160 {
        151
    } else if bits == 161 {
        152
    } else if bits == 162 {
        153
    } else if bits == 163 {
        154
    } else if bits == 164 {
        154
    } else if bits == 165 {
        155
    } else if bits == 166 {
        156
    } else if bits == 167 {
        157
    } else if bits == 168 {
        158
    } else if bits == 169 {
        159
    } else if bits == 170 {
        160
    } else if bits == 171 {
        161
    } else if bits == 172 {
        161
    } else if bits == 173 {
        162
    } else if bits == 174 {
        162
    } else if bits == 175 {
        163
    } else if bits == 176 {
        164
    } else if bits == 177 {
        165
    } else if bits == 178 {
        165
    } else if bits == 179 {
        166
    } else if bits == 180 {
        167
    } else if bits == 181 {
        167
    } else if bits == 182 {
        168
    } else if bits == 183 {
        168
    } else if bits == 184 {
        168
    } else if bits == 185 {
        168
    } else if bits == 186 {
        168
    } else if bits == 187 {
        168
    } else if bits == 188 {
        168
    } else if bits == 189 {
        168
    } else if bits == 190 {
        168
    } else if bits == 191 {
        167
    } else if bits == 192 {
        167
    } else if bits == 193 {
        165
    } else if bits == 194 {
        164
    } else if bits == 195 {
        162
    } else if bits == 196 {
        161
    } else if bits == 197 {
        159
    } else if bits == 198 {
        157
    } else if bits == 199 {
        155
    } else if bits == 200 {
        153
    } else if bits == 201 {
        148
    } else if bits == 202 {
        144
    } else if bits == 203 {
        139
    } else if bits == 204 {
        135
    } else if bits == 205 {
        129
    } else if bits == 206 {
        133
    } else if bits == 207 {
        128
    } else if bits == 208 {
        130
    } else if bits == 209 {
        129
    } else if bits == 210 {
        134
    } else if bits == 211 {
        132
    } else if bits == 212 {
        129
    } else if bits == 213 {
        135
    } else if bits == 214 {
        132
    } else if bits == 215 {
        129
    } else if bits == 216 {
        135
    } else if bits == 217 {
        129
    } else if bits == 218 {
        131
    } else if bits == 219 {
        133
    } else if bits == 220 {
        135
    } else if bits == 221 {
        129
    } else if bits == 222 {
        130
    } else if bits == 223 {
        132
    } else if bits == 224 {
        134
    } else if bits == 225 {
        129
    } else if bits == 226 {
        132
    } else if bits == 227 {
        135
    } else if bits == 228 {
        130
    } else if bits == 229 {
        132
    } else if bits == 230 {
        128
    } else if bits == 231 {
        130
    } else if bits == 232 {
        132
    } else if bits == 233 {
        129
    } else if bits == 234 {
        134
    } else if bits == 235 {
        131
    } else if bits == 236 {
        128
    } else if bits == 237 {
        132
    } else if bits == 238 {
        129
    } else if bits == 239 {
        133
    } else if bits == 240 {
        130
    } else if bits == 241 {
        130
    } else if bits == 242 {
        131
    } else if bits == 243 {
        131
    } else if bits == 244 {
        132
    } else if bits == 245 {
        132
    } else if bits == 246 {
        132
    } else if bits == 247 {
        132
    } else if bits == 248 {
        132
    } else if bits == 249 {
        132
    } else if bits == 250 {
        132
    } else if bits == 251 {
        132
    } else if bits == 252 {
        132
    } else if bits == 253 {
        131
    } else if bits == 254 {
        131
    } else if bits == 255 {
        130
    } else {
        0
    }
}

/// Activation functions applied elementwise to a tensor.
#[derive(Debug, Clone, Copy)]
pub enum ActivationType {
    ReLU,
    GELU,
    Swish,
}

/// Rectified linear unit.
fn relu(x: FP8) -> (r: FP8)
    ensures
        r.spec_bits() == relu_byte(x.spec_bits()),
{
    let v = x.decode_q9();
    if v > 0 {
        x
    } else {
        FP8::from_bits(0)
    }
}

/// Gaussian error linear unit, via the fixed table.
fn gelu(x: FP8) -> (r: FP8)
    ensures
        r.spec_bits() == gelu_byte(x.spec_bits()),
{
    let b = x.to_bits();
    let o: u8 = match b {
        0 => 0,
        1 => 0,
        2 => 0,
        3 => 0,
        4 => 0,
        5 => 0,
        6 => 0,
        7 => 0,
        8 => 0,
        9 => 1,
        10 => 2,
        11 => 3,
        12 => 4,
        13 => 5,
        14 => 6,
        15 => 7,
        16 => 8,
        17 => 9,
        18 => 10,
        19 => 11,
        20 => 12,
        21 => 13,
        22 => 14,
        23 => 15,
        24 => 16,
        25 => 17,
        26 => 18,
        27 => 19,
        28 => 20,
        29 => 22,
        30 => 23,
        31 => 24,
        32 => 24,
        33 => 26,
        34 => 27,
        35 => 28,
        36 => 29,
        37 => 31,
        38 => 32,
        39 => 32,
        40 => 33,
        41 => 34,
        42 => 36,
        43 => 37,
        44 => 39,
        45 => 40,
        46 => 41,
        47 => 42,
        48 => 43,
        49 => 44,
        50 => 46,
        51 => 48,
        52 => 49,
        53 => 50,
        54 => 51,
        55 => 52,
        56 => 53,
        57 => 55,
        58 => 56,
        59 => 58,
        60 => 59,
        61 => 60,
        62 => 61,
        63 => 62,
        64 => 63,
        65 => 64,
        66 => 65,
        67 => 66,
        68 => 67,
        69 => 68,
        70 => 69,
        71 => 70,
        72 => 71,
        73 => 72,
        74 => 73,
        75 => 74,
        76 => 75,
        77 => 76,
        78 => 77,
        79 => 79,
        80 => 80,
        81 => 81,
        82 => 82,
        83 => 83,
        84 => 84,
        85 => 85,
        86 => 86,
        87 => 87,
        88 => 88,
        89 => 89,
        90 => 90,
        91 => 91,
        92 => 92,
        93 => 93,
        94 => 94,
        95 => 95,
        96 => 96,
        97 => 97,
        98 => 98,
        99 => 99,
        100 => 100,
        101 => 101,
        102 => 102,
        103 => 103,
        104 => 104,
        105 => 105,
        106 => 106,
        107 => 107,
        108 => 108,
        109 => 109,
        110 => 110,
        111 => 111,
        112 => 112,
        113 => 113,
        114 => 114,
        115 => 115,
        116 => 116,
        117 => 117,
        118 => 118,
        119 => 119,
        120 => 120,
        121 => 121,
        122 => 122,
        123 => 123,
        124 => 124,
        125 => 125,
        126 => 126,
        127 => 127,
        128 => 0,
        129 => 0,
        130 => 0,
        131 => 0,
        132 => 0,
        133 => 0,
        134 => 0,
        135 => 0,
        136 => 135,
        137 => 128,
        138 => 129,
        139 => 130,
        140 => 131,
        141 => 132,
        142 => 133,
        143 => 134,
        144 => 135,
        145 => 136,
        146 => 137,
        147 => 138,
        148 => 139,
        149 => 140,
        150 => 141,
        151 => 142,
        152 => 143,
        153 => 144,
        154 => 145,
        155 => 146,
        156 => 147,
        157 => 147,
        158 => 148,
        159 => 149,
        160 => 150,
        161 => 151,
        162 => 152,
        163 => 153,
        164 => 154,
        165 => 154,
        166 => 155,
        167 => 156,
        168 => 156,
        169 => 158,
        170 => 159,
        171 => 160,
        172 => 160,
        173 => 160,
        174 => 161,
        175 => 161,
        176 => 161,
        177 => 162,
        178 => 162,
        179 => 162,
        180 => 162,
        181 => 162,
        182 => 162,
        183 => 162,
        184 => 162,
        185 => 161,
        186 => 160,
        187 => 158,
        188 => 156,
        189 => 154,
        190 => 152,
        191 => 150,
        192 => 147,
        193 => 141,
        194 => 135,
        195 => 135,
        196 => 134,
        197 => 132,
        198 => 130,
        199 => 134,
        200 => 129,
        201 => 130,
        202 => 135,
        203 => 132,
        204 => 131,
        205 => 131,
        206 => 130,
        207 => 0,
        208 => 0,
        209 => 0,
        210 => 0,
        211 => 0,
        212 => 0,
        213 => 0,
        214 => 0,
        215 => 0,
        216 => 0,
        217 => 0,
        218 => 0,
        219 => 0,
        220 => 0,
        221 => 0,
        222 => 0,
        223 => 0,
        224 => 0,
        225 => 0,
        226 => 0,
        227 => 0,
        228 => 0,
        229 => 0,
        230 => 0,
        231 => 0,
        232 => 0,
        233 => 0,
        234 => 0,
        235 => 0,
        236 => 0,
        237 => 0,
        238 => 0,
        239 => 0,
        240 => 0,
        241 => 0,
        242 => 0,
        243 => 0,
        244 => 0,
        245 => 0,
        246 => 0,
        247 => 0,
        248 => 0,
        249 => 0,
        250 => 0,
        251 => 0,
        252 => 0,
        253 => 0,
        254 => 0,
        255 => 0,
    };
    FP8::from_bits(o)
}

/// Swish, via the fixed table.
fn swish(x: FP8) -> (r: FP8)
    ensures
        r.spec_bits() == swish_byte(x.spec_bits()),
{
    let b = x.to_bits();
    let o: u8 = match b {
        0 => 0,
        1 => 0,
        2 => 0,
        3 => 0,
        4 => 0,
        5 => 0,
        6 => 0,
        7 => 0,
        8 => 0,
        9 => 1,
        10 => 2,
        11 => 3,
        12 => 4,
        13 => 5,
        14 => 6,
        15 => 7,
        16 => 8,
        17 => 9,
        18 => 10,
        19 => 11,
        20 => 12,
        21 => 13,
        22 => 14,
        23 => 15,
        24 => 16,
        25 => 17,
        26 => 18,
        27 => 19,
        28 => 20,
        29 => 21,
        30 => 22,
        31 => 23,
        32 => 24,
        33 => 25,
        34 => 26,
        35 => 27,
        36 => 29,
        37 => 30,
        38 => 31,
        39 => 32,
        40 => 32,
        41 => 34,
        42 => 35,
        43 => 36,
        44 => 38,
        45 => 39,
        46 => 40,
        47 => 41,
        48 => 41,
        49 => 43,
        50 => 45,
        51 => 46,
        52 => 48,
        53 => 49,
        54 => 49,
        55 => 50,
        56 => 51,
        57 => 53,
        58 => 55,
        59 => 56,
        60 => 57,
        61 => 58,
        62 => 59,
        63 => 61,
        64 => 62,
        65 => 64,
        66 => 65,
        67 => 66,
        68 => 67,
        69 => 68,
        70 => 69,
        71 => 70,
        72 => 71,
        73 => 72,
        74 => 73,
        75 => 74,
        76 => 75,
        77 => 76,
        78 => 77,
        79 => 78,
        80 => 79,
        81 => 80,
        82 => 81,
        83 => 82,
        84 => 83,
        85 => 84,
        86 => 85,
        87 => 86,
        88 => 87,
        89 => 88,
        90 => 89,
        91 => 90,
        92 => 91,
        93 => 92,
        94 => 93,
        95 => 94,
        96 => 95,
        97 => 96,
        98 => 98,
        99 => 99,
        100 => 100,
        101 => 101,
        102 => 102,
        103 => 103,
        104 => 104,
        105 => 105,
        106 => 106,
        107 => 107,
        108 => 108,
        109 => 109,
        110 => 110,
        111 => 111,
        112 => 112,
        113 => 113,
        114 => 114,
        115 => 115,
        116 => 116,
        117 => 117,
        118 => 118,
        119 => 119,
        120 => 120,
        121 => 121,
        122 => 122,
        123 => 123,
        124 => 124,
        125 => 125,
        126 => 126,
        127 => 127,
        128 => 0,
        129 => 0,
        130 => 0,
        131 => 0,
        132 => 0,
        133 => 0,
        134 => 0,
        135 => 0,
        136 => 135,
        137 => 128,
        138 => 129,
        139 => 130,
        140 => 131,
        141 => 132,
        142 => 133,
        143 => 134,
        144 => 135,
        145 => 136,
        146 => 137,
        147 => 138,
        148 => 139,
        149 => 140,
        150 => 141,
        151 => 142,
        152 => 143,
        153 => 144,
        154 => 145,
        155 => 146,
        156 => 147,
        157 => 148,
        158 => 149,
        159 => 150,
        160 => 151,
        161 => 152,
        162 => 153,
        163 => 154,
        164 => 154,
        165 => 155,
        166 => 156,
        167 => 157,
        168 => 158,
        169 => 159,
        170 => 160,
        171 => 161,
        172 => 161,
        173 => 162,
        174 => 162,
        175 => 163,
        176 => 164,
        177 => 165,
        178 => 165,
        179 => 166,
        180 => 167,
        181 => 167,
        182 => 168,
        183 => 168,
        184 => 168,
        185 => 168,
        186 => 168,
        187 => 168,
        188 => 168,
        189 => 168,
        190 => 168,
        191 => 167,
        192 => 167,
        193 => 165,
        194 => 164,
        195 => 162,
        196 => 161,
        197 => 159,
        198 => 157,
        199 => 155,
        200 => 153,
        201 => 148,
        202 => 144,
        203 => 139,
        204 => 135,
        205 => 129,
        206 => 133,
        207 => 128,
        208 => 130,
        209 => 129,
        210 => 134,
        211 => 132,
        212 => 129,
        213 => 135,
        214 => 132,
        215 => 129,
        216 => 135,
        217 => 129,
        218 => 131,
        219 => 133,
        220 => 135,
        221 => 129,
        222 => 130,
        223 => 132,
        224 => 134,
        225 => 129,
        226 => 132,
        227 => 135,
        228 => 130,
        229 => 132,
        230 => 128,
        231 => 130,
        232 => 132,
        233 => 129,
        234 => 134,
        235 => 131,
        236 => 128,
        237 => 132,
        238 => 129,
        239 => 133,
        240 => 130,
        241 => 130,
        242 => 131,
        243 => 131,
        244 => 132,
        245 => 132,
        246 => 132,
        247 => 132,
        248 => 132,
        249 => 132,
        250 => 132,
        251 => 132,
        252 => 132,
        253 => 131,
        254 => 131,
        255 => 130,
    };
    FP8::from_bits(o)
}

/// The pattern an activation maps a pattern to.
pub open spec fn activation_byte(bits: u8, activation: ActivationType) -> u8 {
    match activation {
        ActivationType::ReLU => relu_byte(bits),
        ActivationType::GELU => gelu_byte(bits),
        ActivationType::Swish => swish_byte(bits),
    }
}

/// Apply an activation function to every element of a tensor.
pub fn apply_activation(data: &[FP8], activation: ActivationType) -> (r: Vec<FP8>)
    ensures
        r@.len() == data@.len(),
        forall|i: int|
            0 <= i < data@.len() ==> (#[trigger] r@[i]).spec_bits() == activation_byte(
                data@[i].spec_bits(),
                activation,
            ),
{
    let mut out: Vec<FP8> = Vec::new();
    let mut i: usize = 0;
    while i < data.len()
        invariant
            i <= data@.len(),
            out@.len() == i,
            forall|t: int|
                0 <= t < i ==> (#[trigger] out@[t]).spec_bits() == activation_byte(
                    data@[t].spec_bits(),
                    activation,
                ),
        decreases data@.len() - i,
    {
        let v = data[i];
        let o = match activation {
            ActivationType::ReLU => relu(v),
            ActivationType::GELU => gelu(v),
            ActivationType::Swish => swish(v),
        };
        out.push(o);
        i = i + 1;
    }
    out
}


/// Ground facts of the table: along the sign-bit patterns, the value
/// decreases and so does the table entry, step by step.
#[verifier::rlimit(60)]
proof fn lemma_table_step()
    ensures
        forall|b: u8| 128 <= b < 255 ==> #[trigger] exp_q30_of((b + 1) as u8) <= exp_q30_of(b),
        exp_q30_of(128) == 0x40000000,
{
    assert(exp_q30_of(129) <= exp_q30_of(128));
    assert(exp_q30_of(130) <= exp_q30_of(129));
    assert(exp_q30_of(131) <= exp_q30_of(130));
    assert(exp_q30_of(132) <= exp_q30_of(131));
    assert(exp_q30_of(133) <= exp_q30_of(132));
    assert(exp_q30_of(134) <= exp_q30_of(133));
    assert(exp_q30_of(135) <= exp_q30_of(134));
    assert(exp_q30_of(136) <= exp_q30_of(135));
    assert(exp_q30_of(137) <= exp_q30_of(136));
    assert(exp_q30_of(138) <= exp_q30_of(137));
    assert(exp_q30_of(139) <= exp_q30_of(138));
    assert(exp_q30_of(140) <= exp_q30_of(139));
    assert(exp_q30_of(141) <= exp_q30_of(140));
    assert(exp_q30_of(142) <= exp_q30_of(141));
    assert(exp_q30_of(143) <= exp_q30_of(142));
    assert(exp_q30_of(144) <= exp_q30_of(143));
    assert(exp_q30_of(145) <= exp_q30_of(144));
    assert(exp_q30_of(146) <= exp_q30_of(145));
    assert(exp_q30_of(147) <= exp_q30_of(146));
    assert(exp_q30_of(148) <= exp_q30_of(147));
    assert(exp_q30_of(149) <= exp_q30_of(148));
    assert(exp_q30_of(150) <= exp_q30_of(149));
    assert(exp_q30_of(151) <= exp_q30_of(150));
    assert(exp_q30_of(152) <= exp_q30_of(151));
    assert(exp_q30_of(153) <= exp_q30_of(152));
    assert(exp_q30_of(154) <= exp_q30_of(153));
    assert(exp_q30_of(155) <= exp_q30_of(154));
    assert(exp_q30_of(156) <= exp_q30_of(155));
    assert(exp_q30_of(157) <= exp_q30_of(156));
    assert(exp_q30_of(158) <= exp_q30_of(157));
    assert(exp_q30_of(159) <= exp_q30_of(158));
    assert(exp_q30_of(160) <= exp_q30_of(159));
    assert(exp_q30_of(161) <= exp_q30_of(160));
    assert(exp_q30_of(162) <= exp_q30_of(161));
    assert(exp_q30_of(163) <= exp_q30_of(162));
    assert(exp_q30_of(164) <= exp_q30_of(163));
    assert(exp_q30_of(165) <= exp_q30_of(164));
    assert(exp_q30_of(166) <= exp_q30_of(165));
    assert(exp_q30_of(167) <= exp_q30_of(166));
    assert(exp_q30_of(168) <= exp_q30_of(167));
    assert(exp_q30_of(169) <= exp_q30_of(168));
    assert(exp_q30_of(170) <= exp_q30_of(169));
    assert(exp_q30_of(171) <= exp_q30_of(170));
    assert(exp_q30_of(172) <= exp_q30_of(171));
    assert(exp_q30_of(173) <= exp_q30_of(172));
    assert(exp_q30_of(174) <= exp_q30_of(173));
    assert(exp_q30_of(175) <= exp_q30_of(174));
    assert(exp_q30_of(176) <= exp_q30_of(175));
    assert(exp_q30_of(177) <= exp_q30_of(176));
    assert(exp_q30_of(178) <= exp_q30_of(177));
    assert(exp_q30_of(179) <= exp_q30_of(178));
    assert(exp_q30_of(180) <= exp_q30_of(179));
    assert(exp_q30_of(181) <= exp_q30_of(180));
    assert(exp_q30_of(182) <= exp_q30_of(181));
    assert(exp_q30_of(183) <= exp_q30_of(182));
    assert(exp_q30_of(184) <= exp_q30_of(183));
    assert(exp_q30_of(185) <= exp_q30_of(184));
    assert(exp_q30_of(186) <= exp_q30_of(185));
    assert(exp_q30_of(187) <= exp_q30_of(186));
    assert(exp_q30_of(188) <= exp_q30_of(187));
    assert(exp_q30_of(189) <= exp_q30_of(188));
    assert(exp_q30_of(190) <= exp_q30_of(189));
    assert(exp_q30_of(191) <= exp_q30_of(190));
    assert(exp_q30_of(192) <= exp_q30_of(191));
    assert(exp_q30_of(193) <= exp_q30_of(192));
    assert(exp_q30_of(194) <= exp_q30_of(193));
    assert(exp_q30_of(195) <= exp_q30_of(194));
    assert(exp_q30_of(196) <= exp_q30_of(195));
    assert(exp_q30_of(197) <= exp_q30_of(196));
    assert(exp_q30_of(198) <= exp_q30_of(197));
    assert(exp_q30_of(199) <= exp_q30_of(198));
    assert(exp_q30_of(200) <= exp_q30_of(199));
    assert(exp_q30_of(201) <= exp_q30_of(200));
    assert(exp_q30_of(202) <= exp_q30_of(201));
    assert(exp_q30_of(203) <= exp_q30_of(202));
    assert(exp_q30_of(204) <= exp_q30_of(203));
    assert(exp_q30_of(205) <= exp_q30_of(204));
    assert(exp_q30_of(206) <= exp_q30_of(205));
    assert(exp_q30_of(207) <= exp_q30_of(206));
    assert(exp_q30_of(208) <= exp_q30_of(207));
    assert(exp_q30_of(209) <= exp_q30_of(208));
    assert(exp_q30_of(210) <= exp_q30_of(209));
    assert(exp_q30_of(211) <= exp_q30_of(210));
    assert(exp_q30_of(212) <= exp_q30_of(211));
    assert(exp_q30_of(213) <= exp_q30_of(212));
    assert(exp_q30_of(214) <= exp_q30_of(213));
    assert(exp_q30_of(215) <= exp_q30_of(214));
    assert(exp_q30_of(216) <= exp_q30_of(215));
    assert(exp_q30_of(217) <= exp_q30_of(216));
    assert(exp_q30_of(218) <= exp_q30_of(217));
    assert(exp_q30_of(219) <= exp_q30_of(218));
    assert(exp_q30_of(220) <= exp_q30_of(219));
    assert(exp_q30_of(221) <= exp_q30_of(220));
    assert(exp_q30_of(222) <= exp_q30_of(221));
    assert(exp_q30_of(223) <= exp_q30_of(222));
    assert(exp_q30_of(224) <= exp_q30_of(223));
    assert(exp_q30_of(225) <= exp_q30_of(224));
    assert(exp_q30_of(226) <= exp_q30_of(225));
    assert(exp_q30_of(227) <= exp_q30_of(226));
    assert(exp_q30_of(228) <= exp_q30_of(227));
    assert(exp_q30_of(229) <= exp_q30_of(228));
    assert(exp_q30_of(230) <= exp_q30_of(229));
    assert(exp_q30_of(231) <= exp_q30_of(230));
    assert(exp_q30_of(232) <= exp_q30_of(231));
    assert(exp_q30_of(233) <= exp_q30_of(232));
    assert(exp_q30_of(234) <= exp_q30_of(233));
    assert(exp_q30_of(235) <= exp_q30_of(234));
    assert(exp_q30_of(236) <= exp_q30_of(235));
    assert(exp_q30_of(237) <= exp_q30_of(236));
    assert(exp_q30_of(238) <= exp_q30_of(237));
    assert(exp_q30_of(239) <= exp_q30_of(238));
    assert(exp_q30_of(240) <= exp_q30_of(239));
    assert(exp_q30_of(241) <= exp_q30_of(240));
    assert(exp_q30_of(242) <= exp_q30_of(241));
    assert(exp_q30_of(243) <= exp_q30_of(242));
    assert(exp_q30_of(244) <= exp_q30_of(243));
    assert(exp_q30_of(245) <= exp_q30_of(244));
    assert(exp_q30_of(246) <= exp_q30_of(245));
    assert(exp_q30_of(247) <= exp_q30_of(246));
    assert(exp_q30_of(248) <= exp_q30_of(247));
    assert(exp_q30_of(249) <= exp_q30_of(248));
    assert(exp_q30_of(250) <= exp_q30_of(249));
    assert(exp_q30_of(251) <= exp_q30_of(250));
    assert(exp_q30_of(252) <= exp_q30_of(251));
    assert(exp_q30_of(253) <= exp_q30_of(252));
    assert(exp_q30_of(254) <= exp_q30_of(253));
    assert(exp_q30_of(255) <= exp_q30_of(254));
    assert(exp_q30_of(128) == 0x40000000);
    assert forall|b: u8| 128 <= b < 255 implies #[trigger] exp_q30_of((b + 1) as u8)
        <= exp_q30_of(b) by {
    }
}

/// Ground facts of the table: patterns with the top exponent field map to
/// zero.
proof fn lemma_table_floor()
    ensures
        forall|b: u8| 248 <= b ==> #[trigger] exp_q30_of(b) == 0,
{
    assert(exp_q30_of(248) == 0);
    assert(exp_q30_of(249) == 0);
    assert(exp_q30_of(250) == 0);
    assert(exp_q30_of(251) == 0);
    assert(exp_q30_of(252) == 0);
    assert(exp_q30_of(253) == 0);
    assert(exp_q30_of(254) == 0);
    assert(exp_q30_of(255) == 0);
    assert forall|b: u8| 248 <= b implies #[trigger] exp_q30_of(b) == 0 by {
    }
}

/// The table never increases along the sign-bit patterns.
proof fn lemma_table_byte_monotone(b1: u8, b2: u8)
    requires
        128 <= b1 <= b2,
    ensures
        exp_q30_of(b2) <= exp_q30_of(b1),
    decreases b2 - b1,
{
    if b1 < b2 {
        lemma_table_step();
        lemma_table_byte_monotone(b1, (b2 - 1) as u8);
    }
}

/// The table respects the decoded order: among sign-bit patterns, a
/// smaller value never gets a larger entry.
proof fn lemma_table_val_monotone(b1: u8, b2: u8)
    requires
        128 <= b1,
        128 <= b2,
        val_q9(b1) <= val_q9(b2),
    ensures
        exp_q30_of(b1) <= exp_q30_of(b2),
{
    if b2 <= b1 {
        lemma_table_byte_monotone(b2, b1);
    } else {
        crate::fp8::lemma_neg_byte_order(b1, b2);
        // the values agree, so both exponent fields are zero and both
        // patterns sit in the all-one region of the table
        assert(crate::fp8::exp_of(b1) == 0);
        assert(b1 <= 135 && b2 >= 128);
        if crate::fp8::exp_of(b2) >= 1 {
            vstd::arithmetic::power2::lemma2_to64();
            vstd::arithmetic::mul::lemma_mul_nonnegative(
                8 + crate::fp8::mant_of(b2),
                vstd::arithmetic::power2::pow2((crate::fp8::exp_of(b2) - 1) as nat) as int,
            );
            assert((8 + crate::fp8::mant_of(b2)) * vstd::arithmetic::power2::pow2(
                (crate::fp8::exp_of(b2) - 1) as nat,
            ) >= 8) by (nonlinear_arith)
                requires
                    crate::fp8::mant_of(b2) >= 0,
                    vstd::arithmetic::power2::pow2((crate::fp8::exp_of(b2) - 1) as nat) >= 1,
            ;
            assert(false);
        }
        assert(b2 <= 135);
        lemma_table_byte_monotone(b1, b2);
    }
}

/// The exponential of an encoded difference respects the order of the
/// differences: for non-positive differences of decoded values, a
/// smaller difference never yields a larger exponential.
proof fn lemma_exp_enc_monotone(n1: int, n2: int)
    requires
        -491520 <= n1 <= n2 <= 0,
    ensures
        exp_q30_of(enc_q(n1, 9)) <= exp_q30_of(enc_q(n2, 9)),
{
    lemma_table_step();
    lemma_table_floor();
    if n1 <= -262144 {
        crate::fp8::lemma_enc_clamped_neg(n1);
        assert(exp_q30_of(enc_q(n1, 9)) == 0);
    } else {
        crate::fp8::lemma_enc_monotone_nonpos(n1, n2);
        let b1 = enc_q(n1, 9);
        let b2 = enc_q(n2, 9);
        if n2 == 0 {
            assert(b2 == 0);
            assert(exp_q30_of(0) == 0x40000000);
            if n1 == 0 {
            } else {
                assert(b1 >= 128) by {
                    lemma_enc_neg_sign(n1);
                }
                lemma_table_byte_monotone(128, b1);
            }
        } else {
            lemma_enc_neg_sign(n1);
            lemma_enc_neg_sign(n2);
            lemma_table_val_monotone(b1, b2);
        }
    }
}

/// A negative value encodes to a sign-bit pattern.
proof fn lemma_enc_neg_sign(n: int)
    requires
        -491520 <= n < 0,
    ensures
        enc_q(n, 9) >= 128,
{
    vstd::arithmetic::power2::lemma2_to64();
    let a = -n;
    let p = msb(a as nat);
    crate::fp8::lemma_msb_bounds(a as nat);
    if p > 18 {
        vstd::arithmetic::power2::lemma_pow2_strictly_increases(19, p as nat);
        assert(false);
    }
    let m3: int = if p >= 3 {
        a / (vstd::arithmetic::power2::pow2((p - 3) as nat) as int) - 8
    } else {
        a * (vstd::arithmetic::power2::pow2((3 - p) as nat) as int) - 8
    };
    if p >= 3 {
        vstd::arithmetic::power2::lemma_pow2_adds(3, (p - 3) as nat);
        vstd::arithmetic::power2::lemma_pow2_adds(4, (p - 3) as nat);
        crate::arith::lemma_div_at_least(a, vstd::arithmetic::power2::pow2((p - 3) as nat) as int, 8);
        crate::arith::lemma_div_below(a, vstd::arithmetic::power2::pow2((p - 3) as nat) as int, 16);
    } else {
        vstd::arithmetic::power2::lemma_pow2_adds(p as nat, (3 - p) as nat);
        vstd::arithmetic::power2::lemma_pow2_adds((p + 1) as nat, (3 - p) as nat);
        vstd::arithmetic::mul::lemma_mul_inequality(
            vstd::arithmetic::power2::pow2(p as nat) as int,
            a,
            vstd::arithmetic::power2::pow2((3 - p) as nat) as int,
        );
        vstd::arithmetic::mul::lemma_mul_strict_inequality(
            a,
            vstd::arithmetic::power2::pow2((p + 1) as nat) as int,
            vstd::arithmetic::power2::pow2((3 - p) as nat) as int,
        );
    }
    assert(0 <= m3 < 8);
}

/// Every entry is bounded by the maximum.
proof fn lemma_max_is_max(s: Seq<u8>, t: int, k: int)
    requires
        0 <= t < k <= s.len(),
    ensures
        val_q9(s[t]) <= max_val(s, k),
    decreases k,
{
    if t < k - 1 {
        lemma_max_is_max(s, t, k - 1);
    }
}

/// Softmax is monotone in the logits: an entry with a smaller decoded
/// value never receives a larger weight. With `lemma_softmax_sum_to_one`
/// and non-negativity by type, this is the softmax invariant.
pub proof fn lemma_softmax_monotone_in_logits(s: Seq<u8>, i: int, j: int)
    requires
        s.len() >= 1,
        0 <= i < s.len(),
        0 <= j < s.len(),
        val_q9(s[i]) <= val_q9(s[j]),
    ensures
        softmax_weight(s, i) <= softmax_weight(s, j),
{
    let m = max_val(s, s.len() as int);
    lemma_max_is_max(s, i, s.len() as int);
    lemma_max_is_max(s, j, s.len() as int);
    crate::fp8::lemma_val_q9_bounds(s[i]);
    crate::fp8::lemma_val_q9_bounds(s[j]);
    lemma_max_attained(s, s.len() as int);
    let t0 = choose|t: int| 0 <= t < s.len() && val_q9(s[t]) == m;
    crate::fp8::lemma_val_q9_bounds(s[t0]);
    lemma_exp_enc_monotone(val_q9(s[i]) - m, val_q9(s[j]) - m);
    lemma_softmax_monotone(s, i, j);
}

} // verus!
