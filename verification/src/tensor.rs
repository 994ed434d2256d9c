//! Deterministic tensor generation: one 64-bit word of the seeded stream
//! per element, quantized to a standard-normal minifloat value through a
//! fixed quantile table.
//!
//! The top bit of a word picks the sign; the remaining 63 bits are a
//! uniform sample u in [0, 2^63). The table holds, for each representable
//! positive magnitude b, the half-normal distribution value
//! round(2^63 * P(|N(0,1)| <= b)); counting the entries at or below u
//! quantizes the normal sample by truncating its magnitude to the format,
//! exactly as conversion from full precision would. Magnitudes below the
//! smallest representable normal value collapse to the zero pattern.
//!
//! This value stream is the engine's own canonical one: the content
//! hashes that the kernels fold into proofs are defined over exactly
//! this quantized sequence, for every conforming implementation.

use vstd::prelude::*;
use crate::fp8::FP8;
use crate::errors::DemleError;
use crate::rng::{rng_from_seed, rng_next, rng_seed, rng_index, rng_word};

verus! {

/// Quantile table: entry j is the scaled distribution value of the j-th
/// positive representable magnitude, (8 + j % 8) * 2^(j / 8 - 9).
pub open spec fn spec_threshold(j: int) -> u64 {
    if j == 0 {
        114982604869720800
    } else if j == 1 {
        129354032424093280
    } else if j == 2 {
        143724966583283776
    } else if j == 3 {
        158095352545472224
    } else if j == 4 {
        172465135515111296
    } else if j == 5 {
        186834260703553440
    } else if j == 6 {
        201202673329677248
    } else if j == 7 {
        215570318620514176
    } else if j == 8 {
        229937141811875136
    } else if j == 9 {
        258668102887065280
    } else if j == 10 {
        287395118641110592
    } else if j == 11 {
        316117751340400448
    } else if j == 12 {
        344835563451860672
    } else if j == 13 {
        373548117662948352
    } else if j == 14 {
        402254976901629824
    } else if j == 15 {
        430955704356339840
    } else if j == 16 {
        459649863495922176
    } else if j == 17 {
        517016732226606784
    } else if j == 18 {
        574352097208914304
    } else if j == 19 {
        631652478316873472
    } else if j == 20 {
        688914401816991488
    } else if j == 21 {
        746134400999990016
    } else if j == 22 {
        803309016810400128
    } else if j == 23 {
        860434798473830784
    } else if j == 24 {
        917508304121718272
    } else if j == 25 {
        1031484768155102336
    } else if j == 26 {
        1145211075642349952
    } else if j == 27 {
        1258660075301888768
    } else if j == 28 {
        1371804817277128960
    } else if j == 29 {
        1484618572330999808
    } else if j == 30 {
        1597074850773893632
    } else if j == 31 {
        1709147421102703616
    } else if j == 32 {
        1820810328329117952
    } else if j == 33 {
        2042804823720149504
    } else if j == 34 {
        2262856902212989184
    } else if j == 35 {
        2480770666630541312
    } else if j == 36 {
        2696356277125575168
    } else if j == 37 {
        2909430442377346560
    } else if j == 38 {
        3119816880119412736
    } else if j == 39 {
        3327346745107060736
    } else if j == 40 {
        3531859022844245504
    } else if j == 41 {
        3931228023553587712
    } else if j == 42 {
        4316805055183159296
    } else if j == 43 {
        4687615577031801856
    } else if j == 44 {
        5042835267456295936
    } else if j == 45 {
        5381793435131521024
    } else if j == 46 {
        5703973944981621760
    } else if j == 47 {
        6009013750132709376
    } else if j == 48 {
        6296699171631785984
    } else if j == 49 {
        6819862425024499712
    } else if j == 50 {
        7274477700576957440
    } else if j == 51 {
        7663409799231305728
    } else if j == 52 {
        7990996692767346688
    } else if j == 53 {
        8262642004450863104
    } else if j == 54 {
        8484411022379356160
    } else if j == 55 {
        8662658130599108608
    } else if j == 56 {
        8803706175163590656
    } else if j == 57 {
        8997870318351105024
    } else if j == 58 {
        9108823929806794752
    } else if j == 59 {
        9168405107057475584
    } else if j == 60 {
        9198470813339691008
    } else if j == 61 {
        9212727803573671936
    } else if j == 62 {
        9219080787769704448
    } else if j == 63 {
        9221741025822984192
    } else if j == 64 {
        9222787805562183680
    } else if j == 65 {
        9223309360848197632
    } else if j == 66 {
        9223366749066591232
    } else if j == 67 {
        9223371686559176704
    } else if j == 68 {
        9223372018655446016
    } else if j == 69 {
        9223372036113954816
    } else if j == 70 {
        9223372036831167488
    } else if j == 71 {
        9223372036854187008
    } else if j == 72 {
        9223372036854764544
    } else if j == 73 {
        9223372036854775808
    } else if j == 74 {
        9223372036854775808
    } else if j == 75 {
        9223372036854775808
    } else if j == 76 {
        9223372036854775808
    } else if j == 77 {
        9223372036854775808
    } else if j == 78 {
        9223372036854775808
    } else if j == 79 {
        9223372036854775808
    } else if j == 80 {
        9223372036854775808
    } else if j == 81 {
        9223372036854775808
    } else if j == 82 {
        9223372036854775808
    } else if j == 83 {
        9223372036854775808
    } else if j == 84 {
        9223372036854775808
    } else if j == 85 {
        9223372036854775808
    } else if j == 86 {
        9223372036854775808
    } else if j == 87 {
        9223372036854775808
    } else if j == 88 {
        9223372036854775808
    } else if j == 89 {
        9223372036854775808
    } else if j == 90 {
        9223372036854775808
    } else if j == 91 {
        9223372036854775808
    } else if j == 92 {
        9223372036854775808
    } else if j == 93 {
        9223372036854775808
    } else if j == 94 {
        9223372036854775808
    } else if j == 95 {
        9223372036854775808
    } else if j == 96 {
        9223372036854775808
    } else if j == 97 {
        9223372036854775808
    } else if j == 98 {
        9223372036854775808
    } else if j == 99 {
        9223372036854775808
    } else if j == 100 {
        9223372036854775808
    } else if j == 101 {
        9223372036854775808
    } else if j == 102 {
        9223372036854775808
    } else if j == 103 {
        9223372036854775808
    } else if j == 104 {
        9223372036854775808
    } else if j == 105 {
        9223372036854775808
    } else if j == 106 {
        9223372036854775808
    } else if j == 107 {
        9223372036854775808
    } else if j == 108 {
        9223372036854775808
    } else if j == 109 {
        9223372036854775808
    } else if j == 110 {
        9223372036854775808
    } else if j == 111 {
        9223372036854775808
    } else if j == 112 {
        9223372036854775808
    } else if j == 113 {
        9223372036854775808
    } else if j == 114 {
        9223372036854775808
    } else if j == 115 {
        9223372036854775808
    } else if j == 116 {
        9223372036854775808
    } else if j == 117 {
        9223372036854775808
    } else if j == 118 {
        9223372036854775808
    } else if j == 119 {
        9223372036854775808
    } else {
        0
    }
}

/// Executable quantile table.
fn threshold_at(j: usize) -> (t: u64)
    ensures
        t == spec_threshold(j as int),
{
    match j {
        0 => 114982604869720800,
        1 => 129354032424093280,
        2 => 143724966583283776,
        3 => 158095352545472224,
        4 => 172465135515111296,
        5 => 186834260703553440,
        6 => 201202673329677248,
        7 => 215570318620514176,
        8 => 229937141811875136,
        9 => 258668102887065280,
        10 => 287395118641110592,
        11 => 316117751340400448,
        12 => 344835563451860672,
        13 => 373548117662948352,
        14 => 402254976901629824,
        15 => 430955704356339840,
        16 => 459649863495922176,
        17 => 517016732226606784,
        18 => 574352097208914304,
        19 => 631652478316873472,
        20 => 688914401816991488,
        21 => 746134400999990016,
        22 => 803309016810400128,
        23 => 860434798473830784,
        24 => 917508304121718272,
        25 => 1031484768155102336,
        26 => 1145211075642349952,
        27 => 1258660075301888768,
        28 => 1371804817277128960,
        29 => 1484618572330999808,
        30 => 1597074850773893632,
        31 => 1709147421102703616,
        32 => 1820810328329117952,
        33 => 2042804823720149504,
        34 => 2262856902212989184,
        35 => 2480770666630541312,
        36 => 2696356277125575168,
        37 => 2909430442377346560,
        38 => 3119816880119412736,
        39 => 3327346745107060736,
        40 => 3531859022844245504,
        41 => 3931228023553587712,
        42 => 4316805055183159296,
        43 => 4687615577031801856,
        44 => 5042835267456295936,
        45 => 5381793435131521024,
        46 => 5703973944981621760,
        47 => 6009013750132709376,
        48 => 6296699171631785984,
        49 => 6819862425024499712,
        50 => 7274477700576957440,
        51 => 7663409799231305728,
        52 => 7990996692767346688,
        53 => 8262642004450863104,
        54 => 8484411022379356160,
        55 => 8662658130599108608,
        56 => 8803706175163590656,
        57 => 8997870318351105024,
        58 => 9108823929806794752,
        59 => 9168405107057475584,
        60 => 9198470813339691008,
        61 => 9212727803573671936,
        62 => 9219080787769704448,
        63 => 9221741025822984192,
        64 => 9222787805562183680,
        65 => 9223309360848197632,
        66 => 9223366749066591232,
        67 => 9223371686559176704,
        68 => 9223372018655446016,
        69 => 9223372036113954816,
        70 => 9223372036831167488,
        71 => 9223372036854187008,
        72 => 9223372036854764544,
        73 => 9223372036854775808,
        74 => 9223372036854775808,
        75 => 9223372036854775808,
        76 => 9223372036854775808,
        77 => 9223372036854775808,
        78 => 9223372036854775808,
        79 => 9223372036854775808,
        80 => 9223372036854775808,
        81 => 9223372036854775808,
        82 => 9223372036854775808,
        83 => 9223372036854775808,
        84 => 9223372036854775808,
        85 => 9223372036854775808,
        86 => 9223372036854775808,
        87 => 9223372036854775808,
        88 => 9223372036854775808,
        89 => 9223372036854775808,
        90 => 9223372036854775808,
        91 => 9223372036854775808,
        92 => 9223372036854775808,
        93 => 9223372036854775808,
        94 => 9223372036854775808,
        95 => 9223372036854775808,
        96 => 9223372036854775808,
        97 => 9223372036854775808,
        98 => 9223372036854775808,
        99 => 9223372036854775808,
        100 => 9223372036854775808,
        101 => 9223372036854775808,
        102 => 9223372036854775808,
        103 => 9223372036854775808,
        104 => 9223372036854775808,
        105 => 9223372036854775808,
        106 => 9223372036854775808,
        107 => 9223372036854775808,
        108 => 9223372036854775808,
        109 => 9223372036854775808,
        110 => 9223372036854775808,
        111 => 9223372036854775808,
        112 => 9223372036854775808,
        113 => 9223372036854775808,
        114 => 9223372036854775808,
        115 => 9223372036854775808,
        116 => 9223372036854775808,
        117 => 9223372036854775808,
        118 => 9223372036854775808,
        119 => 9223372036854775808,
        _ => 0,
    }
}

/// How many of the first j table entries are at or below u.
pub open spec fn count_le(u: u64, j: int) -> int
    decreases j,
{
    if j <= 0 {
        0
    } else {
        count_le(u, j - 1) + if spec_threshold(j - 1) <= u {
            1int
        } else {
            0int
        }
    }
}

/// The minifloat pattern a stream word quantizes to.
pub open spec fn normal_byte(w: u64) -> u8 {
    let u = (w as int) % 0x8000_0000_0000_0000;
    let c = count_le((u as u64), 120);
    if c == 0 {
        0
    } else {
        let s: int = if w >= 0x8000_0000_0000_0000 {
            128
        } else {
            0
        };
        (s + 7 + c) as u8
    }
}

/// The i-th element of the tensor generated for a seed.
pub open spec fn gen_byte(seed: u64, i: int) -> u8 {
    normal_byte(rng_word(seed, i))
}

/// Quantize one stream word to a minifloat value.
fn quantize_normal(w: u64) -> (b: FP8)
    ensures
        b.spec_bits() == normal_byte(w),
{
    let u: u64 = w % 0x8000_0000_0000_0000;
    let mut c: u64 = 0;
    let mut j: usize = 0;
    while j < 120
        invariant
            j <= 120,
            c == count_le(u, j as int),
            c <= j,
        decreases 120 - j,
    {
        if threshold_at(j) <= u {
            c = c + 1;
        }
        j = j + 1;
    }
    if c == 0 {
        FP8::from_bits(0)
    } else {
        let s: u8 = if w >= 0x8000_0000_0000_0000 {
            128
        } else {
            0
        };
        FP8::from_bits(s + 7 + (c as u8))
    }
}

/// The first `count` generated elements as a byte sequence.
pub open spec fn gen_bytes(seed: u64, count: int) -> Seq<u8> {
    Seq::new(count as nat, |i: int| gen_byte(seed, i))
}

/// The bit patterns of a tensor, in order: what the content hash consumes.
pub open spec fn bits_of(s: Seq<FP8>) -> Seq<u8> {
    Seq::new(s.len(), |i: int| s[i].spec_bits())
}

/// A seed offset by k, wrapping around the 64-bit range.
pub open spec fn spec_seed_add(seed: u64, k: u64) -> u64 {
    if seed + k > u64::MAX {
        (seed + k - 0x10000000000000000) as u64
    } else {
        (seed + k) as u64
    }
}

/// Offset a seed, wrapping.
pub fn seed_add(seed: u64, k: u64) -> (r: u64)
    ensures
        r == spec_seed_add(seed, k),
{
    if k <= u64::MAX - seed {
        seed + k
    } else {
        k - (u64::MAX - seed) - 1
    }
}

/// Generate `count` elements of the deterministic stream for a seed.
pub fn generate_elements(count: usize, seed: u64) -> (r: Vec<FP8>)
    ensures
        r@.len() == count,
        forall|t: int| 0 <= t < count ==> (#[trigger] r@[t]).spec_bits() == gen_byte(seed, t),
        bits_of(r@) =~= gen_bytes(seed, count as int),
{
    let mut rng = rng_from_seed(seed);
    let mut data: Vec<FP8> = Vec::new();
    let mut i: usize = 0;
    while i < count
        invariant
            i <= count,
            rng_seed(rng) == seed,
            rng_index(rng) == i as int,
            data@.len() == i as int,
            forall|t: int| 0 <= t < i ==> (#[trigger] data@[t]).spec_bits() == gen_byte(seed, t),
        decreases count - i,
    {
        let w = rng_next(&mut rng);
        let b = quantize_normal(w);
        data.push(b);
        i = i + 1;
    }
    data
}

/// The bit patterns of a tensor as raw bytes, for hashing.
pub fn tensor_bytes(v: &Vec<FP8>) -> (r: Vec<u8>)
    ensures
        r@ =~= bits_of(v@),
{
    let mut out: Vec<u8> = Vec::new();
    let mut i: usize = 0;
    while i < v.len()
        invariant
            i <= v@.len(),
            out@.len() == i as int,
            forall|t: int| 0 <= t < i ==> out@[t] == (#[trigger] v@[t]).spec_bits(),
        decreases v@.len() - i,
    {
        let b = v[i].to_bits();
        out.push(b);
        i = i + 1;
    }
    out
}

/// Product of the first k dimensions of a shape.
pub open spec fn shape_prod(s: Seq<usize>, k: int) -> int
    decreases k,
{
    if k <= 0 {
        1
    } else {
        shape_prod(s, k - 1) * s[k - 1]
    }
}

/// Whether the running product stays within the machine's range at every
/// step, which is exactly when the element count can be computed.
pub open spec fn shape_prod_ok(s: Seq<usize>, k: int) -> bool
    decreases k,
{
    if k <= 0 {
        true
    } else {
        shape_prod_ok(s, k - 1) && shape_prod(s, k) <= usize::MAX
    }
}

/// A bounded running product is bounded at every earlier step.
pub proof fn lemma_shape_prod_ok_mono(s: Seq<usize>, j: int, k: int)
    requires
        0 <= j <= k,
        shape_prod_ok(s, k),
    ensures
        shape_prod_ok(s, j),
    decreases k - j,
{
    if j < k {
        lemma_shape_prod_ok_mono(s, j, k - 1);
    }
}

/// Generate the tensor for a shape and a seed: one standard-normal sample
/// per element in row-major order, each quantized to a minifloat value.
/// The elements are a function of the seed and the element index alone,
/// so identical arguments always yield identical tensors. Fails exactly
/// when the element count cannot be computed within the machine's range.
pub fn generate_random_tensor(shape: &[usize], seed: u64) -> (r: Result<
    Vec<FP8>,
    DemleError,
>)
    ensures
        r is Ok <==> shape_prod_ok(shape@, shape@.len() as int),
        r is Err ==> r->Err_0 is ComputationError,
        r is Ok ==> r->Ok_0@.len() == shape_prod(shape@, shape@.len() as int),
        r is Ok ==> forall|t: int|
            0 <= t < r->Ok_0@.len() ==> (#[trigger] r->Ok_0@[t]).spec_bits() == gen_byte(
                seed,
                t,
            ),
{
    let mut total: usize = 1;
    let mut k: usize = 0;
    while k < shape.len()
        invariant
            k <= shape@.len(),
            shape_prod_ok(shape@, k as int),
            total == shape_prod(shape@, k as int),
        decreases shape@.len() - k,
    {
        let d = shape[k];
        match total.checked_mul(d) {
            Some(t) => {
                total = t;
            },
            None => {
                proof {
                    if shape_prod_ok(shape@, shape@.len() as int) {
                        lemma_shape_prod_ok_mono(shape@, k as int + 1, shape@.len() as int);
                    }
                }
                return Err(
                    DemleError::ComputationError(
                        String::from_str("tensor element count overflows"),
                    ),
                );
            },
        }
        k = k + 1;
    }
    Ok(generate_elements(total, seed))
}

/// Determinism of generation: two tensors that meet the generator's
/// contract for the same shape and seed are equal element by element.
pub proof fn lemma_generate_deterministic(
    a: Seq<FP8>,
    b: Seq<FP8>,
    shape: Seq<usize>,
    seed: u64,
)
    requires
        a.len() == shape_prod(shape, shape.len() as int),
        b.len() == shape_prod(shape, shape.len() as int),
        forall|t: int| 0 <= t < a.len() ==> (#[trigger] a[t]).spec_bits() == gen_byte(seed, t),
        forall|t: int| 0 <= t < b.len() ==> (#[trigger] b[t]).spec_bits() == gen_byte(seed, t),
    ensures
        a =~= b,
{
    assert forall|t: int| 0 <= t < a.len() implies a[t] == b[t] by {
        crate::fp8::lemma_fp8_eq(a[t], b[t]);
    }
}

} // verus!
