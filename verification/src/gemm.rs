//! General matrix multiplication: C = A x B over minifloat arithmetic.
//! A (m x k) and B (k x n) are generated from the seed and its successor;
//! each output cell is the dot product accumulated in ascending index
//! order, one multiply and one add per step, each re-quantized. The
//! output's bytes are content-hashed and the operation count is
//! 2 * m * k * n.

use vstd::prelude::*;
use crate::arith::{prod_u64, checked_prod_u64};
use crate::errors::DemleError;
use crate::fp8::{FP8, enc_q, val_q9};
use crate::hashing::{sha3_hex, sha3_hex_of};
use crate::tensor::{
    generate_elements,
    gen_bytes,
    gen_byte,
    tensor_bytes,
    bits_of,
    seed_add,
    spec_seed_add,
};

verus! {

/// The accumulated dot product for output cell (i, j) after l steps:
/// minifloat multiply then minifloat add, both truncating.
pub open spec fn gemm_cell(
    av: Seq<u8>,
    bv: Seq<u8>,
    k: int,
    n: int,
    i: int,
    j: int,
    l: int,
) -> u8
    decreases l,
{
    if l <= 0 {
        0
    } else {
        let prev = gemm_cell(av, bv, k, n, i, j, l - 1);
        let prod = enc_q(val_q9(av[i * k + (l - 1)]) * val_q9(bv[(l - 1) * n + j]), 18);
        enc_q(val_q9(prev) + val_q9(prod), 9)
    }
}

/// The output bytes of the whole multiplication, row-major.
pub open spec fn gemm_output(seed: u64, m: int, k: int, n: int) -> Seq<u8> {
    let av = gen_bytes(seed, m * k);
    let bv = gen_bytes(spec_seed_add(seed, 1), k * n);
    Seq::new((m * n) as nat, |idx: int| gemm_cell(av, bv, k, n, idx / n, idx % n, k))
}

/// When the multiplication can run: the matrices and the output fit the
/// machine, and so does the operation count whenever it is not zero.
pub open spec fn gemm_ok(m: int, k: int, n: int) -> bool {
    &&& m * k <= usize::MAX
    &&& k * n <= usize::MAX
    &&& m * n <= usize::MAX
    &&& (m >= 1 && k >= 1 && n >= 1 ==> 2 * m * k * n <= u64::MAX)
}

/// Execute the multiplication for a shape and a seed. On success the
/// first component is the hex content hash of the output bytes and the
/// second is the exact operation count; fails exactly when a size or the
/// count overflows the machine.
pub fn execute_gemm(dimensions: (usize, usize, usize), seed: u64) -> (r: Result<
    (String, u64),
    DemleError,
>)
    ensures
        r is Ok <==> gemm_ok(dimensions.0 as int, dimensions.1 as int, dimensions.2 as int),
        r is Ok ==> r->Ok_0.0@ == sha3_hex_of(
            gemm_output(seed, dimensions.0 as int, dimensions.1 as int, dimensions.2 as int),
        ),
        r is Ok ==> r->Ok_0.0@.len() == 64,
        r is Err ==> r->Err_0 is ComputationError,
        r is Ok ==> r->Ok_0.1 == 2 * (dimensions.0 as int) * (dimensions.1 as int) * (
        dimensions.2 as int),
{
    let (m, k, n) = dimensions;
    let mk: usize = match m.checked_mul(k) {
        Some(v) => v,
        None => {
            return Err(
                DemleError::ComputationError(String::from_str("matrix size overflows")),
            );
        },
    };
    let kn: usize = match k.checked_mul(n) {
        Some(v) => v,
        None => {
            return Err(
                DemleError::ComputationError(String::from_str("matrix size overflows")),
            );
        },
    };
    let mn: usize = match m.checked_mul(n) {
        Some(v) => v,
        None => {
            return Err(
                DemleError::ComputationError(String::from_str("matrix size overflows")),
            );
        },
    };
    let flops: u64 = if m == 0 || k == 0 || n == 0 {
        proof {
            assert(2 * (m as int) * (k as int) * (n as int) == 0) by (nonlinear_arith)
                requires
                    m == 0 || k == 0 || n == 0,
            ;
        }
        0
    } else {
        let factors: Vec<u64> = vec![2, m as u64, k as u64, n as u64];
        proof {
            reveal_with_fuel(prod_u64, 6);
        }
        match checked_prod_u64(&factors) {
            Some(v) => v,
            None => {
                proof {
                    if 2 * (m as int) * (k as int) * (n as int) <= u64::MAX {
                        crate::arith::lemma_prod_u64_ok_from_bound(factors@, 4);
                    }
                }
                return Err(
                    DemleError::ComputationError(
                        String::from_str("operation count overflows"),
                    ),
                );
            },
        }
    };
    let a = generate_elements(mk, seed);
    let b = generate_elements(kn, seed_add(seed, 1));
    let ghost av = gen_bytes(seed, (m as int) * (k as int));
    let ghost bv = gen_bytes(spec_seed_add(seed, 1), (k as int) * (n as int));
    let mut c: Vec<FP8> = Vec::new();
    let mut idx: usize = 0;
    while idx < mn
        invariant
            idx <= mn,
            mn == (m as int) * (n as int),
            mk == (m as int) * (k as int),
            kn == (k as int) * (n as int),
            a@.len() == mk,
            b@.len() == kn,
            forall|t: int| 0 <= t < mk ==> (#[trigger] a@[t]).spec_bits() == gen_byte(seed, t),
            forall|t: int|
                0 <= t < kn ==> (#[trigger] b@[t]).spec_bits() == gen_byte(
                    spec_seed_add(seed, 1),
                    t,
                ),
            av == gen_bytes(seed, (m as int) * (k as int)),
            bv == gen_bytes(spec_seed_add(seed, 1), (k as int) * (n as int)),
            c@.len() == idx,
            forall|t: int|
                0 <= t < idx ==> (#[trigger] c@[t]).spec_bits() == gemm_cell(
                    av,
                    bv,
                    k as int,
                    n as int,
                    t / (n as int),
                    t % (n as int),
                    k as int,
                ),
        decreases mn - idx,
    {
        proof {
            if n == 0 {
                assert((m as int) * (n as int) == 0) by (nonlinear_arith)
                    requires
                        n == 0,
                ;
            }
        }
        let i: usize = idx / n;
        let j: usize = idx % n;
        proof {
            crate::arith::lemma_div_below(idx as int, n as int, m as int);
        }
        let mut sum = FP8::zero();
        let mut l: usize = 0;
        while l < k
            invariant
                l <= k,
                i < m,
                j < n,
                mk == (m as int) * (k as int),
                kn == (k as int) * (n as int),
                a@.len() == mk,
                b@.len() == kn,
                forall|t: int|
                    0 <= t < mk ==> (#[trigger] a@[t]).spec_bits() == gen_byte(seed, t),
                forall|t: int|
                    0 <= t < kn ==> (#[trigger] b@[t]).spec_bits() == gen_byte(
                        spec_seed_add(seed, 1),
                        t,
                    ),
                av == gen_bytes(seed, (m as int) * (k as int)),
                bv == gen_bytes(spec_seed_add(seed, 1), (k as int) * (n as int)),
                sum.spec_bits() == gemm_cell(av, bv, k as int, n as int, i as int, j as int, l as int),
            decreases k - l,
        {
            proof {
                assert((i as int) * (k as int) + (l as int) < (m as int) * (k as int))
                    by (nonlinear_arith)
                    requires
                        (i as int) < (m as int),
                        (l as int) < (k as int),
                        0 <= i as int,
                        0 <= l as int,
                ;
                assert((l as int) * (n as int) + (j as int) < (k as int) * (n as int))
                    by (nonlinear_arith)
                    requires
                        (l as int) < (k as int),
                        (j as int) < (n as int),
                        0 <= l as int,
                        0 <= j as int,
                ;
            }
            let a_val = a[i * k + l];
            let b_val = b[l * n + j];
            let prod = a_val.mul(b_val);
            sum = sum.add(prod);
            l = l + 1;
        }
        c.push(sum);
        idx = idx + 1;
    }
    let bytes = tensor_bytes(&c);
    let result_hash = sha3_hex(bytes.as_slice());
    proof {
        assert(bytes@ =~= gemm_output(seed, m as int, k as int, n as int));
    }
    Ok((result_hash, flops))
}

/// Execute the multiplication with a blocked schedule over the reduction
/// dimension, for cache locality. Scheduling must not change the hash:
/// the accumulation order within each cell is still index ascending, so
/// the result is identical to the straight multiplication's, and the
/// contract is the same.
pub fn execute_gemm_blocked(
    dimensions: (usize, usize, usize),
    seed: u64,
    block_size: usize,
) -> (r: Result<(String, u64), DemleError>)
    requires
        block_size >= 1,
    ensures
        r is Ok <==> gemm_ok(dimensions.0 as int, dimensions.1 as int, dimensions.2 as int),
        r is Ok ==> r->Ok_0.0@ == sha3_hex_of(
            gemm_output(seed, dimensions.0 as int, dimensions.1 as int, dimensions.2 as int),
        ),
        r is Ok ==> r->Ok_0.0@.len() == 64,
        r is Err ==> r->Err_0 is ComputationError,
        r is Ok ==> r->Ok_0.1 == 2 * (dimensions.0 as int) * (dimensions.1 as int) * (
        dimensions.2 as int),
{
    let (m, k, n) = dimensions;
    let mk: usize = match m.checked_mul(k) {
        Some(v) => v,
        None => {
            return Err(
                DemleError::ComputationError(String::from_str("matrix size overflows")),
            );
        },
    };
    let kn: usize = match k.checked_mul(n) {
        Some(v) => v,
        None => {
            return Err(
                DemleError::ComputationError(String::from_str("matrix size overflows")),
            );
        },
    };
    let mn: usize = match m.checked_mul(n) {
        Some(v) => v,
        None => {
            return Err(
                DemleError::ComputationError(String::from_str("matrix size overflows")),
            );
        },
    };
    let flops: u64 = if m == 0 || k == 0 || n == 0 {
        proof {
            assert(2 * (m as int) * (k as int) * (n as int) == 0) by (nonlinear_arith)
                requires
                    m == 0 || k == 0 || n == 0,
            ;
        }
        0
    } else {
        let factors: Vec<u64> = vec![2, m as u64, k as u64, n as u64];
        proof {
            reveal_with_fuel(prod_u64, 6);
        }
        match checked_prod_u64(&factors) {
            Some(v) => v,
            None => {
                proof {
                    if 2 * (m as int) * (k as int) * (n as int) <= u64::MAX {
                        crate::arith::lemma_prod_u64_ok_from_bound(factors@, 4);
                    }
                }
                return Err(
                    DemleError::ComputationError(
                        String::from_str("operation count overflows"),
                    ),
                );
            },
        }
    };
    let a = generate_elements(mk, seed);
    let b = generate_elements(kn, seed_add(seed, 1));
    let ghost av = gen_bytes(seed, (m as int) * (k as int));
    let ghost bv = gen_bytes(spec_seed_add(seed, 1), (k as int) * (n as int));
    let mut c: Vec<FP8> = Vec::new();
    let mut idx: usize = 0;
    while idx < mn
        invariant
            block_size >= 1,
            idx <= mn,
            mn == (m as int) * (n as int),
            mk == (m as int) * (k as int),
            kn == (k as int) * (n as int),
            a@.len() == mk,
            b@.len() == kn,
            forall|t: int| 0 <= t < mk ==> (#[trigger] a@[t]).spec_bits() == gen_byte(seed, t),
            forall|t: int|
                0 <= t < kn ==> (#[trigger] b@[t]).spec_bits() == gen_byte(
                    spec_seed_add(seed, 1),
                    t,
                ),
            av == gen_bytes(seed, (m as int) * (k as int)),
            bv == gen_bytes(spec_seed_add(seed, 1), (k as int) * (n as int)),
            c@.len() == idx,
            forall|t: int|
                0 <= t < idx ==> (#[trigger] c@[t]).spec_bits() == gemm_cell(
                    av,
                    bv,
                    k as int,
                    n as int,
                    t / (n as int),
                    t % (n as int),
                    k as int,
                ),
        decreases mn - idx,
    {
        proof {
            if n == 0 {
                assert((m as int) * (n as int) == 0) by (nonlinear_arith)
                    requires
                        n == 0,
                ;
            }
        }
        let i: usize = idx / n;
        let j: usize = idx % n;
        proof {
            crate::arith::lemma_div_below(idx as int, n as int, m as int);
        }
        let mut sum = FP8::zero();
        let mut l: usize = 0;
        while l < k
            invariant
                block_size >= 1,
                l <= k,
                i < m,
                j < n,
                mk == (m as int) * (k as int),
                kn == (k as int) * (n as int),
                a@.len() == mk,
                b@.len() == kn,
                forall|t: int|
                    0 <= t < mk ==> (#[trigger] a@[t]).spec_bits() == gen_byte(seed, t),
                forall|t: int|
                    0 <= t < kn ==> (#[trigger] b@[t]).spec_bits() == gen_byte(
                        spec_seed_add(seed, 1),
                        t,
                    ),
                av == gen_bytes(seed, (m as int) * (k as int)),
                bv == gen_bytes(spec_seed_add(seed, 1), (k as int) * (n as int)),
                sum.spec_bits() == gemm_cell(av, bv, k as int, n as int, i as int, j as int, l as int),
            decreases k - l,
        {
            let l_end: usize = if k - l < block_size {
                k
            } else {
                l + block_size
            };
            while l < l_end
                invariant
                    l <= l_end <= k,
                    i < m,
                    j < n,
                    mk == (m as int) * (k as int),
                    kn == (k as int) * (n as int),
                    a@.len() == mk,
                    b@.len() == kn,
                    forall|t: int|
                        0 <= t < mk ==> (#[trigger] a@[t]).spec_bits() == gen_byte(seed, t),
                    forall|t: int|
                        0 <= t < kn ==> (#[trigger] b@[t]).spec_bits() == gen_byte(
                            spec_seed_add(seed, 1),
                            t,
                        ),
                    av == gen_bytes(seed, (m as int) * (k as int)),
                    bv == gen_bytes(spec_seed_add(seed, 1), (k as int) * (n as int)),
                    sum.spec_bits() == gemm_cell(av, bv, k as int, n as int, i as int, j as int, l as int),
                decreases l_end - l,
            {
                proof {
                    assert((i as int) * (k as int) + (l as int) < (m as int) * (k as int))
                        by (nonlinear_arith)
                        requires
                            (i as int) < (m as int),
                            (l as int) < (k as int),
                            0 <= i as int,
                            0 <= l as int,
                    ;
                    assert((l as int) * (n as int) + (j as int) < (k as int) * (n as int))
                        by (nonlinear_arith)
                        requires
                            (l as int) < (k as int),
                            (j as int) < (n as int),
                            0 <= l as int,
                            0 <= j as int,
                    ;
                }
                let a_val = a[i * k + l];
                let b_val = b[l * n + j];
                let prod = a_val.mul(b_val);
                sum = sum.add(prod);
                l = l + 1;
            }
        }
        c.push(sum);
        idx = idx + 1;
    }
    let bytes = tensor_bytes(&c);
    let result_hash = sha3_hex(bytes.as_slice());
    proof {
        assert(bytes@ =~= gemm_output(seed, m as int, k as int, n as int));
    }
    Ok((result_hash, flops))
}

} // verus!
