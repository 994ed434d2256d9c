//! The data model: network configuration, the operation variants, work
//! units and their results. The batch-normalization epsilon is carried in
//! nanos (billionths), so the whole model is exact integer data.

use vstd::prelude::*;
use crate::arith::prod_u64;

verus! {

/// Network configuration consumed by the engine; the collaborators that
/// talk to the ledger read the addresses.
#[derive(Clone, Debug)]
pub struct NetworkConfig {
    pub chain_id: u64,
    pub contract_address: String,
    pub rpc_url: String,
    /// Target seconds between blocks.
    pub block_time_target: u64,
    pub initial_difficulty: u64,
    /// Blocks between difficulty retargets.
    pub difficulty_adjustment_interval: u64,
}

impl Default for NetworkConfig {
    fn default() -> (r: Self)
        ensures
            r.chain_id == 1337,
            r.contract_address@ == "0x0000000000000000000000000000000000000000"@,
            r.rpc_url@ == "http://localhost:8545"@,
            r.block_time_target == 15,
            r.initial_difficulty == 1000000,
            r.difficulty_adjustment_interval == 100,
    {
        NetworkConfig {
            chain_id: 1337,
            contract_address: String::from_str("0x0000000000000000000000000000000000000000"),
            rpc_url: String::from_str("http://localhost:8545"),
            block_time_target: 15,
            initial_difficulty: 1000000,
            difficulty_adjustment_interval: 100,
        }
    }
}

/// One machine-learning operation, fully specifying a deterministic
/// computation: no external state enters a kernel.
#[derive(Clone, Copy, Debug)]
pub enum MLOperation {
    MatrixMultiply {
        /// (m, k, n) for A(m x k) times B(k x n).
        dimensions: (usize, usize, usize),
        seed: u64,
    },
    Convolution2D {
        /// (batch, channels, height, width).
        input_shape: (usize, usize, usize, usize),
        /// (out channels, in channels, kernel height, kernel width).
        kernel_shape: (usize, usize, usize, usize),
        stride: (usize, usize),
        padding: (usize, usize),
        seed: u64,
    },
    MultiHeadAttention {
        batch_size: usize,
        seq_length: usize,
        d_model: usize,
        num_heads: usize,
        seed: u64,
    },
    BatchNormalization {
        /// (batch, channels, height, width).
        shape: (usize, usize, usize, usize),
        /// Stability offset in nanos: the real epsilon times 10^9.
        epsilon: u64,
        seed: u64,
    },
}

/// The closed-form operation count of an operation, with the historical
/// simplifications: the convolution estimate assumes no padding, and the
/// attention estimate counts the three projections, the two attention
/// products and the output projection.
pub open spec fn spec_estimated_flops(op: MLOperation) -> int {
    match op {
        MLOperation::MatrixMultiply { dimensions, .. } => {
            2 * (dimensions.0 as int) * (dimensions.1 as int) * (dimensions.2 as int)
        },
        MLOperation::Convolution2D { input_shape, kernel_shape, stride, .. } => {
            let oh = ((input_shape.2 as int) - (kernel_shape.2 as int)) / (stride.0 as int) + 1;
            let ow = ((input_shape.3 as int) - (kernel_shape.3 as int)) / (stride.1 as int) + 1;
            2 * (input_shape.0 as int) * (kernel_shape.0 as int) * (kernel_shape.1 as int) * (
            kernel_shape.2 as int) * (kernel_shape.3 as int) * oh * ow
        },
        MLOperation::MultiHeadAttention { batch_size, seq_length, d_model, num_heads, .. } => {
            let b = batch_size as int;
            let s = seq_length as int;
            let d = d_model as int;
            let dk = (d_model as int) / (num_heads as int);
            3 * b * s * d * d + 2 * b * (num_heads as int) * s * s * dk + b * s * d * d
        },
        MLOperation::BatchNormalization { shape, .. } => {
            6 * (shape.0 as int) * (shape.1 as int) * (shape.2 as int) * (shape.3 as int)
        },
    }
}

/// Whether the estimate's arithmetic is defined and fits the machine:
/// positive strides and a fitting kernel for a convolution, a positive
/// head count for attention, and a result within 64 bits.
pub open spec fn spec_estimate_defined(op: MLOperation) -> bool {
    (match op {
        MLOperation::Convolution2D { input_shape, kernel_shape, stride, .. } => {
            stride.0 >= 1 && stride.1 >= 1 && kernel_shape.2 <= input_shape.2 && kernel_shape.3
                <= input_shape.3
        },
        MLOperation::MultiHeadAttention { num_heads, .. } => num_heads >= 1,
        _ => true,
    }) && spec_estimated_flops(op) <= u64::MAX
}

impl MLOperation {
    /// The closed-form operation count, computed exactly.
    pub fn estimated_flops(&self) -> (r: u64)
        requires
            spec_estimate_defined(*self),
        ensures
            r == spec_estimated_flops(*self),
    {
        match *self {
            MLOperation::MatrixMultiply { dimensions, .. } => {
                let (m, k, n) = dimensions;
                if m == 0 || k == 0 || n == 0 {
                    proof {
                        lemma_zero_factor3(m as int, k as int, n as int);
                    }
                    return 0;
                }
                let factors: Vec<u64> = vec![2, m as u64, k as u64, n as u64];
                proof {
                    reveal_with_fuel(prod_u64, 6);
                }
                prod_or_max(&factors, Ghost(spec_estimated_flops(*self)))
            },
            MLOperation::Convolution2D { input_shape, kernel_shape, stride, .. } => {
                let (b, _c, ih, iw) = input_shape;
                let (oc, ic, kh, kw) = kernel_shape;
                let (sh, sw) = stride;
                if b == 0 || oc == 0 || ic == 0 || kh == 0 || kw == 0 {
                    proof {
                        lemma_conv_zero(
                            b as int,
                            oc as int,
                            ic as int,
                            kh as int,
                            kw as int,
                            ((ih as int) - (kh as int)) / (sh as int) + 1,
                            ((iw as int) - (kw as int)) / (sw as int) + 1,
                        );
                    }
                    return 0;
                }
                let oh: u64 = ((ih - kh) / sh + 1) as u64;
                let ow: u64 = ((iw - kw) / sw + 1) as u64;
                let factors: Vec<u64> = vec![
                    2,
                    b as u64,
                    oc as u64,
                    ic as u64,
                    kh as u64,
                    kw as u64,
                    oh,
                    ow,
                ];
                proof {
                    reveal_with_fuel(prod_u64, 10);
                }
                prod_or_max(&factors, Ghost(spec_estimated_flops(*self)))
            },
            MLOperation::MultiHeadAttention {
                batch_size,
                seq_length,
                d_model,
                num_heads,
                ..
            } => {
                let b = batch_size;
                let s = seq_length;
                let d = d_model;
                let h = num_heads;
                let dk: usize = d / h;
                let ghost total = spec_estimated_flops(*self);
                if b == 0 || s == 0 || d == 0 {
                    proof {
                        lemma_attention_zero(b as int, s as int, d as int, h as int);
                    }
                    return 0;
                }
                let ghost s1 = 3 * (b as int) * (s as int) * (d as int) * (d as int);
                let ghost s2 = 2 * (b as int) * (h as int) * (s as int) * (s as int) * (
                dk as int);
                let ghost s3 = (b as int) * (s as int) * (d as int) * (d as int);
                proof {
                    lemma_attention_summands(b as int, s as int, d as int, h as int, dk as int);
                }
                let f1: Vec<u64> = vec![3, b as u64, s as u64, d as u64, d as u64];
                proof {
                    reveal_with_fuel(prod_u64, 8);
                }
                let p1 = prod_or_max(&f1, Ghost(s1));
                let p2: u64 = if dk == 0 {
                    proof {
                        lemma_zero_last6(2, b as int, h as int, s as int, s as int);
                    }
                    0
                } else {
                    let f2: Vec<u64> = vec![
                        2,
                        b as u64,
                        h as u64,
                        s as u64,
                        s as u64,
                        dk as u64,
                    ];
                    proof {
                        reveal_with_fuel(prod_u64, 8);
                    }
                    prod_or_max(&f2, Ghost(s2))
                };
                let f3: Vec<u64> = vec![b as u64, s as u64, d as u64, d as u64];
                proof {
                    reveal_with_fuel(prod_u64, 8);
                }
                let p3 = prod_or_max(&f3, Ghost(s3));
                p1 + p2 + p3
            },
            MLOperation::BatchNormalization { shape, .. } => {
                let (b, c, h, w) = shape;
                if b == 0 || c == 0 || h == 0 || w == 0 {
                    proof {
                        lemma_zero_factor5(6, b as int, c as int, h as int, w as int);
                    }
                    return 0;
                }
                let factors: Vec<u64> = vec![6, b as u64, c as u64, h as u64, w as u64];
                proof {
                    reveal_with_fuel(prod_u64, 8);
                }
                prod_or_max(&factors, Ghost(spec_estimated_flops(*self)))
            },
        }
    }
}

/// Compute the product of a factor list already known to be bounded.
fn prod_or_max(factors: &Vec<u64>, Ghost(total): Ghost<int>) -> (r: u64)
    requires
        total == prod_u64(factors@, factors@.len() as int),
        total <= u64::MAX,
        forall|i: int| 0 <= i < factors@.len() ==> #[trigger] factors@[i] >= 1,
    ensures
        r == total,
{
    proof {
        crate::arith::lemma_prod_u64_ok_from_bound(factors@, factors@.len() as int);
    }
    match crate::arith::checked_prod_u64(factors) {
        Some(v) => v,
        None => {
            proof {
                assert(false);
            }
            0
        },
    }
}

/// A product with a zero factor is zero.
proof fn lemma_zero_factor3(m: int, k: int, n: int)
    requires
        0 <= m && 0 <= k && 0 <= n,
        m == 0 || k == 0 || n == 0,
    ensures
        2 * m * k * n == 0,
{
    assert(2 * m * k * n == 0) by (nonlinear_arith)
        requires
            0 <= m && 0 <= k && 0 <= n,
            m == 0 || k == 0 || n == 0,
    ;
}

/// A product with a zero factor is zero.
proof fn lemma_zero_factor5(a: int, b: int, c: int, d: int, e: int)
    requires
        b == 0 || c == 0 || d == 0 || e == 0,
    ensures
        a * b * c * d * e == 0,
{
    assert(a * b * c * d * e == 0) by (nonlinear_arith)
        requires
            b == 0 || c == 0 || d == 0 || e == 0,
    ;
}

/// A product whose last factor is zero is zero.
proof fn lemma_zero_last6(a: int, b: int, c: int, d: int, e: int)
    ensures
        a * b * c * d * e * 0 == 0,
{
    assert(a * b * c * d * e * 0 == 0) by (nonlinear_arith);
}

/// A convolution count with any zero size is zero.
proof fn lemma_conv_zero(b: int, oc: int, ic: int, kh: int, kw: int, oh: int, ow: int)
    requires
        b == 0 || oc == 0 || ic == 0 || kh == 0 || kw == 0,
    ensures
        2 * b * oc * ic * kh * kw * oh * ow == 0,
{
    assert(2 * b * oc * ic * kh * kw * oh * ow == 0) by (nonlinear_arith)
        requires
            b == 0 || oc == 0 || ic == 0 || kh == 0 || kw == 0,
    ;
}

/// With a zero batch, length or width, every attention term vanishes.
proof fn lemma_attention_zero(b: int, s: int, d: int, h: int)
    requires
        0 <= b && 0 <= s && 0 <= d && 1 <= h,
        b == 0 || s == 0 || d == 0,
    ensures
        3 * b * s * d * d + 2 * b * h * s * s * (d / h) + b * s * d * d == 0,
{
    if d == 0 {
        vstd::arithmetic::div_mod::lemma_div_of0(h);
    }
    assert(3 * b * s * d * d == 0 && 2 * b * h * s * s * (d / h) == 0 && b * s * d * d == 0)
        by (nonlinear_arith)
        requires
            0 <= b && 0 <= s && 0 <= d && 0 <= h,
            b == 0 || s == 0 || d == 0,
            d == 0 ==> d / h == 0,
    ;
}

/// The attention terms are non-negative, so each is bounded by the total.
proof fn lemma_attention_summands(b: int, s: int, d: int, h: int, dk: int)
    requires
        0 <= b && 0 <= s && 0 <= d && 0 <= h && 0 <= dk,
    ensures
        0 <= 3 * b * s * d * d,
        0 <= 2 * b * h * s * s * dk,
        0 <= b * s * d * d,
{
    assert(0 <= 3 * b * s * d * d && 0 <= 2 * b * h * s * s * dk && 0 <= b * s * d * d)
        by (nonlinear_arith)
        requires
            0 <= b && 0 <= s && 0 <= d && 0 <= h && 0 <= dk,
    ;
}

/// The result of executing one operation.
#[derive(Clone, Debug)]
pub struct OperationResult {
    pub operation_type: String,
    pub execution_time_ms: u64,
    pub flops: u64,
    /// Hex content hash of the output tensor's bytes.
    pub result_hash: String,
}

/// A mining work unit: the operations to perform plus chain metadata.
#[derive(Debug)]
pub struct WorkUnit {
    pub id: String,
    pub previous_hash: String,
    pub timestamp: u64,
    pub difficulty: u64,
    pub operations: Vec<MLOperation>,
    pub nonce_range: (u64, u64),
}

/// The result of executing a whole work unit, handed to the submission
/// collaborator.
#[derive(Clone, Debug)]
pub struct WorkResult {
    pub work_id: String,
    pub nonce: u64,
    pub hash: String,
    pub execution_time_ms: u64,
    pub total_flops: u64,
    pub operation_results: Vec<OperationResult>,
}

} // verus!
