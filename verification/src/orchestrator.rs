//! The work-unit orchestrator: dispatch of one operation to its kernel,
//! execution of a whole work unit in declaration order, aggregation into
//! a work result, and construction of fresh work units. A failed kernel
//! fails the whole attempt; nothing is retried here.

use vstd::prelude::*;
use crate::attention::{execute_attention, att_ok, att_output};
use crate::batch_norm::{execute_batch_norm, bn_ok, bn_output};
use crate::convolution::{execute_conv2d, conv_ok, conv_odim, conv_output};
use crate::errors::DemleError;
use crate::gemm::{execute_gemm, gemm_ok, gemm_output};
use crate::hashing::{md5_hex, md5_hex_of, sha3_hex_of};
use crate::text::{dec_str, join_comma, u64_to_string, join_with_comma};
use crate::types::{MLOperation, OperationResult, WorkUnit, WorkResult};

verus! {

/// Relies on std's SystemTime: milliseconds since the epoch, for timing
/// reports only; nothing is promised of the clock.
#[verifier::external_body]
fn now_millis() -> u64 {
    match std::time::SystemTime::now().duration_since(std::time::UNIX_EPOCH) {
        Ok(d) => d.as_millis() as u64,
        Err(_) => 0,
    }
}

/// Whether an operation's kernel can run.
pub open spec fn op_ok(op: MLOperation) -> bool {
    match op {
        MLOperation::MatrixMultiply { dimensions, .. } => gemm_ok(
            dimensions.0 as int,
            dimensions.1 as int,
            dimensions.2 as int,
        ),
        MLOperation::Convolution2D { input_shape, kernel_shape, stride, padding, .. } => conv_ok(
            input_shape.0 as int,
            input_shape.1 as int,
            input_shape.2 as int,
            input_shape.3 as int,
            kernel_shape.0 as int,
            kernel_shape.2 as int,
            kernel_shape.3 as int,
            stride.0 as int,
            stride.1 as int,
            padding.0 as int,
            padding.1 as int,
        ),
        MLOperation::MultiHeadAttention { batch_size, seq_length, d_model, num_heads, .. } => att_ok(
            batch_size as int,
            seq_length as int,
            d_model as int,
            num_heads as int,
        ),
        MLOperation::BatchNormalization { shape, .. } => bn_ok(
            shape.0 as int,
            shape.1 as int,
            shape.2 as int,
            shape.3 as int,
        ),
    }
}

/// Whether an operation carries malformed parameters, the case a kernel
/// reports as a validation error: only a convolution can, through a zero
/// stride or a kernel that does not fit its padded input. Every other
/// kernel failure is a computation error.
pub open spec fn op_invalid(op: MLOperation) -> bool {
    match op {
        MLOperation::Convolution2D { input_shape, kernel_shape, stride, padding, .. } => {
            crate::convolution::conv_invalid(
                input_shape.2 as int,
                input_shape.3 as int,
                kernel_shape.2 as int,
                kernel_shape.3 as int,
                stride.0 as int,
                stride.1 as int,
                padding.0 as int,
                padding.1 as int,
            )
        },
        _ => false,
    }
}

/// The output bytes an operation's kernel hashes.
pub open spec fn op_output_bytes(op: MLOperation) -> Seq<u8> {
    match op {
        MLOperation::MatrixMultiply { dimensions, seed } => gemm_output(
            seed,
            dimensions.0 as int,
            dimensions.1 as int,
            dimensions.2 as int,
        ),
        MLOperation::Convolution2D { input_shape, kernel_shape, stride, padding, seed } => conv_output(
            input_shape,
            kernel_shape,
            stride,
            padding,
            seed,
        ),
        MLOperation::MultiHeadAttention {
            batch_size,
            seq_length,
            d_model,
            num_heads,
            seed,
        } => att_output(
            batch_size as int,
            seq_length as int,
            d_model as int,
            num_heads as int,
            seed,
        ),
        MLOperation::BatchNormalization { shape, epsilon, seed } => bn_output(
            shape,
            epsilon,
            seed,
        ),
    }
}

/// The exact operation count an operation's kernel reports.
pub open spec fn op_flops(op: MLOperation) -> int {
    match op {
        MLOperation::MatrixMultiply { dimensions, .. } => 2 * (dimensions.0 as int) * (
        dimensions.1 as int) * (dimensions.2 as int),
        MLOperation::Convolution2D { input_shape, kernel_shape, stride, padding, .. } => 2 * (
        input_shape.0 as int) * (kernel_shape.0 as int) * (input_shape.1 as int) * (
        kernel_shape.2 as int) * (kernel_shape.3 as int) * conv_odim(
            input_shape.2 as int,
            kernel_shape.2 as int,
            stride.0 as int,
            padding.0 as int,
        ) * conv_odim(
            input_shape.3 as int,
            kernel_shape.3 as int,
            stride.1 as int,
            padding.1 as int,
        ),
        MLOperation::MultiHeadAttention { batch_size, seq_length, d_model, num_heads, .. } => 3
            * (batch_size as int) * (seq_length as int) * (d_model as int) * (d_model as int) + 2
            * (batch_size as int) * (num_heads as int) * (seq_length as int) * (
        seq_length as int) * ((d_model as int) / (num_heads as int)) + (batch_size as int) * (
        seq_length as int) * (d_model as int) * (d_model as int),
        MLOperation::BatchNormalization { shape, .. } => 6 * (shape.0 as int) * (shape.1 as int)
            * (shape.2 as int) * (shape.3 as int),
    }
}

/// The name an operation's result record carries.
pub open spec fn op_kind_name(op: MLOperation) -> Seq<char> {
    match op {
        MLOperation::MatrixMultiply { .. } => "matrix_multiply"@,
        MLOperation::Convolution2D { .. } => "convolution2d"@,
        MLOperation::MultiHeadAttention { .. } => "multi_head_attention"@,
        MLOperation::BatchNormalization { .. } => "batch_normalization"@,
    }
}

/// The name of an operation's kind.
fn kind_name(op: &MLOperation) -> (r: String)
    ensures
        r@ == op_kind_name(*op),
{
    match op {
        MLOperation::MatrixMultiply { .. } => String::from_str("matrix_multiply"),
        MLOperation::Convolution2D { .. } => String::from_str("convolution2d"),
        MLOperation::MultiHeadAttention { .. } => String::from_str("multi_head_attention"),
        MLOperation::BatchNormalization { .. } => String::from_str("batch_normalization"),
    }
}

/// Execute one operation: dispatch to its kernel, record the content
/// hash, the exact operation count and the wall time. Succeeds exactly
/// when the kernel can run; the error is the kernel's own.
pub fn execute_ml_operation(operation: &MLOperation) -> (r: Result<OperationResult, DemleError>)
    ensures
        r is Ok <==> op_ok(*operation),
        r is Ok ==> r->Ok_0.result_hash@ == sha3_hex_of(op_output_bytes(*operation)),
        r is Ok ==> r->Ok_0.result_hash@.len() == 64,
        r is Ok ==> r->Ok_0.flops == op_flops(*operation),
        r is Ok ==> r->Ok_0.operation_type@ == op_kind_name(*operation),
        r is Err ==> (r->Err_0 is ValidationError <==> op_invalid(*operation)),
        r is Err ==> r->Err_0 is ValidationError || r->Err_0 is ComputationError,
{
    let start = now_millis();
    let outcome: Result<(String, u64), DemleError> = match operation {
        MLOperation::MatrixMultiply { dimensions, seed } => execute_gemm(*dimensions, *seed),
        MLOperation::Convolution2D { input_shape, kernel_shape, stride, padding, seed } => {
            execute_conv2d(*input_shape, *kernel_shape, *stride, *padding, *seed)
        },
        MLOperation::MultiHeadAttention {
            batch_size,
            seq_length,
            d_model,
            num_heads,
            seed,
        } => execute_attention(*batch_size, *seq_length, *d_model, *num_heads, *seed),
        MLOperation::BatchNormalization { shape, epsilon, seed } => {
            execute_batch_norm(*shape, *epsilon, *seed)
        },
    };
    match outcome {
        Ok((result_hash, flops)) => {
            let end = now_millis();
            let execution_time_ms: u64 = if end >= start {
                end - start
            } else {
                0
            };
            Ok(
                OperationResult {
                    operation_type: kind_name(operation),
                    execution_time_ms,
                    flops,
                    result_hash,
                },
            )
        },
        Err(e) => Err(e),
    }
}

/// Execute a whole work unit's operations in declaration order. Succeeds
/// exactly when every kernel can run; the first failure is returned.
pub fn execute_work_unit(operations: &[MLOperation]) -> (r: Result<
    Vec<OperationResult>,
    DemleError,
>)
    ensures
        r is Ok <==> (forall|i: int|
            0 <= i < operations@.len() ==> op_ok(#[trigger] operations@[i])),
        r is Ok ==> r->Ok_0@.len() == operations@.len(),
        r is Ok ==> forall|i: int|
            0 <= i < operations@.len() ==> {
                &&& (#[trigger] r->Ok_0@[i]).result_hash@ == sha3_hex_of(
                    op_output_bytes(operations@[i]),
                )
                &&& r->Ok_0@[i].result_hash@.len() == 64
                &&& r->Ok_0@[i].flops == op_flops(operations@[i])
                &&& r->Ok_0@[i].operation_type@ == op_kind_name(operations@[i])
            },
        r is Err ==> exists|i: int|
            {
                &&& 0 <= i < operations@.len()
                &&& !#[trigger] op_ok(operations@[i])
                &&& forall|t: int| 0 <= t < i ==> op_ok(#[trigger] operations@[t])
                &&& (r->Err_0 is ValidationError <==> op_invalid(operations@[i]))
            },
        r is Err ==> r->Err_0 is ValidationError || r->Err_0 is ComputationError,
{
    let mut results: Vec<OperationResult> = Vec::new();
    let mut i: usize = 0;
    while i < operations.len()
        invariant
            i <= operations@.len(),
            results@.len() == i,
            forall|t: int| 0 <= t < i ==> op_ok(#[trigger] operations@[t]),
            forall|t: int|
                0 <= t < i ==> {
                    &&& (#[trigger] results@[t]).result_hash@ == sha3_hex_of(
                        op_output_bytes(operations@[t]),
                    )
                    &&& results@[t].result_hash@.len() == 64
                    &&& results@[t].flops == op_flops(operations@[t])
                    &&& results@[t].operation_type@ == op_kind_name(operations@[t])
                },
        decreases operations@.len() - i,
    {
        let op = operations[i];
        match execute_ml_operation(&op) {
            Ok(res) => {
                results.push(res);
            },
            Err(e) => {
                proof {
                    assert(!op_ok(operations@[i as int]));
                }
                return Err(e);
            },
        }
        i = i + 1;
    }
    Ok(results)
}

/// The sum of the first k operation counts.
pub open spec fn flops_sum(results: Seq<OperationResult>, k: int) -> int
    decreases k,
{
    if k <= 0 {
        0
    } else {
        flops_sum(results, k - 1) + results[k - 1].flops
    }
}

/// Partial sums of counts never decrease.
proof fn lemma_flops_sum_mono(results: Seq<OperationResult>, j: int, k: int)
    requires
        0 <= j <= k,
    ensures
        flops_sum(results, j) <= flops_sum(results, k),
    decreases k - j,
{
    if j < k {
        lemma_flops_sum_mono(results, j, k - 1);
    }
}

/// Total operation count of a list of results. The sum must fit the
/// machine's 64 bits, which every caller in the engine checks first.
pub fn calculate_total_flops(results: &[OperationResult]) -> (r: u64)
    requires
        flops_sum(results@, results@.len() as int) <= u64::MAX,
    ensures
        r == flops_sum(results@, results@.len() as int),
{
    let mut total: u64 = 0;
    let mut i: usize = 0;
    while i < results.len()
        invariant
            i <= results@.len(),
            total == flops_sum(results@, i as int),
            flops_sum(results@, results@.len() as int) <= u64::MAX,
        decreases results@.len() - i,
    {
        proof {
            lemma_flops_sum_mono(results@, i as int + 1, results@.len() as int);
        }
        total = total + results[i].flops;
        i = i + 1;
    }
    total
}

/// The text whose digest is a work result's combined hash: the starting
/// nonce, a colon, and the operation hashes joined with commas.
pub open spec fn mine_text(nonce: u64, hashes: Seq<Seq<char>>) -> Seq<char> {
    dec_str(nonce as int) + seq![':'] + join_comma(hashes)
}

/// The operation hash texts of a work unit's operations, in order.
pub open spec fn op_hashes_of(operations: Seq<MLOperation>) -> Seq<Seq<char>> {
    Seq::new(operations.len(), |i: int| sha3_hex_of(op_output_bytes(operations[i])))
}

/// Mine one work unit: execute every operation in order, sum the counts,
/// and combine the operation hashes with the starting nonce into the
/// result hash. Succeeds exactly when every kernel can run and the total
/// count fits 64 bits; aggregation preserves the declaration order of
/// the operations.
pub fn mine_work_unit(work_unit: &WorkUnit) -> (r: Result<WorkResult, DemleError>)
    ensures
        r is Ok <==> ((forall|i: int|
            0 <= i < work_unit.operations@.len() ==> op_ok(#[trigger] work_unit.operations@[i]))
            && op_flops_sum(work_unit.operations@, work_unit.operations@.len() as int)
            <= u64::MAX),
        r is Ok ==> r->Ok_0.work_id@ == work_unit.id@,
        r is Ok ==> r->Ok_0.nonce == work_unit.nonce_range.0,
        r is Ok ==> r->Ok_0.total_flops == op_flops_sum(
            work_unit.operations@,
            work_unit.operations@.len() as int,
        ),
        r is Ok ==> r->Ok_0.hash@ == md5_hex_of(
            vstd::utf8::encode_utf8(
                mine_text(work_unit.nonce_range.0, op_hashes_of(work_unit.operations@)),
            ),
        ),
        r is Ok ==> r->Ok_0.operation_results@.len() == work_unit.operations@.len(),
        r is Ok ==> forall|i: int|
            0 <= i < work_unit.operations@.len() ==> {
                &&& (#[trigger] r->Ok_0.operation_results@[i]).result_hash@ == sha3_hex_of(
                    op_output_bytes(work_unit.operations@[i]),
                )
                &&& r->Ok_0.operation_results@[i].result_hash@.len() == 64
            },
        r is Ok ==> r->Ok_0.hash@.len() == 32,
        r is Err && (forall|i: int|
            0 <= i < work_unit.operations@.len() ==> op_ok(
                #[trigger] work_unit.operations@[i],
            )) ==> r->Err_0 is ComputationError,
        r is Err ==> exists|i: int|
            {
                ||| {
                    &&& 0 <= i < work_unit.operations@.len()
                    &&& !#[trigger] op_ok(work_unit.operations@[i])
                    &&& forall|t: int| 0 <= t < i ==> op_ok(#[trigger] work_unit.operations@[t])
                    &&& (r->Err_0 is ValidationError <==> op_invalid(work_unit.operations@[i]))
                }
                ||| (forall|t: int|
                    0 <= t < work_unit.operations@.len() ==> op_ok(
                        #[trigger] work_unit.operations@[t],
                    )) && r->Err_0 is ComputationError
            },
        r is Err ==> r->Err_0 is ValidationError || r->Err_0 is ComputationError,
{
    let start = now_millis();
    let results = match execute_work_unit(work_unit.operations.as_slice()) {
        Ok(v) => v,
        Err(e) => {
            proof {
                if forall|i: int|
                    0 <= i < work_unit.operations@.len() ==> op_ok(
                        #[trigger] work_unit.operations@[i],
                    ) {
                    assert(false);
                }
            }
            return Err(e);
        },
    };
    let mut total_flops: u64 = 0;
    let mut hash_strings: Vec<String> = Vec::new();
    let mut i: usize = 0;
    while i < results.len()
        invariant
            i <= results@.len(),
            results@.len() == work_unit.operations@.len(),
            forall|t: int|
                0 <= t < work_unit.operations@.len() ==> op_ok(
                    #[trigger] work_unit.operations@[t],
                ),
            forall|t: int|
                0 <= t < results@.len() ==> {
                    &&& (#[trigger] results@[t]).result_hash@ == sha3_hex_of(
                        op_output_bytes(work_unit.operations@[t]),
                    )
                    &&& results@[t].flops == op_flops(work_unit.operations@[t])
                },
            total_flops == op_flops_sum(work_unit.operations@, i as int),
            hash_strings@.len() == i,
            forall|t: int|
                0 <= t < i ==> (#[trigger] hash_strings@[t])@ == sha3_hex_of(
                    op_output_bytes(work_unit.operations@[t]),
                ),
        decreases results@.len() - i,
    {
        match total_flops.checked_add(results[i].flops) {
            Some(t) => {
                total_flops = t;
            },
            None => {
                proof {
                    let ops = work_unit.operations@;
                    if op_flops_sum(ops, ops.len() as int) <= u64::MAX {
                        lemma_op_flops_sum_mono(ops, i as int + 1, ops.len() as int);
                    }
                }
                return Err(
                    DemleError::ComputationError(
                        String::from_str("total operation count overflows"),
                    ),
                );
            },
        }
        let h = results[i].result_hash.clone();
        hash_strings.push(h);
        i = i + 1;
    }
    let mut text = u64_to_string(work_unit.nonce_range.0);
    text.append(":");
    let joined = join_with_comma(&hash_strings);
    text.append(joined.as_str());
    proof {
        reveal_strlit(":");
        assert(":"@ =~= seq![':']);
        assert(hash_strings.deep_view() =~= op_hashes_of(work_unit.operations@));
        assert(text@ =~= mine_text(work_unit.nonce_range.0, op_hashes_of(work_unit.operations@)));
    }
    let result_hash = md5_hex(text.as_str().as_bytes());
    let end = now_millis();
    let execution_time_ms: u64 = if end >= start {
        end - start
    } else {
        0
    };
    Ok(
        WorkResult {
            work_id: work_unit.id.clone(),
            nonce: work_unit.nonce_range.0,
            hash: result_hash,
            execution_time_ms,
            total_flops,
            operation_results: results,
        },
    )
}

/// The sum of the first k operations' counts.
pub open spec fn op_flops_sum(operations: Seq<MLOperation>, k: int) -> int
    decreases k,
{
    if k <= 0 {
        0
    } else {
        op_flops_sum(operations, k - 1) + op_flops(operations[k - 1])
    }
}

/// An operation that can run reports a non-negative count, so partial
/// sums never decrease.
proof fn lemma_op_flops_sum_mono(operations: Seq<MLOperation>, j: int, k: int)
    requires
        0 <= j <= k,
        forall|i: int| 0 <= i < k ==> op_ok(#[trigger] operations[i]),
    ensures
        op_flops_sum(operations, j) <= op_flops_sum(operations, k),
    decreases k - j,
{
    if j < k {
        lemma_op_flops_sum_mono(operations, j, k - 1);
        lemma_op_flops_nonneg(operations[k - 1]);
    }
}

/// Every operation count is a product of sizes, hence non-negative.
proof fn lemma_op_flops_nonneg(op: MLOperation)
    requires
        op_ok(op),
    ensures
        op_flops(op) >= 0,
{
    match op {
        MLOperation::MatrixMultiply { dimensions, .. } => {
            assert(2 * (dimensions.0 as int) * (dimensions.1 as int) * (dimensions.2 as int)
                >= 0) by (nonlinear_arith);
        },
        MLOperation::Convolution2D { input_shape, kernel_shape, stride, padding, .. } => {
            let oh = conv_odim(
                input_shape.2 as int,
                kernel_shape.2 as int,
                stride.0 as int,
                padding.0 as int,
            );
            let ow = conv_odim(
                input_shape.3 as int,
                kernel_shape.3 as int,
                stride.1 as int,
                padding.1 as int,
            );
            vstd::arithmetic::div_mod::lemma_div_pos_is_pos(
                (input_shape.2 as int) + 2 * (padding.0 as int) - (kernel_shape.2 as int),
                stride.0 as int,
            );
            vstd::arithmetic::div_mod::lemma_div_pos_is_pos(
                (input_shape.3 as int) + 2 * (padding.1 as int) - (kernel_shape.3 as int),
                stride.1 as int,
            );
            assert(2 * (input_shape.0 as int) * (kernel_shape.0 as int) * (input_shape.1 as int)
                * (kernel_shape.2 as int) * (kernel_shape.3 as int) * oh * ow >= 0)
                by (nonlinear_arith)
                requires
                    oh >= 0,
                    ow >= 0,
            ;
        },
        MLOperation::MultiHeadAttention { batch_size, seq_length, d_model, num_heads, .. } => {
            vstd::arithmetic::div_mod::lemma_div_pos_is_pos(d_model as int, num_heads as int);
            assert(3 * (batch_size as int) * (seq_length as int) * (d_model as int) * (
            d_model as int) >= 0 && 2 * (batch_size as int) * (num_heads as int) * (
            seq_length as int) * (seq_length as int) * ((d_model as int) / (num_heads as int))
                >= 0 && (batch_size as int) * (seq_length as int) * (d_model as int) * (
            d_model as int) >= 0) by (nonlinear_arith)
                requires
                    (d_model as int) / (num_heads as int) >= 0,
            ;
        },
        MLOperation::BatchNormalization { shape, .. } => {
            assert(6 * (shape.0 as int) * (shape.1 as int) * (shape.2 as int) * (shape.3 as int)
                >= 0) by (nonlinear_arith);
        },
    }
}

/// Compute rate in milli-teraflops for an operation count: a teraflop is
/// 10^12 operations, reported in thousandths, flooring.
pub fn flops_to_teraflops(flops: u64) -> (r: u64)
    ensures
        r == flops / 1000000000,
{
    flops / 1_000_000_000
}

/// Operation count for a compute rate in milli-teraflops: the inverse of
/// `flops_to_teraflops` on whole values.
pub fn teraflops_to_flops(milli_teraflops: u64) -> (r: u64)
    requires
        milli_teraflops * 1000000000 <= u64::MAX,
    ensures
        r == milli_teraflops * 1000000000,
{
    milli_teraflops * 1_000_000_000
}

/// Operations per second from a count and a duration: count times one
/// thousand over milliseconds, flooring, capped at the machine range; a
/// zero duration reports zero.
pub fn calculate_flops_per_second(total_flops: u64, total_time_ms: u64) -> (r: u64)
    ensures
        total_time_ms == 0 ==> r == 0,
        total_time_ms >= 1 ==> ({
            let exact = ((total_flops as int) * 1000) / (total_time_ms as int);
            r == if exact > u64::MAX {
                u64::MAX as int
            } else {
                exact
            }
        }),
{
    if total_time_ms == 0 {
        0
    } else {
        let v: u128 = ((total_flops as u128) * 1000) / (total_time_ms as u128);
        if v > 0xffff_ffff_ffff_ffff {
            u64::MAX
        } else {
            v as u64
        }
    }
}

/// Assemble a fresh work unit for a mining attempt: the standard
/// operation list, seeded from the nonce, with a thousand-nonce range.
pub fn build_work_unit(nonce: u64, timestamp: u64, difficulty: u64) -> (w: WorkUnit)
    requires
        nonce <= u64::MAX - 1000,
    ensures
        w.id@ == "work_"@ + dec_str(nonce as int),
        w.previous_hash@ == "0x0000000000000000000000000000000000000000"@,
        w.timestamp == timestamp,
        w.difficulty == difficulty,
        w.nonce_range == ((nonce, (nonce + 1000) as u64)),
        w.operations@.len() == 3,
        w.operations@[0] == (MLOperation::MatrixMultiply {
            dimensions: (16384, 16384, 8192),
            seed: nonce,
        }),
        w.operations@[1] == (MLOperation::MultiHeadAttention {
            batch_size: 64,
            seq_length: 1024,
            d_model: 4096,
            num_heads: 64,
            seed: (nonce + 1) as u64,
        }),
        w.operations@[2] == (MLOperation::MatrixMultiply {
            dimensions: (8192, 8192, 4096),
            seed: (nonce + 2) as u64,
        }),
{
    let mut id = String::from_str("work_");
    let tail = u64_to_string(nonce);
    id.append(tail.as_str());
    let operations: Vec<MLOperation> = vec![
        MLOperation::MatrixMultiply { dimensions: (16384, 16384, 8192), seed: nonce },
        MLOperation::MultiHeadAttention {
            batch_size: 64,
            seq_length: 1024,
            d_model: 4096,
            num_heads: 64,
            seed: nonce + 1,
        },
        MLOperation::MatrixMultiply { dimensions: (8192, 8192, 4096), seed: nonce + 2 },
    ];
    WorkUnit {
        id,
        previous_hash: String::from_str("0x0000000000000000000000000000000000000000"),
        timestamp,
        difficulty,
        operations,
        nonce_range: (nonce, nonce + 1000),
    }
}

/// Executing the same operation twice yields identical results: the hash
/// and the count are functions of the operation alone, as
/// `execute_ml_operation`'s contract states.
pub proof fn lemma_operation_deterministic(
    op: MLOperation,
    a: OperationResult,
    b: OperationResult,
)
    requires
        a.result_hash@ == sha3_hex_of(op_output_bytes(op)),
        b.result_hash@ == sha3_hex_of(op_output_bytes(op)),
        a.flops == op_flops(op),
        b.flops == op_flops(op),
    ensures
        a.result_hash@ == b.result_hash@,
        a.flops == b.flops,
{
}

/// Mining the same work unit twice yields identical combined hashes and
/// totals: both are functions of the unit's operations and starting
/// nonce alone, as `mine_work_unit`'s contract states.
pub proof fn lemma_mining_deterministic(
    operations: Seq<MLOperation>,
    nonce: u64,
    a: WorkResult,
    b: WorkResult,
)
    requires
        a.hash@ == md5_hex_of(vstd::utf8::encode_utf8(mine_text(nonce, op_hashes_of(operations)))),
        b.hash@ == md5_hex_of(vstd::utf8::encode_utf8(mine_text(nonce, op_hashes_of(operations)))),
        a.total_flops == op_flops_sum(operations, operations.len() as int),
        b.total_flops == op_flops_sum(operations, operations.len() as int),
    ensures
        a.hash@ == b.hash@,
        a.total_flops == b.total_flops,
{
}

} // verus!
