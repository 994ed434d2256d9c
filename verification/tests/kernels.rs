//! Kernel-level behaviour: the four kernels, their determinism, their
//! operation-count formulas, and their error cases.

use demle::attention::execute_attention;
use demle::batch_norm::execute_batch_norm;
use demle::convolution::execute_conv2d;
use demle::gemm::execute_gemm;
use demle::DemleError;

#[test]
fn test_gemm_execution() {
    let dimensions = (64, 64, 64);
    let seed = 42;

    let result = execute_gemm(dimensions, seed);
    assert!(result.is_ok());

    let (hash, flops) = result.unwrap();
    assert!(!hash.is_empty());
    assert_eq!(flops, 2 * 64 * 64 * 64);
}

#[test]
fn test_gemm_deterministic() {
    let dimensions = (32, 32, 32);
    let seed = 123;

    let result1 = execute_gemm(dimensions, seed).unwrap();
    let result2 = execute_gemm(dimensions, seed).unwrap();

    // Same seed should produce same result
    assert_eq!(result1.0, result2.0);
    assert_eq!(result1.1, result2.1);
}

#[test]
fn gemm_flop_formula_exact() {
    let (_hash, flops) = execute_gemm((64, 64, 64), 7).unwrap();
    assert_eq!(flops, 524288);
}

#[test]
fn gemm_different_seeds_differ() {
    let a = execute_gemm((16, 16, 16), 1).unwrap();
    let b = execute_gemm((16, 16, 16), 2).unwrap();
    assert_ne!(a.0, b.0);
}

#[test]
fn test_conv2d_execution() {
    let input_shape = (1, 3, 32, 32); // Small image
    let kernel_shape = (16, 3, 3, 3); // 16 filters, 3x3 kernels
    let stride = (1, 1);
    let padding = (0, 0);
    let seed = 42;

    let result = execute_conv2d(input_shape, kernel_shape, stride, padding, seed);
    assert!(result.is_ok());

    let (hash, flops) = result.unwrap();
    assert!(!hash.is_empty());
    assert!(flops > 0);
}

#[test]
fn test_conv2d_deterministic() {
    let input_shape = (1, 1, 8, 8);
    let kernel_shape = (1, 1, 3, 3);
    let stride = (1, 1);
    let padding = (0, 0);
    let seed = 123;

    let result1 = execute_conv2d(input_shape, kernel_shape, stride, padding, seed).unwrap();
    let result2 = execute_conv2d(input_shape, kernel_shape, stride, padding, seed).unwrap();

    assert_eq!(result1.0, result2.0);
    assert_eq!(result1.1, result2.1);
}

#[test]
fn conv2d_flop_formula_exact() {
    // oh = ow = 30, so flops = 2 * 1 * 16 * 3 * 3 * 3 * 30 * 30
    let (_hash, flops) = execute_conv2d((1, 3, 32, 32), (16, 3, 3, 3), (1, 1), (0, 0), 9).unwrap();
    assert_eq!(flops, 2 * 16 * 3 * 3 * 3 * 30 * 30);
}

#[test]
fn conv2d_zero_stride_is_validation_error() {
    let r = execute_conv2d((1, 1, 8, 8), (1, 1, 3, 3), (0, 1), (0, 0), 5);
    assert!(matches!(r, Err(DemleError::ValidationError(_))));
}

#[test]
fn conv2d_oversized_kernel_is_validation_error() {
    let r = execute_conv2d((1, 1, 4, 4), (1, 1, 9, 9), (1, 1), (1, 1), 5);
    assert!(matches!(r, Err(DemleError::ValidationError(_))));
}

#[test]
fn conv2d_padding_changes_output() {
    let a = execute_conv2d((1, 1, 6, 6), (1, 1, 3, 3), (1, 1), (0, 0), 11).unwrap();
    let b = execute_conv2d((1, 1, 6, 6), (1, 1, 3, 3), (1, 1), (1, 1), 11).unwrap();
    assert_ne!(a.0, b.0);
    assert!(b.1 > a.1);
}

#[test]
fn test_attention_execution() {
    let batch_size = 2;
    let seq_length = 16;
    let d_model = 64;
    let num_heads = 8;
    let seed = 42;

    let result = execute_attention(batch_size, seq_length, d_model, num_heads, seed);
    assert!(result.is_ok());

    let (hash, flops) = result.unwrap();
    assert!(!hash.is_empty());
    assert!(flops > 0);
}

#[test]
fn test_attention_deterministic() {
    let batch_size = 1;
    let seq_length = 8;
    let d_model = 32;
    let num_heads = 4;
    let seed = 123;

    let result1 = execute_attention(batch_size, seq_length, d_model, num_heads, seed).unwrap();
    let result2 = execute_attention(batch_size, seq_length, d_model, num_heads, seed).unwrap();

    assert_eq!(result1.0, result2.0);
    assert_eq!(result1.1, result2.1);
}

#[test]
fn attention_flop_formula_exact() {
    let (b, s, d, h) = (1u64, 8u64, 32u64, 4u64);
    let dk = d / h;
    let expected = 3 * b * s * d * d + 2 * b * h * s * s * dk + b * s * d * d;
    let (_hash, flops) = execute_attention(1, 8, 32, 4, 5).unwrap();
    assert_eq!(flops, expected);
}

#[test]
fn attention_zero_heads_is_computation_error() {
    let r = execute_attention(1, 8, 32, 0, 5);
    assert!(matches!(r, Err(DemleError::ComputationError(_))));
}

#[test]
fn attention_indivisible_heads_is_computation_error() {
    let r = execute_attention(1, 8, 30, 4, 5);
    assert!(matches!(r, Err(DemleError::ComputationError(_))));
}

#[test]
fn test_batch_norm_execution() {
    let shape = (4, 16, 8, 8); // Small batch
    let epsilon = 10000; // 1e-5 in nanos
    let seed = 42;

    let result = execute_batch_norm(shape, epsilon, seed);
    assert!(result.is_ok());

    let (hash, flops) = result.unwrap();
    assert!(!hash.is_empty());
    assert!(flops > 0);
}

#[test]
fn test_batch_norm_deterministic() {
    let shape = (2, 4, 4, 4);
    let epsilon = 10000;
    let seed = 123;

    let result1 = execute_batch_norm(shape, epsilon, seed).unwrap();
    let result2 = execute_batch_norm(shape, epsilon, seed).unwrap();

    assert_eq!(result1.0, result2.0);
    assert_eq!(result1.1, result2.1);
}

#[test]
fn batch_norm_flop_formula_exact() {
    let (_hash, flops) = execute_batch_norm((2, 3, 4, 5), 10000, 8).unwrap();
    assert_eq!(flops, 6 * 2 * 3 * 4 * 5);
}

#[test]
fn batch_norm_seed_changes_output() {
    let a = execute_batch_norm((1, 2, 3, 3), 10000, 456).unwrap();
    let b = execute_batch_norm((1, 2, 3, 3), 10000, 457).unwrap();
    assert_ne!(a.0, b.0);
    assert_eq!(a.1, b.1);
}

#[test]
fn batch_norm_epsilon_reaches_the_kernel() {
    // The classic pairing of epsilons 1e-5 and 1e-4 cannot distinguish
    // outputs here: with a 3-bit mantissa, sqrt(variance + epsilon) near
    // one sits in the same quantization cell for both, so equal hashes
    // are forced. The shift below is made large enough to move the
    // standard deviation across a cell and show the epsilon reaching the
    // kernel; the flop count must not change.
    let shape = (1, 2, 3, 3);
    let seed = 456;

    let result1 = execute_batch_norm(shape, 10000, seed).unwrap();
    let result2 = execute_batch_norm(shape, 2_000_000_000, seed).unwrap();

    assert_ne!(result1.0, result2.0);
    assert_eq!(result1.1, result2.1);
}
