//! The orchestrator: operation dispatch, whole work units, aggregation
//! and end-to-end determinism.

use demle::orchestrator::{
    build_work_unit, calculate_total_flops, execute_ml_operation, execute_work_unit,
    flops_to_teraflops, mine_work_unit, teraflops_to_flops,
};
use demle::gemm::{execute_gemm, execute_gemm_blocked};
use demle::{MLOperation, WorkUnit};

#[test]
fn test_flops_conversion() {
    // teraflops are carried in thousandths: 2.5 teraflops
    let teraflops = 2.5f64;
    let milli = (teraflops * 1000.0) as u64;
    let flops = teraflops_to_flops(milli);
    assert_eq!(flops, 2_500_000_000_000);
    let converted_back = flops_to_teraflops(flops) as f64 / 1000.0;

    assert!((converted_back - teraflops).abs() < 0.001);
}

#[test]
fn test_matrix_multiply_execution() {
    let operation = MLOperation::MatrixMultiply {
        dimensions: (32, 32, 32),
        seed: 42,
    };

    let result = execute_ml_operation(&operation);
    assert!(result.is_ok());

    let result = result.unwrap();
    assert!(result.flops > 0);
    assert!(!result.result_hash.is_empty());
}

#[test]
fn test_work_unit_execution() {
    let operations = vec![
        MLOperation::MatrixMultiply {
            dimensions: (64, 64, 64),
            seed: 1,
        },
        MLOperation::BatchNormalization {
            shape: (32, 64, 32, 32),
            epsilon: 10000,
            seed: 2,
        },
    ];

    let results = execute_work_unit(&operations).unwrap();
    assert_eq!(results.len(), 2);

    let total_flops = calculate_total_flops(&results);
    assert!(total_flops > 0);
}

#[test]
fn operation_results_carry_kind_and_hash() {
    let op = MLOperation::BatchNormalization {
        shape: (1, 2, 3, 3),
        epsilon: 10000,
        seed: 5,
    };
    let res = execute_ml_operation(&op).unwrap();
    assert_eq!(res.operation_type, "batch_normalization");
    assert_eq!(res.result_hash.len(), 64);
    assert_eq!(res.flops, 6 * 2 * 3 * 3);
}

#[test]
fn work_unit_fails_on_first_bad_operation() {
    let operations = vec![
        MLOperation::MatrixMultiply {
            dimensions: (4, 4, 4),
            seed: 1,
        },
        MLOperation::MultiHeadAttention {
            batch_size: 1,
            seq_length: 4,
            d_model: 10,
            num_heads: 4,
            seed: 2,
        },
    ];
    assert!(execute_work_unit(&operations).is_err());
}

fn small_unit(nonce: u64) -> WorkUnit {
    WorkUnit {
        id: String::from("unit"),
        previous_hash: String::from("0x00"),
        timestamp: 7,
        difficulty: 1000,
        operations: vec![
            MLOperation::MatrixMultiply {
                dimensions: (8, 8, 8),
                seed: nonce,
            },
            MLOperation::Convolution2D {
                input_shape: (1, 2, 6, 6),
                kernel_shape: (2, 2, 3, 3),
                stride: (1, 1),
                padding: (1, 1),
                seed: nonce + 1,
            },
            MLOperation::MultiHeadAttention {
                batch_size: 1,
                seq_length: 4,
                d_model: 16,
                num_heads: 4,
                seed: nonce + 2,
            },
            MLOperation::BatchNormalization {
                shape: (1, 2, 3, 3),
                epsilon: 10000,
                seed: nonce + 3,
            },
        ],
        nonce_range: (nonce, nonce + 100),
    }
}

#[test]
fn end_to_end_mining_is_deterministic() {
    // a fixed nonce and one operation of each kind, executed twice,
    // produce identical work results
    let a = mine_work_unit(&small_unit(99)).unwrap();
    let b = mine_work_unit(&small_unit(99)).unwrap();
    assert_eq!(a.hash, b.hash);
    assert_eq!(a.total_flops, b.total_flops);
    assert_eq!(a.nonce, 99);
    assert_eq!(a.work_id, "unit");
    assert_eq!(a.operation_results.len(), 4);
    assert_eq!(a.hash.len(), 32);

    // a different nonce reseeds the kernels and changes the hash
    let c = mine_work_unit(&small_unit(100)).unwrap();
    assert_ne!(a.hash, c.hash);
}

#[test]
fn executing_twice_gives_identical_operation_results() {
    let op = MLOperation::Convolution2D {
        input_shape: (1, 2, 8, 8),
        kernel_shape: (3, 2, 3, 3),
        stride: (2, 2),
        padding: (1, 1),
        seed: 77,
    };
    let a = execute_ml_operation(&op).unwrap();
    let b = execute_ml_operation(&op).unwrap();
    assert_eq!(a.result_hash, b.result_hash);
    assert_eq!(a.flops, b.flops);
}

#[test]
fn built_work_units_are_well_formed() {
    let w = build_work_unit(5, 1234, 1000000);
    assert_eq!(w.id, "work_5");
    assert_eq!(w.timestamp, 1234);
    assert_eq!(w.difficulty, 1000000);
    assert_eq!(w.operations.len(), 3);
    assert_eq!(w.nonce_range, (5, 1005));
    assert_eq!(
        w.previous_hash,
        "0x0000000000000000000000000000000000000000"
    );
}

#[test]
fn estimated_flops_matches_kernel_reports() {
    let op = MLOperation::MatrixMultiply {
        dimensions: (8, 8, 8),
        seed: 1,
    };
    assert_eq!(op.estimated_flops(), 1024);
    let bn = MLOperation::BatchNormalization {
        shape: (2, 2, 2, 2),
        epsilon: 10000,
        seed: 1,
    };
    assert_eq!(bn.estimated_flops(), 96);
}

#[test]
fn blocked_schedule_matches_straight_gemm() {
    // scheduling must not change the hash that is folded into the proof
    let straight = execute_gemm((32, 32, 32), 456).unwrap();
    let blocked = execute_gemm_blocked((32, 32, 32), 456, 8).unwrap();
    assert_eq!(straight.0, blocked.0);
    assert_eq!(straight.1, blocked.1);
}

#[test]
fn test_blocked_gemm() {
    let dimensions = (128, 128, 128);
    let seed = 456;
    let block_size = 32;

    let result = execute_gemm_blocked(dimensions, seed, block_size);
    assert!(result.is_ok());

    let (hash, flops) = result.unwrap();
    assert!(!hash.is_empty());
    assert_eq!(flops, 2 * 128 * 128 * 128);
}
