//! A proof-of-useful-work engine: deterministic machine-learning numeric
//! kernels over an 8-bit minifloat format, with FLOP accounting, proof
//! construction and verification, and difficulty retargeting.

pub mod arith;
pub mod attention;
pub mod batch_norm;
pub mod convolution;
pub mod difficulty;
pub mod errors;
pub mod fp8;
pub mod gemm;
pub mod hashing;
pub mod operations;
pub mod orchestrator;
pub mod rng;
pub mod tensor;
pub mod text;
pub mod types;
pub mod work_proof;

pub use errors::DemleError;
pub use fp8::FP8;
pub use types::{MLOperation, NetworkConfig, OperationResult, WorkResult, WorkUnit};
pub use work_proof::Proof;
