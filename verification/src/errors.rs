//! Error kinds for the engine. Kernel-level errors propagate to the
//! orchestrator, which fails the whole mining attempt; nothing here is
//! retried internally.

use vstd::prelude::*;

verus! {

/// What can go wrong while validating or executing work.
#[derive(Clone, Debug)]
pub enum DemleError {
    /// A work unit is malformed as a whole.
    InvalidWorkUnit(String),
    /// A kernel could not produce a result: invalid shape arithmetic, an
    /// overflowing element count, or a head split that does not divide.
    ComputationError(String),
    /// Malformed operation parameters, such as a kernel that does not fit
    /// its padded input.
    ValidationError(String),
    /// A work result could not be encoded for submission.
    SerializationError(String),
    /// The submission collaborator failed; never raised by the engine
    /// itself.
    NetworkError(String),
    /// A proof did not meet the difficulty requirement where it had to.
    ProofVerificationError(String),
    /// Rejected configuration, such as a zero block-time target.
    ConfigError(String),
}

} // verus!
