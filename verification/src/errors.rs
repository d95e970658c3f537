//! Error taxonomy of the settlement engine.
//!
//! Every fallible operation of the library surfaces one of these values;
//! only `Web3ErrorType::ReferenceError` is ever retried (inside the
//! indexer's poll loop), every other condition is fatal to its operation.

use vstd::prelude::*;

verus! {

/// Identifier of a record that a lookup failed to find.
#[derive(Debug, Clone)]
pub enum EntityId {
    Int(i32),
    Str(String),
    Uid(u128),
}

/// Arithmetic failures; checked arithmetic never wraps silently.
#[derive(Debug, Clone, PartialEq, Eq, Structural)]
pub enum MathErrorType {
    NumericalOverflow,
}

/// Failures of the ledger-facing operations.
#[derive(Debug, Clone)]
pub enum Web3ErrorType {
    /// A condition described by a free-form message.
    Custom(String),
    /// No ledger entry references the searched tag yet (transient).
    ReferenceError,
    /// The required signer is missing from a submitted transaction.
    InvalidSigner,
    /// An instruction is not one of the recognized transfer variants.
    UnsupportedInstruction,
    /// A located transaction failed one of the transfer checks.
    ValidateTransferError(String),
}

/// The error type shared by the engine's services.
#[derive(Debug, Clone)]
pub enum ServiceError {
    EntityNotFound { entity: &'static str, id: EntityId },
    Database(String),
    UserNotFound,
    Web3Error(Web3ErrorType),
    SerializationError(String),
    KeypairError(String),
    MathError(MathErrorType),
    EnvMissing(&'static str),
}

impl ServiceError {
    /// True of the one transient error: the reference tag was not found
    /// in ledger history yet, so the indexer may retry.
    pub open spec fn is_reference_error(&self) -> bool {
        match self {
            ServiceError::Web3Error(Web3ErrorType::ReferenceError) => true,
            _ => false,
        }
    }

    /// Executable test for the transient not-found condition.
    pub fn is_transient(&self) -> (r: bool)
        ensures
            r == self.is_reference_error(),
    {
        match self {
            ServiceError::Web3Error(Web3ErrorType::ReferenceError) => true,
            _ => false,
        }
    }
}

} // verus!
