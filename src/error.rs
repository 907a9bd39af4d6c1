use vstd::prelude::*;

verus! {

/// The failures that the validation engine reports, independent of any transport.
#[derive(Clone, Copy, Debug, PartialEq, Eq, Structural)]
pub enum ProofError {
    /// The request was malformed (for example, no module was supplied).
    InvalidInput,
    /// The bytes do not form a loadable module, or its imports cannot be resolved.
    InvalidModule,
    /// The module lacks the entry export, or the export has the wrong signature.
    MissingExport,
    /// The guest trapped while running.
    ExecutionTrap,
    /// The guest ran past its step budget.
    ResourceExceeded,
    /// The storage backend failed.
    StorageFailure,
    /// A recomputed outcome disagrees with the persisted record for the same key.
    IntegrityMismatch,
    /// A non-empty credential could not be validated.
    Unauthorized,
    /// No blob is stored under the requested digest.
    NotFound,
}

/// The HTTP status that a boundary layer reports for an error.
pub open spec fn status_of(e: ProofError) -> u16 {
    match e {
        ProofError::InvalidInput => 400,
        ProofError::InvalidModule => 400,
        ProofError::MissingExport => 400,
        ProofError::ExecutionTrap => 400,
        ProofError::ResourceExceeded => 400,
        ProofError::StorageFailure => 500,
        ProofError::IntegrityMismatch => 409,
        ProofError::Unauthorized => 401,
        ProofError::NotFound => 404,
    }
}

impl ProofError {
    /// The HTTP status code for this error.
    pub fn status(&self) -> (r: u16)
        ensures
            r == status_of(*self),
    {
        match self {
            ProofError::InvalidInput => 400,
            ProofError::InvalidModule => 400,
            ProofError::MissingExport => 400,
            ProofError::ExecutionTrap => 400,
            ProofError::ResourceExceeded => 400,
            ProofError::StorageFailure => 500,
            ProofError::IntegrityMismatch => 409,
            ProofError::Unauthorized => 401,
            ProofError::NotFound => 404,
        }
    }

    /// Only storage failures may be retried; every other error is final.
    pub fn is_retryable(&self) -> (r: bool)
        ensures
            r == (*self == ProofError::StorageFailure),
    {
        match self {
            ProofError::StorageFailure => true,
            _ => false,
        }
    }
}

} // verus!
