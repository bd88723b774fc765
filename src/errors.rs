//! Errors of the controller's transactions, and the HTTP status each maps to.

use vstd::prelude::*;

use crate::models::DatumOwnershipError;

verus! {

/// Why a transaction was refused, other than for ownership.
#[derive(Debug, Clone, Copy, PartialEq, Eq)]
pub enum InternalError {
    /// No job has the requested identifier or name.
    JobNotFound,
    /// No datum has the requested identifier.
    DatumNotFound,
    /// A datum patch that neither marks the datum done nor failed.
    InvalidDatumPatch,
    /// An output file patch whose status is neither `Done` nor `Error`.
    InvalidOutputFilePatch,
    /// A job with the requested name already exists.
    DuplicateJobName,
    /// A datum may not be attempted fewer than once.
    InvalidRunCount,
    /// A datum must have at least one input file.
    EmptyDatum,
    /// Only a finished job can be retried.
    JobNotFinished,
    /// No identifiers are left for the records a job needs.
    IdsExhausted,
}

/// An error of a controller transaction.
#[derive(Debug, PartialEq, Eq)]
pub enum FalconeridError {
    /// Internal server error (500).
    Internal(InternalError),
    /// Forbidden: ownership verification failed (403).
    Forbidden(DatumOwnershipError),
}

impl FalconeridError {
    /// The HTTP status code that this error is reported with.
    pub fn status_code(&self) -> (r: u16)
        ensures
            r == (match self {
                FalconeridError::Internal(_) => 500u16,
                FalconeridError::Forbidden(_) => 403u16,
            }),
    {
        match self {
            FalconeridError::Internal(_) => 500,
            FalconeridError::Forbidden(_) => 403,
        }
    }
}

} // verus!
