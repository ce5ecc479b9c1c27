//! The errors that the analysis reports.

use vstd::prelude::*;

verus! {

/// The status of a failed verification step.
#[derive(Clone, Copy, Debug, PartialEq, Eq, Structural)]
pub enum StatusCode {
    /// A mutable reference that is handed to a call is still borrowed.
    CallBorrowedMutableReferenceError,
    /// A mutable borrow of a vector element would alias another borrow of the vector.
    VecBorrowElementExistsMutableBorrowError,
    /// A definition that only modules have was looked up in a script.
    InvalidOperationInScript,
    /// The operand stack does not have the shape that earlier verification passes guarantee.
    UnknownInvariantViolationError,
    /// A status that the borrow state or the meter raised, by its number in the table of virtual
    /// machine statuses.
    Other(u64),
}

/// An error, before the place where it occurred is known.
#[derive(Debug, PartialEq, Eq)]
pub struct PartialVMError {
    pub major_status: StatusCode,
    /// What the borrow state or the meter adds to the status.
    pub sub_status: Option<u64>,
    /// What the borrow state or the meter says of the error.
    pub message: Option<String>,
}

pub type PartialVMResult<T> = Result<T, PartialVMError>;

impl PartialVMError {
    /// An error with a status and nothing else.
    pub fn new(major_status: StatusCode) -> (error: PartialVMError)
        ensures
            error == PartialVMError::plain(major_status),
    {
        PartialVMError { major_status, sub_status: None, message: None }
    }

    /// An error with a status and nothing else.
    pub open spec fn plain(major_status: StatusCode) -> PartialVMError {
        PartialVMError { major_status, sub_status: None, message: None }
    }

    /// The error for an operand stack that is not as earlier passes left it.
    pub open spec fn invariant_violation() -> PartialVMError {
        PartialVMError::plain(StatusCode::UnknownInvariantViolationError)
    }

    /// The error for a definition that is looked up in a script.
    pub open spec fn in_script() -> PartialVMError {
        PartialVMError::plain(StatusCode::InvalidOperationInScript)
    }
}

} // verus!
