//! Errors of the boundary call API, and the decisions around them: mapping
//! the host's numeric error codes into typed errors, and validating the
//! index a payload is stored under.  The raw host calls themselves live
//! outside the library, at the boundary's edge.

use vstd::prelude::*;

verus! {

/// Error signalled by the host across the boundary, as a numeric code.
#[derive(Debug, PartialEq, Eq, Structural, Clone, Copy)]
pub enum HostError {
    HoliumError(u32),
}

/// All errors a boundary call can surface.
#[derive(Debug, PartialEq, Eq, Structural, Clone, Copy)]
pub enum ExecutionError {
    InvalidIndexError,
    NoContentError,
    OutOfMemoryError,
    ExternalSerializationError,
    CborSerializationError,
    UnknownError,
}

/// The typed error each host error code stands for: codes one to four have
/// a fixed meaning, every other code is unknown.
pub open spec fn error_of_code(errno: u32) -> ExecutionError {
    if errno == 1 {
        ExecutionError::InvalidIndexError
    } else if errno == 2 {
        ExecutionError::NoContentError
    } else if errno == 3 {
        ExecutionError::OutOfMemoryError
    } else if errno == 4 {
        ExecutionError::ExternalSerializationError
    } else {
        ExecutionError::UnknownError
    }
}

impl From<HostError> for ExecutionError {
    fn from(e: HostError) -> (r: ExecutionError) {
        match e {
            HostError::HoliumError(errno) => {
                if errno == 1 {
                    ExecutionError::InvalidIndexError
                } else if errno == 2 {
                    ExecutionError::NoContentError
                } else if errno == 3 {
                    ExecutionError::OutOfMemoryError
                } else if errno == 4 {
                    ExecutionError::ExternalSerializationError
                } else {
                    ExecutionError::UnknownError
                }
            },
        }
    }
}

impl vstd::std_specs::convert::FromSpecImpl<HostError> for ExecutionError {
    open spec fn obeys_from_spec() -> bool {
        true
    }

    open spec fn from_spec(e: HostError) -> ExecutionError {
        match e {
            HostError::HoliumError(errno) => error_of_code(errno),
        }
    }
}

/// Check the index a payload is to be stored under or read from: an empty
/// index is rejected, any other accepted.
pub fn validate_index(index: &str) -> (r: Result<(), ExecutionError>)
    ensures
        index@.len() == 0 ==> r == Err::<(), ExecutionError>(
            ExecutionError::InvalidIndexError,
        ),
        index@.len() > 0 ==> r is Ok,
{
    if index.unicode_len() == 0 {
        Err(ExecutionError::InvalidIndexError)
    } else {
        Ok(())
    }
}

} // verus!
