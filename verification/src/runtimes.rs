//! Runtimes: conflicting refs, and which readers see a runtime's
//! execution configuration.

use vstd::prelude::*;
use crate::auth::{api_err, outcome, ApiError, ErrorKind, ErrorView};

verus! {

/// The error for a runtime ref that is taken.
pub open spec fn runtime_exists_message(runtime_ref: Seq<char>) -> Seq<char> {
    "Runtime with ref '"@ + runtime_ref + "' already exists"@
}

/// A new runtime's ref must not be in use.
pub fn check_runtime_ref_available(runtime_ref: &str, taken: bool) -> (r: Result<(), ApiError>)
    ensures
        outcome(r) == if taken {
            Err(api_err(ErrorKind::Conflict, runtime_exists_message(runtime_ref@)))
        } else {
            Ok::<(), ErrorView>(())
        },
{
    if taken {
        let mut message = String::from_str("Runtime with ref '");
        message.append(runtime_ref);
        message.append("' already exists");
        return Err(ApiError::Conflict(message));
    }
    Ok(())
}

/// What a reader sees of a runtime's execution configuration.
#[derive(Debug, Clone, Copy, PartialEq, Eq, Structural)]
pub enum ExecutionConfigDisclosure {
    /// The configuration as stored.
    Full,
    /// An empty object in its place.
    Redacted,
}

/// Only readers who may update a runtime see its execution configuration.
pub fn runtime_config_disclosure(can_update_runtime: bool) -> (d: ExecutionConfigDisclosure)
    ensures
        d == if can_update_runtime { ExecutionConfigDisclosure::Full } else { ExecutionConfigDisclosure::Redacted },
{
    if can_update_runtime {
        ExecutionConfigDisclosure::Full
    } else {
        ExecutionConfigDisclosure::Redacted
    }
}

} // verus!
