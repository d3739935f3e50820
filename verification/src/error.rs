//! Reasons for rejecting a call.

use vstd::prelude::*;

verus! {

/// Why a call was rejected. Every rejection is deterministic: the same call
/// fails the same way again.
#[derive(Clone, Copy, Debug, PartialEq, Eq, Structural)]
pub enum Error {
    /// A vector does not have the dimension that the genome asks for.
    InvalidInput,
    /// An empty population or an empty dataset was given where at least one
    /// member is needed.
    NoData,
    /// A configuration that no run can use.
    InvalidConfig,
}

/// Whether `outcome` is a rejection for the reason `error`.
pub open spec fn fails_with<T>(outcome: Result<T, Error>, error: Error) -> bool {
    outcome matches Err(e) && e == error
}

} // verus!
