//! What can go wrong in one poll cycle.
use vstd::prelude::*;

verus! {

/// The step of a remote fetch that failed.
#[derive(Clone, Copy, Debug, PartialEq, Eq, Structural)]
pub enum FetchError {
    /// The transport connection was refused or timed out.
    Connect,
    /// The protocol handshake failed.
    Handshake,
    /// The credentials were rejected.
    Auth,
    /// The remote command that cuts the window could not be run.
    RemoteExec,
    /// The window file could not be copied.
    Transfer,
    /// The bytes received are not UTF-8.
    Decode,
}

/// Why a field of the report has no value.
#[derive(Clone, Copy, Debug, PartialEq, Eq, Structural)]
pub enum DataError {
    /// A row is too short to hold the field's column.
    Parse,
    /// There are no rows to compute a statistic from.
    InsufficientData,
}

} // verus!
