//! The errors that the library reports.

use vstd::prelude::*;

verus! {

/// Why an operation was refused.
#[derive(Debug, Clone, Copy, PartialEq, Eq, Structural)]
pub enum Error {
    /// The caller may not change the registry.
    BadOrigin,
    /// No asset is registered under the id.
    AssetNotFound,
    /// A versioned location is of a version that cannot be read.
    BadVersion,
    /// The id cannot be given to a new asset.
    InvalidAssetId,
    /// The location is bound to another asset.
    ConflictingLocation,
    /// No offered asset covers the fee for the weight.
    TooExpensive,
    /// The asset has no chain that holds its reserve.
    AssetHasNoReserve,
    /// The destination lies on the sending chain.
    NotCrossChainTransfer,
    /// The destination does not name a chain and a recipient on it.
    InvalidDest,
    /// The message of a transfer could not be executed.
    XcmExecutionFailed,
}

} // verus!
