//! Contract-level error taxonomy.
//!
//! Every fallible public operation reports exactly one of these variants;
//! each function's contract states precisely which inputs produce which
//! variant.  Measurement-session errors live with the storage subsystem in
//! [`crate::dynamic_storage_management::errors`] and are carried here by the
//! `Storage` variant.

use vstd::prelude::*;
use crate::dynamic_storage_management::errors::StorageError;

verus! {

/// Why a red-packet operation was rejected.  Rejection always leaves the
/// contract state unchanged.
#[derive(Debug, Clone, Copy, PartialEq, Eq, Structural)]
pub enum ContractError {
    /// No live red packet is recorded under the given credential.
    NoMatchingRedPacket,
    /// The caller does not own the red packet it tried to act on.
    NoPermission,
    /// Removal of a packet that still has open claim slots, without force.
    RedPacketNotRunOut,
    /// Creation parameters failed validation.
    InvalidParameter,
    /// A live red packet already exists under the given credential.
    NotUniquePublicKey,
    /// The same account tried to claim the same packet twice.
    NoDoubleClaim,
    /// The packet has a whitelist and the claimer is not on it.
    ClaimerNotInWhiteList,
    /// A creation or deposit carried no attached balance.
    ZeroDeposit,
    /// Storage is priced by live usage, so no fixed balance bounds exist.
    NoStorageBalanceBounds,
    /// An error raised by the storage-accounting subsystem.
    Storage(StorageError),
}

} // verus!
