//! Errors of the storage-accounting subsystem.

use vstd::prelude::*;

verus! {

/// Why a storage-accounting operation was rejected.
///
/// The three measurement variants indicate a broken call sequence around the
/// measurement session; a correct caller brackets every metered operation
/// with exactly one `start` and one `stop`.
#[derive(Debug, Clone, Copy, PartialEq, Eq, Structural)]
pub enum StorageError {
    /// Registration of an account that already has a storage record.
    AccountAlreadyRegistered,
    /// An operation on an account that has no storage record.
    AccountNotRegistered,
    /// The account's prepaid balance no longer covers its used storage.
    NotEnoughStorageBalance,
    /// `stop` without a prior `start`.
    MissingStartStorageMeasurement,
    /// A second `start` while a measurement is already running.
    RepeatedStartStorageMeasurement,
    /// Reading the measured delta while a measurement is still running.
    PendingStorageMeasurement,
}

} // verus!
