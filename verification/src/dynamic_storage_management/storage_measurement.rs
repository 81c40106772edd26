//! The per-call measurement session: a two-state machine that records the
//! storage-byte delta caused by one transaction.
//!
//! Usage pattern per operation: `start(usage)` with the host's live usage
//! counter, perform the mutations, `stop(usage)` with the counter read again,
//! fold `storage_usage_change()` into the acting account's record, `reset()`.
//! The session is call-scoped and never persisted.

use vstd::prelude::*;
use crate::dynamic_storage_management::errors::StorageError;

verus! {

/// Whether a measurement is currently running.
#[derive(Clone, Copy, PartialEq, Eq, Structural)]
pub enum MeasurementState {
    Pending,
    Idle,
}

/// Records the storage-usage delta between one `start` and the next `stop`.
/// Usage deltas are signed: an operation that frees storage yields a
/// negative change.
pub struct StorageMeasurement {
    /// The host's usage counter as snapshotted by `start`.
    pub storage_usage_reference: u64,
    /// Accumulated signed delta of all completed measurements since the last
    /// `reset`.
    pub storage_usage_change: i128,
    pub state: MeasurementState,
}

impl StorageMeasurement {
    /// A fresh session: idle, with no recorded change.
    pub fn default() -> (r: Self)
        ensures
            r.storage_usage_reference == 0,
            r.storage_usage_change == 0,
            r.state == MeasurementState::Idle,
    {
        Self {
            storage_usage_reference: 0,
            storage_usage_change: 0,
            state: MeasurementState::Idle,
        }
    }

    /// Zero the delta and the reference and force the session idle.
    pub fn reset(&mut self)
        ensures
            final(self).storage_usage_reference == 0,
            final(self).storage_usage_change == 0,
            final(self).state == MeasurementState::Idle,
    {
        self.storage_usage_reference = 0;
        self.storage_usage_change = 0;
        self.state = MeasurementState::Idle;
    }

    /// Begin a measurement by snapshotting the host's live usage counter.
    /// Fails, changing nothing, if a measurement is already running.
    pub fn start(&mut self, live_usage: u64) -> (r: Result<(), StorageError>)
        ensures
            old(self).state == MeasurementState::Idle ==> {
                &&& r is Ok
                &&& final(self).state == MeasurementState::Pending
                &&& final(self).storage_usage_reference == live_usage
                &&& final(self).storage_usage_change == old(self).storage_usage_change
            },
            old(self).state == MeasurementState::Pending ==> {
                &&& r == Result::<(), StorageError>::Err(
                    StorageError::RepeatedStartStorageMeasurement)
                &&& *final(self) == *old(self)
            },
    {
        match self.state {
            MeasurementState::Pending => {
                Err(StorageError::RepeatedStartStorageMeasurement)
            },
            MeasurementState::Idle => {
                self.storage_usage_reference = live_usage;
                self.state = MeasurementState::Pending;
                Ok(())
            },
        }
    }

    /// End the running measurement, accumulating the signed difference
    /// between the live counter and the snapshot taken at `start`.
    /// Fails, changing nothing, if no measurement is running.
    pub fn stop(&mut self, live_usage: u64) -> (r: Result<(), StorageError>)
        requires
            old(self).state == MeasurementState::Pending ==> {
                &&& i128::MIN <= old(self).storage_usage_change + live_usage
                    - old(self).storage_usage_reference
                &&& old(self).storage_usage_change + live_usage
                    - old(self).storage_usage_reference <= i128::MAX
            },
        ensures
            old(self).state == MeasurementState::Pending ==> {
                &&& r is Ok
                &&& final(self).state == MeasurementState::Idle
                &&& final(self).storage_usage_reference == 0
                &&& final(self).storage_usage_change
                    == old(self).storage_usage_change + live_usage
                        - old(self).storage_usage_reference
            },
            old(self).state == MeasurementState::Idle ==> {
                &&& r == Result::<(), StorageError>::Err(
                    StorageError::MissingStartStorageMeasurement)
                &&& *final(self) == *old(self)
            },
    {
        match self.state {
            MeasurementState::Pending => {
                let delta: i128 = live_usage as i128 - self.storage_usage_reference as i128;
                self.storage_usage_change = self.storage_usage_change + delta;
                self.storage_usage_reference = 0;
                self.state = MeasurementState::Idle;
                Ok(())
            },
            MeasurementState::Idle => {
                Err(StorageError::MissingStartStorageMeasurement)
            },
        }
    }

    /// Read the accumulated delta.  Valid only while idle; does not reset.
    pub fn storage_usage_change(&self) -> (r: Result<i128, StorageError>)
        ensures
            self.state == MeasurementState::Idle
                ==> r == Result::<i128, StorageError>::Ok(self.storage_usage_change),
            self.state == MeasurementState::Pending
                ==> r == Result::<i128, StorageError>::Err(
                    StorageError::PendingStorageMeasurement),
    {
        match self.state {
            MeasurementState::Pending => {
                Err(StorageError::PendingStorageMeasurement)
            },
            MeasurementState::Idle => Ok(self.storage_usage_change),
        }
    }
}

} // verus!
