//! The per-account prepaid-storage ledger together with the call-scoped
//! measurement session.
//!
//! Every operation that can grow persisted state is bracketed by the
//! session: the caller reads the host's live usage counter before and after
//! the mutation, and the measured delta is folded into the acting account's
//! record.

use vstd::prelude::*;
use crate::dynamic_storage_management::account_storage::AccountStorage;
use crate::dynamic_storage_management::account_storage::clamped_usage;
use crate::dynamic_storage_management::errors::StorageError;
use crate::dynamic_storage_management::storage_measurement::MeasurementState;
use crate::dynamic_storage_management::storage_measurement::StorageMeasurement;
use crate::string_kv::StringMap;

verus! {

/// Storage records of all registered accounts, plus the measurement session
/// of the call in progress.
pub struct DynamicStorageManager {
    pub accounts: StringMap<AccountStorage>,
    pub storage_measurement: StorageMeasurement,
}

impl DynamicStorageManager {
    pub open spec fn wf(&self) -> bool {
        self.accounts.wf()
    }

    /// Whether `account` has a storage record.
    pub open spec fn spec_registered(&self, account: Seq<char>) -> bool {
        self.accounts@.contains_key(account)
    }

    /// The record of `account`; meaningful only when registered.
    pub open spec fn spec_record(&self, account: Seq<char>) -> AccountStorage {
        self.accounts@[account]
    }

    /// An empty ledger with an idle measurement session.
    pub fn new() -> (r: Self)
        ensures
            r.wf(),
            r.accounts@ == Map::<Seq<char>, AccountStorage>::empty(),
            r.storage_measurement.state == MeasurementState::Idle,
            r.storage_measurement.storage_usage_change == 0,
    {
        DynamicStorageManager {
            accounts: StringMap::new(),
            storage_measurement: StorageMeasurement::default(),
        }
    }

    /// Whether `account_id` has a storage record.
    pub fn account_registered(&self, account_id: &String) -> (r: bool)
        ensures
            r == self.spec_registered(account_id@),
    {
        self.accounts.contains_key(account_id)
    }

    /// Register `account_id` with an initial prepaid balance.  The bytes
    /// consumed by the registration itself — measured between the two usage
    /// readings — are charged to the new record.
    /// Fails, changing nothing, when the account is already registered.
    pub fn register_account(
        &mut self,
        account_id: String,
        amount: u128,
        usage_before: u64,
        usage_after: u64,
    ) -> (r: Result<(), StorageError>)
        requires
            old(self).wf(),
            old(self).storage_measurement.state == MeasurementState::Idle,
            old(self).storage_measurement.storage_usage_change == 0,
        ensures
            final(self).wf(),
            old(self).spec_registered(account_id@) ==> {
                &&& r == Result::<(), StorageError>::Err(StorageError::AccountAlreadyRegistered)
                &&& final(self).accounts@ == old(self).accounts@
                &&& final(self).storage_measurement == old(self).storage_measurement
            },
            !old(self).spec_registered(account_id@) ==> {
                &&& r is Ok
                &&& final(self).accounts@ =~= old(self).accounts@.insert(
                    account_id@,
                    AccountStorage {
                        storage_usage: clamped_usage(0, usage_after - usage_before) as u64,
                        storage_balance: amount,
                    },
                )
                &&& final(self).storage_measurement.state == MeasurementState::Idle
                &&& final(self).storage_measurement.storage_usage_change == 0
            },
    {
        if self.account_registered(&account_id) {
            return Err(StorageError::AccountAlreadyRegistered);
        }
        let mut account_storage = AccountStorage::default();
        account_storage.deposit_storage_balance(amount);

        let _ = self.storage_measurement.start(usage_before);
        self.accounts.insert(account_id.clone(), account_storage);
        self.stop_measure_and_update_storage_usage(&account_id, usage_after)
    }

    /// Unregister `account_id`, forgetting its usage and returning the whole
    /// remaining prepaid balance.
    /// Fails, changing nothing, when the account is not registered.
    pub fn unregister_account(&mut self, account_id: &String) -> (r: Result<u128, StorageError>)
        requires
            old(self).wf(),
        ensures
            final(self).wf(),
            !old(self).spec_registered(account_id@) ==> {
                &&& r == Result::<u128, StorageError>::Err(StorageError::AccountNotRegistered)
                &&& final(self).accounts@ == old(self).accounts@
            },
            old(self).spec_registered(account_id@) ==> {
                &&& r == Result::<u128, StorageError>::Ok(
                    old(self).spec_record(account_id@).storage_balance)
                &&& final(self).accounts@ == old(self).accounts@.remove(account_id@)
            },
            final(self).storage_measurement == old(self).storage_measurement,
    {
        let account_storage_ref = match self.accounts.get(account_id) {
            Some(a) => a,
            None => {
                return Err(StorageError::AccountNotRegistered);
            },
        };
        let mut account_storage = *account_storage_ref;
        account_storage.reset_storage_usage();
        let withdraw_amount = account_storage.withdraw_storage_balance(None, 0);
        self.accounts.remove(account_id);
        Ok(withdraw_amount)
    }

    /// Add to the prepaid balance of `account_id`.
    /// Fails, changing nothing, when the account is not registered.
    pub fn deposit_storage_balance(
        &mut self,
        account_id: &String,
        amount: u128,
    ) -> (r: Result<(), StorageError>)
        requires
            old(self).wf(),
            old(self).spec_registered(account_id@)
                ==> old(self).spec_record(account_id@).storage_balance + amount <= u128::MAX,
        ensures
            final(self).wf(),
            !old(self).spec_registered(account_id@) ==> {
                &&& r == Result::<(), StorageError>::Err(StorageError::AccountNotRegistered)
                &&& final(self).accounts@ == old(self).accounts@
            },
            old(self).spec_registered(account_id@) ==> {
                &&& r is Ok
                &&& final(self).accounts@ == old(self).accounts@.insert(
                    account_id@,
                    AccountStorage {
                        storage_usage: old(self).spec_record(account_id@).storage_usage,
                        storage_balance:
                            (old(self).spec_record(account_id@).storage_balance + amount) as u128,
                    },
                )
            },
            final(self).storage_measurement == old(self).storage_measurement,
    {
        let account_storage_ref = match self.accounts.get(account_id) {
            Some(a) => a,
            None => {
                return Err(StorageError::AccountNotRegistered);
            },
        };
        let mut account_storage = *account_storage_ref;
        account_storage.deposit_storage_balance(amount);
        self.accounts.insert(account_id.clone(), account_storage);
        Ok(())
    }

    /// Withdraw up to `amount` (everything available when `None`) from the
    /// balance of `account_id` not covering its used storage; returns what
    /// was withdrawn.
    /// Fails, changing nothing, when the account is not registered.
    pub fn withdraw_storage_balance(
        &mut self,
        account_id: &String,
        amount: Option<u128>,
        byte_cost: u128,
    ) -> (r: Result<u128, StorageError>)
        requires
            old(self).wf(),
            old(self).spec_registered(account_id@)
                ==> old(self).spec_record(account_id@).spec_used(byte_cost) <= u128::MAX,
        ensures
            final(self).wf(),
            !old(self).spec_registered(account_id@) ==> {
                &&& r == Result::<u128, StorageError>::Err(StorageError::AccountNotRegistered)
                &&& final(self).accounts@ == old(self).accounts@
            },
            old(self).spec_registered(account_id@) ==> {
                let withdrawn = (if old(self).spec_record(account_id@).spec_available(byte_cost)
                    <= (match amount { Some(a) => a as int, None => u128::MAX as int }) {
                    old(self).spec_record(account_id@).spec_available(byte_cost)
                } else {
                    (match amount { Some(a) => a as int, None => u128::MAX as int })
                });
                {
                    &&& r == Result::<u128, StorageError>::Ok(withdrawn as u128)
                    &&& final(self).accounts@ == old(self).accounts@.insert(
                        account_id@,
                        AccountStorage {
                            storage_usage: old(self).spec_record(account_id@).storage_usage,
                            storage_balance:
                                (old(self).spec_record(account_id@).storage_balance
                                    - withdrawn) as u128,
                        },
                    )
                    &&& amount is None
                        ==> final(self).spec_record(account_id@).spec_available(byte_cost) == 0
                }
            },
            final(self).storage_measurement == old(self).storage_measurement,
    {
        let account_storage_ref = match self.accounts.get(account_id) {
            Some(a) => a,
            None => {
                return Err(StorageError::AccountNotRegistered);
            },
        };
        let mut account_storage = *account_storage_ref;
        let withdraw_amount = account_storage.withdraw_storage_balance(amount, byte_cost);
        self.accounts.insert(account_id.clone(), account_storage);
        Ok(withdraw_amount)
    }

    /// Register `account_id` when it has no record yet, else deposit.
    pub fn register_account_or_deposit_storage_balance(
        &mut self,
        account_id: String,
        amount: u128,
        usage_before: u64,
        usage_after: u64,
    ) -> (r: Result<(), StorageError>)
        requires
            old(self).wf(),
            old(self).storage_measurement.state == MeasurementState::Idle,
            old(self).storage_measurement.storage_usage_change == 0,
            old(self).spec_registered(account_id@)
                ==> old(self).spec_record(account_id@).storage_balance + amount <= u128::MAX,
        ensures
            final(self).wf(),
            r is Ok,
            !old(self).spec_registered(account_id@) ==> {
                &&& final(self).accounts@ =~= old(self).accounts@.insert(
                    account_id@,
                    AccountStorage {
                        storage_usage: clamped_usage(0, usage_after - usage_before) as u64,
                        storage_balance: amount,
                    },
                )
                &&& final(self).storage_measurement.state == MeasurementState::Idle
                &&& final(self).storage_measurement.storage_usage_change == 0
            },
            old(self).spec_registered(account_id@) ==> {
                &&& final(self).accounts@ == old(self).accounts@.insert(
                    account_id@,
                    AccountStorage {
                        storage_usage: old(self).spec_record(account_id@).storage_usage,
                        storage_balance:
                            (old(self).spec_record(account_id@).storage_balance + amount) as u128,
                    },
                )
                &&& final(self).storage_measurement == old(self).storage_measurement
            },
    {
        if !self.account_registered(&account_id) {
            self.register_account(account_id, amount, usage_before, usage_after)
        } else {
            self.deposit_storage_balance(&account_id, amount)
        }
    }

    /// Whether `account_id` is registered with a prepaid balance covering
    /// its used storage.
    pub fn enough_storage_balance(&self, account_id: &String, byte_cost: u128) -> (r: bool)
        requires
            self.wf(),
            self.spec_registered(account_id@)
                ==> self.spec_record(account_id@).spec_used(byte_cost) <= u128::MAX,
        ensures
            r == (self.spec_registered(account_id@)
                && self.spec_record(account_id@).storage_balance
                    >= self.spec_record(account_id@).spec_used(byte_cost)),
    {
        match self.storage_balance(account_id, byte_cost) {
            None => false,
            Some((total, used)) => total >= used,
        }
    }

    /// The pair (prepaid balance, used cost) of `account_id`, or `None`
    /// when it is not registered.  Used cost may exceed the balance when the
    /// byte price has risen since the balance was checked.
    pub fn storage_balance(&self, account_id: &String, byte_cost: u128) -> (r: Option<(u128, u128)>)
        requires
            self.wf(),
            self.spec_registered(account_id@)
                ==> self.spec_record(account_id@).spec_used(byte_cost) <= u128::MAX,
        ensures
            match r {
                Some(b) => self.spec_registered(account_id@)
                    && b.0 == self.spec_record(account_id@).storage_balance
                    && b.1 == self.spec_record(account_id@).spec_used(byte_cost),
                None => !self.spec_registered(account_id@),
            },
    {
        match self.accounts.get(account_id) {
            Some(a) => Some(a.storage_balance(byte_cost)),
            None => None,
        }
    }

    /// Check that `account_id` has no record yet.
    pub fn assert_no_registration(&self, account_id: &String) -> (r: Result<(), StorageError>)
        ensures
            r is Ok <==> !self.spec_registered(account_id@),
            r is Err ==> r == Result::<(), StorageError>::Err(
                StorageError::AccountAlreadyRegistered),
    {
        if self.account_registered(account_id) {
            Err(StorageError::AccountAlreadyRegistered)
        } else {
            Ok(())
        }
    }

    /// Check that `account_id` has a record.
    pub fn assert_registration(&self, account_id: &String) -> (r: Result<(), StorageError>)
        ensures
            r is Ok <==> self.spec_registered(account_id@),
            r is Err ==> r == Result::<(), StorageError>::Err(StorageError::AccountNotRegistered),
    {
        if self.account_registered(account_id) {
            Ok(())
        } else {
            Err(StorageError::AccountNotRegistered)
        }
    }

    /// Check that `account_id` is registered with a balance covering its
    /// used storage.
    pub fn assert_storage_balance(
        &self,
        account_id: &String,
        byte_cost: u128,
    ) -> (r: Result<(), StorageError>)
        requires
            self.wf(),
            self.spec_registered(account_id@)
                ==> self.spec_record(account_id@).spec_used(byte_cost) <= u128::MAX,
        ensures
            r is Ok <==> (self.spec_registered(account_id@)
                && self.spec_record(account_id@).storage_balance
                    >= self.spec_record(account_id@).spec_used(byte_cost)),
            r is Err ==> r == Result::<(), StorageError>::Err(
                StorageError::NotEnoughStorageBalance),
    {
        if self.enough_storage_balance(account_id, byte_cost) {
            Ok(())
        } else {
            Err(StorageError::NotEnoughStorageBalance)
        }
    }

    /// Begin measuring: snapshot the live usage counter.
    /// Fails, changing nothing, when a measurement is already running.
    pub fn start_measure_storage(&mut self, live_usage: u64) -> (r: Result<(), StorageError>)
        ensures
            final(self).accounts == old(self).accounts,
            old(self).storage_measurement.state == MeasurementState::Idle ==> {
                &&& r is Ok
                &&& final(self).storage_measurement.state == MeasurementState::Pending
                &&& final(self).storage_measurement.storage_usage_reference == live_usage
                &&& final(self).storage_measurement.storage_usage_change
                    == old(self).storage_measurement.storage_usage_change
            },
            old(self).storage_measurement.state == MeasurementState::Pending ==> {
                &&& r == Result::<(), StorageError>::Err(
                    StorageError::RepeatedStartStorageMeasurement)
                &&& final(self).storage_measurement == old(self).storage_measurement
            },
    {
        self.storage_measurement.start(live_usage)
    }

    /// End the running measurement, accumulating the delta of the live
    /// usage counter against the snapshot.
    /// Fails, changing nothing, when no measurement is running.
    pub fn stop_measure_storage(&mut self, live_usage: u64) -> (r: Result<(), StorageError>)
        requires
            old(self).storage_measurement.state == MeasurementState::Pending ==> {
                &&& i128::MIN <= old(self).storage_measurement.storage_usage_change + live_usage
                    - old(self).storage_measurement.storage_usage_reference
                &&& old(self).storage_measurement.storage_usage_change + live_usage
                    - old(self).storage_measurement.storage_usage_reference <= i128::MAX
            },
        ensures
            final(self).accounts == old(self).accounts,
            old(self).storage_measurement.state == MeasurementState::Pending ==> {
                &&& r is Ok
                &&& final(self).storage_measurement.state == MeasurementState::Idle
                &&& final(self).storage_measurement.storage_usage_change
                    == old(self).storage_measurement.storage_usage_change + live_usage
                        - old(self).storage_measurement.storage_usage_reference
            },
            old(self).storage_measurement.state == MeasurementState::Idle ==> {
                &&& r == Result::<(), StorageError>::Err(
                    StorageError::MissingStartStorageMeasurement)
                &&& final(self).storage_measurement == old(self).storage_measurement
            },
    {
        self.storage_measurement.stop(live_usage)
    }

    /// Fold the measured delta into the record of `account_id`, then reset
    /// the session.
    /// Fails, changing nothing, when the account is not registered or a
    /// measurement is still running.
    pub fn update_storage_usage(&mut self, account_id: &String) -> (r: Result<(), StorageError>)
        requires
            old(self).wf(),
            (old(self).spec_registered(account_id@)
                && old(self).storage_measurement.state == MeasurementState::Idle)
                ==> old(self).spec_record(account_id@).storage_usage
                    + old(self).storage_measurement.storage_usage_change <= u64::MAX,
        ensures
            final(self).wf(),
            !old(self).spec_registered(account_id@) ==> {
                &&& r == Result::<(), StorageError>::Err(StorageError::AccountNotRegistered)
                &&& final(self).accounts@ == old(self).accounts@
                &&& final(self).storage_measurement == old(self).storage_measurement
            },
            (old(self).spec_registered(account_id@)
                && old(self).storage_measurement.state == MeasurementState::Pending) ==> {
                &&& r == Result::<(), StorageError>::Err(StorageError::PendingStorageMeasurement)
                &&& final(self).accounts@ == old(self).accounts@
                &&& final(self).storage_measurement == old(self).storage_measurement
            },
            (old(self).spec_registered(account_id@)
                && old(self).storage_measurement.state == MeasurementState::Idle) ==> {
                &&& r is Ok
                &&& final(self).accounts@ =~= old(self).accounts@.insert(
                    account_id@,
                    AccountStorage {
                        storage_usage: clamped_usage(
                            old(self).spec_record(account_id@).storage_usage as int,
                            old(self).storage_measurement.storage_usage_change as int,
                        ) as u64,
                        storage_balance: old(self).spec_record(account_id@).storage_balance,
                    },
                )
                &&& final(self).storage_measurement.state == MeasurementState::Idle
                &&& final(self).storage_measurement.storage_usage_change == 0
            },
    {
        let account_storage_ref = match self.accounts.get(account_id) {
            Some(a) => a,
            None => {
                return Err(StorageError::AccountNotRegistered);
            },
        };
        let mut account_storage = *account_storage_ref;
        let storage_usage_change = match self.storage_measurement.storage_usage_change() {
            Ok(c) => c,
            Err(e) => {
                return Err(e);
            },
        };
        if storage_usage_change != 0 {
            account_storage.update_storage_usage(storage_usage_change);
            self.accounts.insert(account_id.clone(), account_storage);
        }
        self.storage_measurement.reset();
        proof {
            if storage_usage_change == 0 {
                assert(clamped_usage(account_storage.storage_usage as int, 0)
                    == account_storage.storage_usage as int);
                assert(final(self).accounts@ =~= old(self).accounts@.insert(
                    account_id@,
                    AccountStorage {
                        storage_usage: account_storage.storage_usage,
                        storage_balance: account_storage.storage_balance,
                    },
                ));
            }
        }
        Ok(())
    }

    /// Stop the running measurement and fold its delta into the record of
    /// `account_id`, then reset the session.
    /// Fails, changing nothing, when no measurement is running or the
    /// account is not registered.
    pub fn stop_measure_and_update_storage_usage(
        &mut self,
        account_id: &String,
        live_usage: u64,
    ) -> (r: Result<(), StorageError>)
        requires
            old(self).wf(),
            old(self).storage_measurement.state == MeasurementState::Pending ==> {
                &&& i128::MIN <= old(self).storage_measurement.storage_usage_change + live_usage
                    - old(self).storage_measurement.storage_usage_reference
                &&& old(self).storage_measurement.storage_usage_change + live_usage
                    - old(self).storage_measurement.storage_usage_reference <= i128::MAX
            },
            (old(self).spec_registered(account_id@)
                && old(self).storage_measurement.state == MeasurementState::Pending)
                ==> old(self).spec_record(account_id@).storage_usage
                    + old(self).storage_measurement.storage_usage_change + live_usage
                    - old(self).storage_measurement.storage_usage_reference <= u64::MAX,
        ensures
            final(self).wf(),
            old(self).storage_measurement.state == MeasurementState::Idle ==> {
                &&& r == Result::<(), StorageError>::Err(
                    StorageError::MissingStartStorageMeasurement)
                &&& final(self).accounts@ == old(self).accounts@
                &&& final(self).storage_measurement == old(self).storage_measurement
            },
            (old(self).storage_measurement.state == MeasurementState::Pending
                && !old(self).spec_registered(account_id@)) ==> {
                &&& r == Result::<(), StorageError>::Err(StorageError::AccountNotRegistered)
                &&& final(self).accounts@ == old(self).accounts@
                &&& final(self).storage_measurement == old(self).storage_measurement
            },
            (old(self).storage_measurement.state == MeasurementState::Pending
                && old(self).spec_registered(account_id@)) ==> {
                &&& r is Ok
                &&& final(self).accounts@ =~= old(self).accounts@.insert(
                    account_id@,
                    AccountStorage {
                        storage_usage: clamped_usage(
                            old(self).spec_record(account_id@).storage_usage as int,
                            old(self).storage_measurement.storage_usage_change + live_usage
                                - old(self).storage_measurement.storage_usage_reference,
                        ) as u64,
                        storage_balance: old(self).spec_record(account_id@).storage_balance,
                    },
                )
                &&& final(self).storage_measurement.state == MeasurementState::Idle
                &&& final(self).storage_measurement.storage_usage_change == 0
            },
    {
        match self.storage_measurement.state {
            MeasurementState::Idle => {
                return Err(StorageError::MissingStartStorageMeasurement);
            },
            MeasurementState::Pending => {},
        }
        if !self.account_registered(account_id) {
            return Err(StorageError::AccountNotRegistered);
        }
        let stopped = self.stop_measure_storage(live_usage);
        match stopped {
            Ok(_) => {},
            Err(e) => {
                return Err(e);
            },
        }
        self.update_storage_usage(account_id)
    }
}

} // verus!
