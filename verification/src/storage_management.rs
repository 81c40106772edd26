//! The contract's prepaid-storage interface: deposit, withdraw, balance
//! queries and unregistration.
//!
//! There are no storage-balance bounds: pricing is usage-based, so the
//! bounds query fails by design.

use vstd::prelude::*;
use crate::contract::Contract;
use crate::contract::TransferAction;
use crate::dynamic_storage_management::account_storage::clamped_usage;
use crate::dynamic_storage_management::account_storage::AccountStorage;
use crate::dynamic_storage_management::errors::StorageError;
use crate::errors::ContractError;

verus! {

/// One account's storage funds: the prepaid total and the part not covering
/// used storage.
#[derive(Clone, Copy, PartialEq, Eq, Structural)]
pub struct StorageBalance {
    pub total: u128,
    pub available: u128,
}

impl Contract {
    /// The storage funds of `account` at the given byte price.
    pub open spec fn spec_storage_balance_of(&self, account: Seq<char>, byte_cost: u128)
        -> StorageBalance {
        StorageBalance {
            total: self.storage_manager.spec_record(account).storage_balance,
            available: self.storage_manager.spec_record(account).spec_available(byte_cost)
                as u128,
        }
    }

    /// The storage funds of `account_id`, or `None` when unregistered.
    pub fn internal_storage_balance_of(&self, account_id: &String, byte_cost: u128) -> (r: Option<
        StorageBalance,
    >)
        requires
            self.storage_manager.wf(),
            self.storage_manager.spec_registered(account_id@)
                ==> self.storage_manager.spec_record(account_id@).spec_used(byte_cost)
                    <= u128::MAX,
        ensures
            match r {
                Some(b) => self.storage_manager.spec_registered(account_id@)
                    && b == self.spec_storage_balance_of(account_id@, byte_cost),
                None => !self.storage_manager.spec_registered(account_id@),
            },
    {
        match self.storage_manager.storage_balance(account_id, byte_cost) {
            None => None,
            Some((total, used)) => {
                let available: u128 = if used >= total {
                    0
                } else {
                    total - used
                };
                Some(StorageBalance { total, available })
            },
        }
    }

    /// This contract prices storage by live usage and so has no fixed
    /// balance bounds; the query fails unconditionally.
    pub fn internal_storage_balance_bounds(&self) -> (r: Result<(), ContractError>)
        ensures
            r == Result::<(), ContractError>::Err(ContractError::NoStorageBalanceBounds),
    {
        Err(ContractError::NoStorageBalanceBounds)
    }

    /// Deposit `amount` for `account_id`, registering the account first
    /// when it has no record (always registering, and failing on an
    /// existing record, when `registration_only`).  The measured bytes of a
    /// registration are charged to the new record.  Returns the resulting
    /// storage funds.
    pub fn internal_storage_deposit(
        &mut self,
        account_id: String,
        registration_only: bool,
        amount: u128,
        usage_before: u64,
        usage_after: u64,
        byte_cost: u128,
    ) -> (r: Result<StorageBalance, ContractError>)
        requires
            old(self).wf(),
            old(self).storage_manager.spec_registered(account_id@)
                ==> old(self).storage_manager.spec_record(account_id@).storage_balance + amount
                    <= u128::MAX,
            old(self).storage_manager.spec_registered(account_id@)
                ==> (old(self).storage_manager.spec_record(account_id@).storage_usage as int)
                    * byte_cost <= u128::MAX,
            !old(self).storage_manager.spec_registered(account_id@)
                ==> clamped_usage(0, usage_after - usage_before) * byte_cost <= u128::MAX,
        ensures
            final(self).wf(),
            final(self).red_packets == old(self).red_packets,
            final(self).owners == old(self).owners,
            final(self).helper_contract_id == old(self).helper_contract_id,
            r is Err ==> *final(self) == *old(self),
            amount == 0 ==> r == Result::<StorageBalance, ContractError>::Err(
                ContractError::ZeroDeposit),
            (amount > 0 && registration_only
                && old(self).storage_manager.spec_registered(account_id@))
                ==> r == Result::<StorageBalance, ContractError>::Err(ContractError::Storage(
                    StorageError::AccountAlreadyRegistered)),
            (amount > 0 && !old(self).storage_manager.spec_registered(account_id@)) ==> {
                let record = AccountStorage {
                    storage_usage: clamped_usage(0, usage_after - usage_before) as u64,
                    storage_balance: amount,
                };
                {
                    &&& final(self).storage_manager.accounts@
                        =~= old(self).storage_manager.accounts@.insert(account_id@, record)
                    &&& r == Result::<StorageBalance, ContractError>::Ok(StorageBalance {
                        total: amount,
                        available: record.spec_available(byte_cost) as u128,
                    })
                }
            },
            (amount > 0 && !registration_only
                && old(self).storage_manager.spec_registered(account_id@)) ==> {
                let record = AccountStorage {
                    storage_usage: old(self).storage_manager.spec_record(
                        account_id@,
                    ).storage_usage,
                    storage_balance: (old(self).storage_manager.spec_record(
                        account_id@,
                    ).storage_balance + amount) as u128,
                };
                {
                    &&& final(self).storage_manager.accounts@
                        =~= old(self).storage_manager.accounts@.insert(account_id@, record)
                    &&& r == Result::<StorageBalance, ContractError>::Ok(StorageBalance {
                        total: record.storage_balance,
                        available: record.spec_available(byte_cost) as u128,
                    })
                }
            },
    {
        match crate::utils::assert_zero_deposit(amount) {
            Ok(()) => {},
            Err(e) => {
                return Err(e);
            },
        }
        if registration_only {
            match self.storage_manager.assert_no_registration(&account_id) {
                Ok(()) => {},
                Err(e) => {
                    return Err(ContractError::Storage(e));
                },
            }
            let _ = self.storage_manager.register_account(
                account_id.clone(),
                amount,
                usage_before,
                usage_after,
            );
        } else {
            let _ = self.storage_manager.register_account_or_deposit_storage_balance(
                account_id.clone(),
                amount,
                usage_before,
                usage_after,
            );
        }
        proof {
            assert forall|o: Seq<char>| #[trigger] final(self).owners@.contains_key(o)
                implies final(self).storage_manager.spec_registered(o) by {
                assert(old(self).storage_manager.spec_registered(o));
            }
        }
        match self.internal_storage_balance_of(&account_id, byte_cost) {
            Some(b) => Ok(b),
            None => {
                proof {
                    assert(false);
                }
                Err(ContractError::Storage(StorageError::AccountNotRegistered))
            },
        }
    }

    /// Withdraw up to `amount` (everything available when `None`) of the
    /// balance of `account_id` not covering used storage; the withdrawn
    /// part is handed back as a transfer action together with the
    /// remaining funds.
    ///
    /// A `None` withdrawal returns exactly the available balance and
    /// leaves nothing available.
    pub fn internal_storage_withdraw(
        &mut self,
        account_id: String,
        amount: Option<u128>,
        byte_cost: u128,
    ) -> (r: Result<(StorageBalance, TransferAction), ContractError>)
        requires
            old(self).wf(),
            old(self).storage_manager.spec_registered(account_id@)
                ==> (old(self).storage_manager.spec_record(account_id@).storage_usage as int)
                    * byte_cost <= u128::MAX,
        ensures
            final(self).wf(),
            final(self).red_packets == old(self).red_packets,
            final(self).owners == old(self).owners,
            final(self).helper_contract_id == old(self).helper_contract_id,
            r is Err ==> *final(self) == *old(self),
            !old(self).storage_manager.spec_registered(account_id@)
                ==> r == Result::<(StorageBalance, TransferAction), ContractError>::Err(
                    ContractError::Storage(StorageError::AccountNotRegistered)),
            old(self).storage_manager.spec_registered(account_id@) ==> {
                let available = old(self).storage_manager.spec_record(
                    account_id@,
                ).spec_available(byte_cost);
                let withdrawn = (if available <= (match amount {
                    Some(a) => a as int,
                    None => u128::MAX as int,
                }) {
                    available
                } else {
                    (match amount {
                        Some(a) => a as int,
                        None => u128::MAX as int,
                    })
                });
                let record = AccountStorage {
                    storage_usage: old(self).storage_manager.spec_record(
                        account_id@,
                    ).storage_usage,
                    storage_balance: (old(self).storage_manager.spec_record(
                        account_id@,
                    ).storage_balance - withdrawn) as u128,
                };
                {
                    &&& final(self).storage_manager.accounts@
                        =~= old(self).storage_manager.accounts@.insert(account_id@, record)
                    &&& r == Result::<(StorageBalance, TransferAction), ContractError>::Ok(
                        (
                            StorageBalance {
                                total: record.storage_balance,
                                available: record.spec_available(byte_cost) as u128,
                            },
                            if withdrawn == 0 {
                                TransferAction::NoTransfer
                            } else {
                                TransferAction::TransferNear {
                                    receiver_id: account_id,
                                    amount: withdrawn as u128,
                                }
                            },
                        ),
                    )
                    &&& (amount is None ==> record.spec_available(byte_cost) == 0)
                }
            },
    {
        match self.storage_manager.assert_registration(&account_id) {
            Ok(()) => {},
            Err(e) => {
                return Err(ContractError::Storage(e));
            },
        }
        let withdraw_amount = match self.storage_manager.withdraw_storage_balance(
            &account_id,
            amount,
            byte_cost,
        ) {
            Ok(w) => w,
            Err(e) => {
                proof {
                    assert(false);
                }
                return Err(ContractError::Storage(e));
            },
        };
        let balance = match self.internal_storage_balance_of(&account_id, byte_cost) {
            Some(b) => b,
            None => {
                proof {
                    assert(false);
                }
                return Err(ContractError::Storage(StorageError::AccountNotRegistered));
            },
        };
        let action = if withdraw_amount > 0 {
            TransferAction::TransferNear { receiver_id: account_id, amount: withdraw_amount }
        } else {
            TransferAction::NoTransfer
        };
        proof {
            assert forall|o: Seq<char>| #[trigger] final(self).owners@.contains_key(o)
                implies final(self).storage_manager.spec_registered(o) by {
                assert(old(self).storage_manager.spec_registered(o));
            }
        }
        Ok((balance, action))
    }

    /// Unregister the caller `account_id`, returning whether it happened
    /// and the transfer of the whole remaining prepaid balance.
    ///
    /// Without `force` this succeeds only when every packet the account
    /// owns has run out; its run-out packets are removed either way, and
    /// `force` also discards live ones.
    pub fn internal_storage_unregister(&mut self, account_id: String, force: bool) -> (r: Result<
        (bool, TransferAction),
        ContractError,
    >)
        requires
            old(self).wf(),
        ensures
            final(self).wf(),
            final(self).helper_contract_id == old(self).helper_contract_id,
            r is Err ==> *final(self) == *old(self),
            !old(self).storage_manager.spec_registered(account_id@)
                ==> r == Result::<(bool, TransferAction), ContractError>::Err(
                    ContractError::Storage(StorageError::AccountNotRegistered)),
            (old(self).storage_manager.spec_registered(account_id@) && !force
                && !(forall|pk: Seq<char>|
                    old(self).owners@.contains_key(account_id@)
                        && #[trigger] old(self).owners@[account_id@]@.contains(pk)
                        ==> old(self).red_packets@[pk].current_split == 0)) ==> {
                &&& r == Result::<(bool, TransferAction), ContractError>::Ok(
                    (false, TransferAction::NoTransfer))
                &&& *final(self) == *old(self)
            },
            (old(self).storage_manager.spec_registered(account_id@) && (force || (forall|
                pk: Seq<char>,
            |
                old(self).owners@.contains_key(account_id@)
                    && #[trigger] old(self).owners@[account_id@]@.contains(pk)
                    ==> old(self).red_packets@[pk].current_split == 0))) ==> {
                let balance = old(self).storage_manager.spec_record(account_id@).storage_balance;
                {
                    &&& r == Result::<(bool, TransferAction), ContractError>::Ok(
                        (
                            true,
                            if balance == 0 {
                                TransferAction::NoTransfer
                            } else {
                                TransferAction::TransferNear {
                                    receiver_id: account_id,
                                    amount: balance,
                                }
                            },
                        ),
                    )
                    &&& final(self).storage_manager.accounts@
                        =~= old(self).storage_manager.accounts@.remove(account_id@)
                    &&& !final(self).owners@.contains_key(account_id@)
                    &&& forall|pk: Seq<char>|
                        #[trigger] final(self).red_packets@.contains_key(pk)
                            <==> (old(self).red_packets@.contains_key(pk)
                                && !(old(self).owners@.contains_key(account_id@)
                                    && old(self).owners@[account_id@]@.contains(pk)))
                    &&& forall|pk: Seq<char>|
                        #[trigger] final(self).red_packets@.contains_key(pk)
                            ==> final(self).red_packets@[pk] == old(self).red_packets@[pk]
                }
            },
    {
        match self.storage_manager.assert_registration(&account_id) {
            Ok(()) => {},
            Err(e) => {
                return Err(ContractError::Storage(e));
            },
        }
        let all_run_out = self.all_red_packets_run_out(&account_id);
        if !(all_run_out || force) {
            return Ok((false, TransferAction::NoTransfer));
        }
        self.clear_red_packets(&account_id, force);
        proof {
            if old(self).owners@.contains_key(account_id@) {
                assert forall|pk: Seq<char>|
                    #[trigger] old(self).owners@[account_id@]@.contains(pk)
                    implies (old(self).red_packets@[pk].current_split == 0 || force) by {}
            }
            assert(!self.owners@.contains_key(account_id@));
        }
        let withdraw_balance = match self.storage_manager.unregister_account(&account_id) {
            Ok(w) => w,
            Err(e) => {
                proof {
                    assert(false);
                }
                return Err(ContractError::Storage(e));
            },
        };
        let action = if withdraw_balance > 0 {
            TransferAction::TransferNear {
                receiver_id: account_id,
                amount: withdraw_balance,
            }
        } else {
            TransferAction::NoTransfer
        };
        proof {
            let post = *final(self);
            let pre = *old(self);
            assert forall|o: Seq<char>| #[trigger] post.owners@.contains_key(o) implies {
                &&& post.storage_manager.spec_registered(o)
            } by {
                assert(pre.storage_manager.spec_registered(o));
                assert(o != account_id@);
            }
        }
        Ok((true, action))
    }
}

} // verus!
