//! One account's storage record: bytes in use and prepaid balance.
//!
//! The byte price is set by the host and handed in by the caller; `used
//! cost` is always `storage_usage × byte_cost`, and the withdrawable
//! `available` balance is what the prepaid balance exceeds it by.

use vstd::prelude::*;

verus! {

/// A signed usage delta added to an unsigned counter, clamped at zero.
pub open spec fn clamped_usage(usage: int, change: int) -> int {
    if usage + change > 0 {
        usage + change
    } else {
        0
    }
}

/// Prepaid storage record of one account.
#[derive(Clone, Copy)]
pub struct AccountStorage {
    /// Bytes of persisted storage attributed to the account.
    pub storage_usage: u64,
    /// Prepaid balance, in native-asset units.
    pub storage_balance: u128,
}

impl AccountStorage {
    /// The cost of the storage in use, at the given byte price.
    pub open spec fn spec_used(&self, byte_cost: u128) -> int {
        self.storage_usage * byte_cost
    }

    /// What the prepaid balance exceeds the used cost by, floored at zero.
    pub open spec fn spec_available(&self, byte_cost: u128) -> int {
        if self.storage_balance > self.spec_used(byte_cost) {
            self.storage_balance - self.spec_used(byte_cost)
        } else {
            0
        }
    }

    /// A fresh record: nothing used, nothing prepaid.
    pub fn default() -> (r: Self)
        ensures
            r.storage_usage == 0,
            r.storage_balance == 0,
    {
        Self { storage_usage: 0, storage_balance: 0 }
    }

    /// Forget the recorded usage (used when an account unregisters).
    pub fn reset_storage_usage(&mut self)
        ensures
            final(self).storage_usage == 0,
            final(self).storage_balance == old(self).storage_balance,
    {
        self.storage_usage = 0;
    }

    /// Apply a signed usage delta, clamping the counter at zero.
    pub fn update_storage_usage(&mut self, storage_usage_change: i128)
        requires
            old(self).storage_usage + storage_usage_change <= u64::MAX,
        ensures
            final(self).storage_usage
                == clamped_usage(old(self).storage_usage as int, storage_usage_change as int),
            final(self).storage_balance == old(self).storage_balance,
    {
        let storage_usage = self.storage_usage as i128;
        let new_storage_usage = storage_usage + storage_usage_change;
        if new_storage_usage > 0 {
            self.storage_usage = new_storage_usage as u64;
        } else {
            self.storage_usage = 0;
        }
    }

    /// Add to the prepaid balance.
    pub fn deposit_storage_balance(&mut self, amount: u128)
        requires
            old(self).storage_balance + amount <= u128::MAX,
        ensures
            final(self).storage_balance == old(self).storage_balance + amount,
            final(self).storage_usage == old(self).storage_usage,
    {
        self.storage_balance = self.storage_balance + amount;
    }

    /// Withdraw up to `amount` (everything available when `None`) of the
    /// balance not covering used storage; returns what was withdrawn.
    ///
    /// A `None` withdrawal takes exactly the available balance and leaves
    /// nothing available.
    pub fn withdraw_storage_balance(&mut self, amount: Option<u128>, byte_cost: u128) -> (r: u128)
        requires
            old(self).spec_used(byte_cost) <= u128::MAX,
        ensures
            final(self).storage_usage == old(self).storage_usage,
            r == (if old(self).spec_available(byte_cost)
                <= (match amount { Some(a) => a as int, None => u128::MAX as int }) {
                old(self).spec_available(byte_cost)
            } else {
                (match amount { Some(a) => a as int, None => u128::MAX as int })
            }),
            final(self).storage_balance == old(self).storage_balance - r,
            amount is None ==> {
                &&& r == old(self).spec_available(byte_cost)
                &&& final(self).spec_available(byte_cost) == 0
            },
    {
        let amount: u128 = match amount {
            Some(a) => a,
            None => u128::MAX,
        };
        let (total, used) = self.storage_balance(byte_cost);
        if total <= used {
            return 0;
        }
        let available_amount = total - used;
        let withdraw_amount = if available_amount <= amount {
            available_amount
        } else {
            amount
        };
        self.storage_balance = self.storage_balance - withdraw_amount;
        withdraw_amount
    }

    /// The pair (prepaid balance, used cost) at the given byte price.
    pub fn storage_balance(&self, byte_cost: u128) -> (r: (u128, u128))
        requires
            self.spec_used(byte_cost) <= u128::MAX,
        ensures
            r.0 == self.storage_balance,
            r.1 == self.spec_used(byte_cost),
    {
        let total = self.storage_balance;
        let used = self.storage_usage as u128 * byte_cost;
        (total, used)
    }
}

} // verus!
