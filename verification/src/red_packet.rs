//! One red packet: a locked balance distributed over a bounded number of
//! claims, with refund and compensation bookkeeping.
//!
//! The accounting invariant — `current_balance + Σ claimers +
//! refunded_balance == init_balance` — is part of [`RedPacket::wf`] and is
//! preserved by every operation.

use vstd::prelude::*;
use vstd::string::StringSliceAdditionalSpecFns;
use vstd::utf8::encode_utf8;
use crate::constants::MAX_RED_PACKET_MSG_LEN;
use crate::constants::MAX_RED_PACKET_SPLIT;
use crate::enums::DistributionMod;
use crate::enums::Token;
use crate::errors::ContractError;
use crate::string_kv::StringMap;
use crate::string_kv::StringSet;
use crate::string_kv::kv_keys;
use crate::string_kv::lemma_map_of_contains;
use crate::string_kv::lemma_map_of_index;
use crate::utils::average_sub;
use crate::utils::min_sub_or_default;
use crate::utils::random_sub;
use crate::utils::random_sub_spec;
use crate::utils::random_sub_max;
use vstd::arithmetic::div_mod::lemma_fundamental_div_mod;

verus! {

/// The total amount a claimer→amount entry list records.
pub open spec fn sum_amounts(s: Seq<(String, u128)>) -> int
    decreases s.len(),
{
    if s.len() == 0 {
        0
    } else {
        sum_amounts(s.drop_last()) + s.last().1
    }
}

/// Appending an entry adds its amount to the total.
pub proof fn lemma_sum_push(s: Seq<(String, u128)>, e: (String, u128))
    ensures
        sum_amounts(s.push(e)) == sum_amounts(s) + e.1,
{
    assert(s.push(e).drop_last() =~= s);
}

/// Removing an entry subtracts its amount from the total.
pub proof fn lemma_sum_remove(s: Seq<(String, u128)>, i: int)
    requires
        0 <= i < s.len(),
    ensures
        sum_amounts(s.remove(i)) == sum_amounts(s) - s[i].1,
    decreases s.len(),
{
    if i == s.len() - 1 {
        assert(s.remove(i) =~= s.drop_last());
    } else {
        assert(s.remove(i).drop_last() =~= s.drop_last().remove(i));
        assert(s.remove(i).last() == s.last());
        lemma_sum_remove(s.drop_last(), i);
        assert(s.drop_last()[i] == s[i]);
    }
}

/// Recorded amounts never sum below zero.
pub proof fn lemma_sum_nonneg(s: Seq<(String, u128)>)
    ensures
        sum_amounts(s) >= 0,
    decreases s.len(),
{
    if s.len() > 0 {
        lemma_sum_nonneg(s.drop_last());
    }
}

/// One locked-balance distribution job.
pub struct RedPacket {
    /// The locked asset's kind.
    pub token: Token,
    /// The issuer account of an external fungible asset; present exactly
    /// when `token` is `FungibleToken`.
    pub token_id: Option<String>,
    /// The account that locked the balance and may reclaim what remains.
    pub owner_id: String,
    pub init_balance: u128,
    pub current_balance: u128,
    /// Balance made withdrawable by refund or by compensation.
    pub refunded_balance: u128,
    pub init_split: usize,
    /// Claim slots still open; the packet has run out at zero.
    pub current_split: usize,
    pub split_mod: DistributionMod,
    /// Optional message, bounded in byte length.
    pub msg: Option<String>,
    /// When present, only listed accounts may claim; each claim consumes
    /// the claimer's entry, so the list always has `current_split` members.
    pub white_list: Option<StringSet>,
    /// Each successful claimer and the amount it drew.
    pub claimers: StringMap<u128>,
    /// Claimers whose asset transfer later failed, with the failed amount.
    pub failed_claimers: StringMap<u128>,
    pub create_timestamp: u64,
    /// Set once, when the last slot is consumed or the packet is refunded.
    pub run_out_timestamp: Option<u64>,
}

/// Validity of a packet's creation parameters: consistent asset kind, a
/// split between one and the maximum, a balance covering one unit per slot,
/// a bounded message, and a whitelist (if any) with one member per slot.
pub open spec fn spec_creation_valid(
    token: Token,
    token_id: Option<String>,
    amount: u128,
    split: usize,
    msg: Option<String>,
    white_list: Option<StringSet>,
) -> bool {
    &&& match token {
        Token::NEAR => token_id is None,
        Token::FungibleToken => token_id is Some,
    }
    &&& 1 <= split <= MAX_RED_PACKET_SPLIT
    &&& amount as int >= split as int
    &&& match msg {
        Some(m) => encode_utf8(m@).len() <= MAX_RED_PACKET_MSG_LEN,
        None => true,
    }
    &&& match white_list {
        Some(wl) => wl.items@.len() == split,
        None => true,
    }
}

impl RedPacket {
    /// Validity of this packet's creation parameters; see
    /// [`spec_creation_valid`].
    pub open spec fn spec_valid(&self) -> bool {
        spec_creation_valid(
            self.token,
            self.token_id,
            self.init_balance,
            self.init_split,
            self.msg,
            self.white_list,
        )
    }

    /// Well-formedness, preserved by every operation: distinct claimer
    /// keys, the whitelist tracking the open slots, the accounting
    /// invariant, and a balance that still covers one unit per open slot.
    pub open spec fn wf(&self) -> bool {
        &&& self.claimers.wf()
        &&& self.failed_claimers.wf()
        &&& match self.white_list {
            Some(wl) => wl.wf() && wl.items@.len() == self.current_split,
            None => true,
        }
        &&& self.current_split <= self.init_split
        &&& self.current_balance + sum_amounts(self.claimers.entries@) + self.refunded_balance
            == self.init_balance
        &&& self.current_balance as int >= self.current_split as int
        &&& (self.current_split == 0 ==> self.current_balance == 0)
    }

    /// The amount the active split algorithm yields for the next claim.
    pub open spec fn spec_claim_amount(&self, min_sub: Option<u128>, rand: u128) -> int {
        match self.split_mod {
            DistributionMod::Average => self.current_balance as int / self.current_split as int,
            DistributionMod::Random => random_sub_spec(
                self.current_balance,
                self.current_split as u128,
                min_sub_or_default(min_sub),
                rand,
            ),
        }
    }

    /// Build a packet from the creation parameters, validating them.
    /// Returns the packet exactly when the parameters are valid, and
    /// `InvalidParameter` otherwise.
    pub fn new_valid(
        token: Token,
        token_id: Option<String>,
        owner_id: String,
        amount: u128,
        split: usize,
        split_mod: DistributionMod,
        msg: Option<String>,
        white_list: Option<StringSet>,
        create_timestamp: u64,
    ) -> (r: Result<Self, ContractError>)
        requires
            match white_list {
                Some(wl) => wl.wf(),
                None => true,
            },
        ensures
            match r {
                Ok(p) => {
                    &&& p.token == token
                    &&& p.token_id == token_id
                    &&& p.owner_id == owner_id
                    &&& p.init_balance == amount
                    &&& p.current_balance == amount
                    &&& p.refunded_balance == 0
                    &&& p.init_split == split
                    &&& p.current_split == split
                    &&& p.split_mod == split_mod
                    &&& p.msg == msg
                    &&& p.white_list == white_list
                    &&& p.claimers@ == Map::<Seq<char>, u128>::empty()
                    &&& p.claimers.entries@.len() == 0
                    &&& p.failed_claimers@ == Map::<Seq<char>, u128>::empty()
                    &&& p.failed_claimers.entries@.len() == 0
                    &&& p.create_timestamp == create_timestamp
                    &&& p.run_out_timestamp is None
                    &&& p.spec_valid()
                    &&& p.wf()
                },
                Err(e) => e == ContractError::InvalidParameter,
            },
            r is Err <==> !spec_creation_valid(token, token_id, amount, split, msg, white_list),
    {
        let red_packet = RedPacket {
            token,
            token_id,
            owner_id,
            init_balance: amount,
            current_balance: amount,
            refunded_balance: 0,
            init_split: split,
            current_split: split,
            split_mod,
            msg,
            white_list,
            claimers: StringMap::new(),
            failed_claimers: StringMap::new(),
            create_timestamp,
            run_out_timestamp: None,
        };
        if !red_packet.is_valid() {
            return Err(ContractError::InvalidParameter);
        }
        Ok(red_packet)
    }

    /// Whether every claim slot has been consumed.
    pub fn is_run_out(&self) -> (r: bool)
        ensures
            r == (self.current_split == 0),
    {
        self.current_split == 0
    }

    /// Whether the packet's parameters are valid; see [`Self::spec_valid`].
    pub fn is_valid(&self) -> (r: bool)
        ensures
            r == self.spec_valid(),
    {
        match self.token {
            Token::NEAR => {
                if self.token_id.is_some() {
                    return false;
                }
            },
            Token::FungibleToken => {
                if self.token_id.is_none() {
                    return false;
                }
            },
        }
        if self.init_split == 0 || self.init_split > MAX_RED_PACKET_SPLIT {
            return false;
        }
        if self.init_balance < self.init_split as u128 {
            return false;
        }
        match &self.msg {
            Some(m) => {
                let m_len = m.as_str().as_bytes().len();
                assert(m_len == encode_utf8(m@).len());
                if m_len > MAX_RED_PACKET_MSG_LEN {
                    return false;
                }
            },
            None => {},
        }
        match &self.white_list {
            Some(wl) => {
                if wl.items.len() != self.init_split {
                    return false;
                }
            },
            None => {},
        }
        true
    }

    /// Claim one share.
    ///
    /// A run-out packet yields zero without error; a repeated claimer fails
    /// `NoDoubleClaim`; with a whitelist, an unlisted claimer fails
    /// `ClaimerNotInWhiteList` and a listed one consumes its entry.  On
    /// success the share is drawn by the active split algorithm, the
    /// balance and open slots shrink accordingly, and the claim is
    /// recorded; consuming the last slot stamps the run-out timestamp.
    /// Failure leaves the packet unchanged.
    pub fn virtual_claim(
        &mut self,
        claimer_id: String,
        min_sub: Option<u128>,
        rand: u128,
        timestamp: u64,
    ) -> (r: Result<u128, ContractError>)
        requires
            old(self).wf(),
            min_sub_or_default(min_sub) >= 1,
            old(self).split_mod is Random
                ==> old(self).current_balance as int
                    >= old(self).current_split as int * min_sub_or_default(min_sub) as int,
        ensures
            final(self).wf(),
            old(self).current_split == 0 ==> {
                &&& r == Result::<u128, ContractError>::Ok(0)
                &&& *final(self) == *old(self)
            },
            old(self).current_split > 0 && old(self).claimers@.contains_key(claimer_id@) ==> {
                &&& r == Result::<u128, ContractError>::Err(ContractError::NoDoubleClaim)
                &&& *final(self) == *old(self)
            },
            (old(self).current_split > 0 && !old(self).claimers@.contains_key(claimer_id@)
                && old(self).white_list is Some
                && !old(self).white_list->0@.contains(claimer_id@)) ==> {
                &&& r == Result::<u128, ContractError>::Err(ContractError::ClaimerNotInWhiteList)
                &&& *final(self) == *old(self)
            },
            (old(self).current_split > 0 && !old(self).claimers@.contains_key(claimer_id@)
                && (old(self).white_list is Some
                    ==> old(self).white_list->0@.contains(claimer_id@))) ==> {
                let amount = old(self).spec_claim_amount(min_sub, rand);
                {
                    &&& r == Result::<u128, ContractError>::Ok(amount as u128)
                    &&& 1 <= amount <= old(self).current_balance
                    &&& final(self).current_balance == old(self).current_balance - amount
                    &&& final(self).current_split == old(self).current_split - 1
                    &&& final(self).claimers@ == old(self).claimers@.insert(
                        claimer_id@, amount as u128)
                    &&& final(self).claimers.entries@ == old(self).claimers.entries@.push(
                        (claimer_id, amount as u128))
                    &&& final(self).failed_claimers == old(self).failed_claimers
                    &&& final(self).refunded_balance == old(self).refunded_balance
                    &&& final(self).init_balance == old(self).init_balance
                    &&& final(self).init_split == old(self).init_split
                    &&& final(self).token == old(self).token
                    &&& final(self).token_id == old(self).token_id
                    &&& final(self).owner_id == old(self).owner_id
                    &&& final(self).split_mod == old(self).split_mod
                    &&& final(self).msg == old(self).msg
                    &&& final(self).create_timestamp == old(self).create_timestamp
                    &&& (old(self).white_list is None ==> final(self).white_list is None)
                    &&& (old(self).white_list is Some ==> final(self).white_list is Some
                        && final(self).white_list->0@
                            =~= old(self).white_list->0@.remove(claimer_id@))
                    &&& final(self).run_out_timestamp == (if old(self).current_split == 1 {
                        Some(timestamp)
                    } else {
                        old(self).run_out_timestamp
                    })
                }
            },
    {
        if self.is_run_out() {
            return Ok(0);
        }
        if self.claimers.contains_key(&claimer_id) {
            return Err(ContractError::NoDoubleClaim);
        }
        match &mut self.white_list {
            Some(wl) => {
                if !wl.contains(&claimer_id) {
                    return Err(ContractError::ClaimerNotInWhiteList);
                } else {
                    wl.remove(&claimer_id);
                }
            },
            None => {},
        }

        let claim_amount: u128;
        match self.split_mod {
            DistributionMod::Average => {
                claim_amount = average_sub(self.current_balance, self.current_split);
                proof {
                    let b = self.current_balance as int;
                    let n = self.current_split as int;
                    lemma_fundamental_div_mod(b, n);
                    assert(b / n >= 1 && b - b / n >= n - 1 && b / n <= b
                        && (n == 1 ==> b / n == b)) by (nonlinear_arith)
                        requires
                            b >= n >= 1,
                            b == n * (b / n) + b % n,
                            0 <= b % n < n,
                    ;
                }
            },
            DistributionMod::Random => {
                claim_amount = random_sub(self.current_balance, self.current_split, min_sub, rand);
                proof {
                    let b = self.current_balance as int;
                    let n = self.current_split as int;
                    let ms = min_sub_or_default(min_sub) as int;
                    if n > 1 {
                        assert(claim_amount
                            <= b - ms * (n - 1) && ms * (n - 1) >= n - 1) by (nonlinear_arith)
                            requires
                                ms >= 1,
                                n > 1,
                                claim_amount
                                    <= random_sub_max(b as u128, n as u128, ms as u128),
                                random_sub_max(b as u128, n as u128, ms as u128)
                                    <= b - ms * (n - 1),
                        ;
                    }
                }
            },
        }

        proof {
            lemma_map_of_contains(self.claimers.entries@, claimer_id@);
            lemma_sum_push(self.claimers.entries@, (claimer_id, claim_amount));
        }
        self.claimers.insert(claimer_id, claim_amount);
        self.current_balance = self.current_balance - claim_amount;
        self.current_split = self.current_split - 1;

        if self.is_run_out() {
            self.run_out_timestamp = Some(timestamp);
        }

        Ok(claim_amount)
    }

    /// Move the whole remaining balance to the refunded balance, close all
    /// open slots and clear the whitelist.  A run-out packet yields zero
    /// without error; a caller other than the owner fails `NoPermission`
    /// and changes nothing.  Returns the cumulative refunded balance,
    /// compensation included.
    pub fn virtual_refund(&mut self, owner_id: String, timestamp: u64) -> (r: Result<
        u128,
        ContractError,
    >)
        requires
            old(self).wf(),
        ensures
            final(self).wf(),
            old(self).current_split == 0 ==> {
                &&& r == Result::<u128, ContractError>::Ok(0)
                &&& *final(self) == *old(self)
            },
            old(self).current_split > 0 && old(self).owner_id@ != owner_id@ ==> {
                &&& r == Result::<u128, ContractError>::Err(ContractError::NoPermission)
                &&& *final(self) == *old(self)
            },
            old(self).current_split > 0 && old(self).owner_id@ == owner_id@ ==> {
                &&& r == Result::<u128, ContractError>::Ok(
                    (old(self).refunded_balance + old(self).current_balance) as u128)
                &&& final(self).refunded_balance
                    == old(self).refunded_balance + old(self).current_balance
                &&& final(self).current_balance == 0
                &&& final(self).current_split == 0
                &&& final(self).claimers == old(self).claimers
                &&& final(self).failed_claimers == old(self).failed_claimers
                &&& final(self).init_balance == old(self).init_balance
                &&& final(self).init_split == old(self).init_split
                &&& final(self).token == old(self).token
                &&& final(self).token_id == old(self).token_id
                &&& final(self).owner_id == old(self).owner_id
                &&& final(self).split_mod == old(self).split_mod
                &&& final(self).msg == old(self).msg
                &&& final(self).create_timestamp == old(self).create_timestamp
                &&& (old(self).white_list is None ==> final(self).white_list is None)
                &&& (old(self).white_list is Some ==> final(self).white_list is Some
                    && final(self).white_list->0@ =~= Set::<Seq<char>>::empty())
                &&& final(self).run_out_timestamp == Some(timestamp)
            },
    {
        if self.is_run_out() {
            return Ok(0);
        }
        if !(self.owner_id == owner_id) {
            return Err(ContractError::NoPermission);
        }
        proof {
            lemma_sum_nonneg(self.claimers.entries@);
        }
        self.refunded_balance = self.refunded_balance + self.current_balance;
        self.current_balance = 0;
        self.current_split = 0;
        match &mut self.white_list {
            Some(wl) => {
                wl.clear();
            },
            None => {},
        }
        self.run_out_timestamp = Some(timestamp);
        Ok(self.refunded_balance)
    }

    /// Compensate a claim whose asset transfer failed: move the claimer's
    /// entry to the failed ledger and make the amount withdrawable through
    /// a later refund.  The settlement carries the recorded claim tuple, so
    /// the amount equals what the claim drew; open slots and the current
    /// balance stay as the claim left them.
    pub fn failed_claimer(&mut self, claimer_id: String, failed_amount: u128)
        requires
            old(self).wf(),
            old(self).claimers@.contains_key(claimer_id@),
            old(self).claimers@[claimer_id@] == failed_amount,
            !old(self).failed_claimers@.contains_key(claimer_id@),
        ensures
            final(self).wf(),
            final(self).claimers@ == old(self).claimers@.remove(claimer_id@),
            final(self).failed_claimers@ == old(self).failed_claimers@.insert(
                claimer_id@, failed_amount),
            final(self).refunded_balance == old(self).refunded_balance + failed_amount,
            final(self).current_balance == old(self).current_balance,
            final(self).current_split == old(self).current_split,
            final(self).init_balance == old(self).init_balance,
            final(self).init_split == old(self).init_split,
            final(self).token == old(self).token,
            final(self).token_id == old(self).token_id,
            final(self).owner_id == old(self).owner_id,
            final(self).split_mod == old(self).split_mod,
            final(self).msg == old(self).msg,
            final(self).white_list == old(self).white_list,
            final(self).create_timestamp == old(self).create_timestamp,
            final(self).run_out_timestamp == old(self).run_out_timestamp,
    {
        proof {
            lemma_map_of_contains(self.failed_claimers.entries@, claimer_id@);
        }
        self.claimers.remove(&claimer_id);
        proof {
            let s0 = old(self).claimers.entries@;
            let i = choose|i: int|
                0 <= i < s0.len() && #[trigger] s0[i].0@ == claimer_id@
                    && self.claimers.entries@ == s0.remove(i);
            lemma_sum_remove(s0, i);
            lemma_map_of_index(s0, i);
            lemma_sum_nonneg(self.claimers.entries@);
        }
        self.failed_claimers.insert(claimer_id, failed_amount);
        self.refunded_balance = self.refunded_balance + failed_amount;
    }
}

impl RedPacket {
    /// A deep copy of the packet, equal to it field by field.
    pub fn duplicate(&self) -> (r: Self)
        ensures
            r.token == self.token,
            r.token_id == self.token_id,
            r.owner_id == self.owner_id,
            r.init_balance == self.init_balance,
            r.current_balance == self.current_balance,
            r.refunded_balance == self.refunded_balance,
            r.init_split == self.init_split,
            r.current_split == self.current_split,
            r.split_mod == self.split_mod,
            r.msg == self.msg,
            r.white_list is Some <==> self.white_list is Some,
            r.white_list is Some ==> r.white_list->0.items@ == self.white_list->0.items@,
            r.claimers.entries@ == self.claimers.entries@,
            r.failed_claimers.entries@ == self.failed_claimers.entries@,
            r.create_timestamp == self.create_timestamp,
            r.run_out_timestamp == self.run_out_timestamp,
            r.wf() == self.wf(),
    {
        RedPacket {
            token: self.token,
            token_id: match &self.token_id {
                Some(t) => Some(t.clone()),
                None => None,
            },
            owner_id: self.owner_id.clone(),
            init_balance: self.init_balance,
            current_balance: self.current_balance,
            refunded_balance: self.refunded_balance,
            init_split: self.init_split,
            current_split: self.current_split,
            split_mod: self.split_mod,
            msg: match &self.msg {
                Some(m) => Some(m.clone()),
                None => None,
            },
            white_list: match &self.white_list {
                Some(wl) => Some(wl.duplicate()),
                None => None,
            },
            claimers: self.claimers.duplicate(),
            failed_claimers: self.failed_claimers.duplicate(),
            create_timestamp: self.create_timestamp,
            run_out_timestamp: self.run_out_timestamp,
        }
    }
}

/// The accounting law: a well-formed packet's current balance, recorded
/// claims and refunded balance always partition its initial balance.
pub proof fn lemma_accounting_invariant(p: &RedPacket)
    requires
        p.wf(),
    ensures
        p.current_balance + sum_amounts(p.claimers.entries@) + p.refunded_balance
            == p.init_balance,
{
}

/// The exhaustion law: once every claim slot is consumed, no balance
/// remains locked.
pub proof fn lemma_run_out_exhausts(p: &RedPacket)
    requires
        p.wf(),
        p.current_split == 0,
    ensures
        p.current_balance == 0,
{
}

/// The fairness law of a random-mode claim: the last open slot takes the
/// whole remaining balance, and any earlier claim draws at least the lower
/// bound and at most twice the even share of what remains.
pub proof fn lemma_random_claim_bounds(p: &RedPacket, min_sub: Option<u128>, rand: u128)
    requires
        p.wf(),
        p.split_mod is Random,
        p.current_split >= 1,
        min_sub_or_default(min_sub) >= 1,
        p.current_balance as int
            >= p.current_split as int * min_sub_or_default(min_sub) as int,
    ensures
        p.current_split == 1 ==> p.spec_claim_amount(min_sub, rand) == p.current_balance,
        p.current_split > 1 ==> min_sub_or_default(min_sub)
            <= p.spec_claim_amount(min_sub, rand)
            <= 2 * (p.current_balance as int / p.current_split as int),
{
    crate::utils::lemma_random_sub_bounds(
        p.current_balance,
        p.current_split as u128,
        min_sub_or_default(min_sub),
        rand,
    );
}

/// The no-double-claim law: no account is recorded twice among a
/// well-formed packet's claimers.
pub proof fn lemma_no_double_claimers(p: &RedPacket)
    requires
        p.wf(),
    ensures
        kv_keys(p.claimers.entries@).no_duplicates(),
{
}

} // verus!
