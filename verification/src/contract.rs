//! The contract state: red packets keyed by claim credential, the
//! owner→credential index, and the storage-accounting ledger.
//!
//! Consistency of the two red-packet key spaces is part of [`Contract::wf`]:
//! every packet's credential is in its owner's set, every set member names a
//! live packet of that owner, no set is empty, and every packet owner holds
//! a storage record.

use vstd::prelude::*;
use crate::dynamic_storage_management::account_storage::AccountStorage;
use crate::dynamic_storage_management::account_storage::clamped_usage;
use crate::dynamic_storage_management::dynamic_storage_manager::DynamicStorageManager;
use crate::dynamic_storage_management::errors::StorageError;
use crate::dynamic_storage_management::storage_measurement::MeasurementState;
use crate::enums::DistributionMod;
use crate::enums::Token;
use crate::errors::ContractError;
use crate::red_packet::RedPacket;
use crate::red_packet::spec_creation_valid;
use crate::string_kv::StringMap;
use crate::string_kv::StringSet;

verus! {

/// The asset movement an operation asks the host to perform after its state
/// change has committed.
#[derive(Debug, PartialEq, Eq)]
pub enum TransferAction {
    /// Nothing to move.
    NoTransfer,
    /// Move native asset to `receiver_id`.
    TransferNear { receiver_id: String, amount: u128 },
    /// Move an external fungible asset to `receiver_id`, with no settlement
    /// callback.
    TransferFt { receiver_id: String, amount: u128, token_id: String },
    /// Move an external fungible asset to a claimer and route the
    /// settlement back through the resolver under the correlation tuple.
    TransferFtWithResolve {
        claimer_id: String,
        owner_id: String,
        amount: u128,
        token_id: String,
        public_key: String,
    },
}

/// Red-packet ledger, owner index, storage ledger and the helper account.
pub struct Contract {
    /// Each live packet, keyed by its claim credential.
    pub red_packets: StringMap<RedPacket>,
    /// Each owner's set of live credentials.
    pub owners: StringMap<StringSet>,
    pub storage_manager: DynamicStorageManager,
    /// The account-creation helper the claim flow may call.
    pub helper_contract_id: String,
}

impl Contract {
    /// Every live packet is well-formed and its asset kind is consistent
    /// with the presence of an issuer id.
    pub open spec fn packets_wf(&self) -> bool {
        forall|pk: Seq<char>| #[trigger] self.red_packets@.contains_key(pk) ==> {
            &&& self.red_packets@[pk].wf()
            &&& match self.red_packets@[pk].token {
                Token::NEAR => self.red_packets@[pk].token_id is None,
                Token::FungibleToken => self.red_packets@[pk].token_id is Some,
            }
        }
    }

    /// The owner index and the packet map agree, sets are non-empty, and
    /// every owner of a live packet has a storage record.
    pub open spec fn index_wf(&self) -> bool {
        &&& forall|pk: Seq<char>| #[trigger] self.red_packets@.contains_key(pk) ==> {
            &&& self.owners@.contains_key(self.red_packets@[pk].owner_id@)
            &&& self.owners@[self.red_packets@[pk].owner_id@]@.contains(pk)
        }
        &&& forall|o: Seq<char>| #[trigger] self.owners@.contains_key(o) ==> {
            &&& self.owners@[o].wf()
            &&& self.owners@[o].items@.len() > 0
            &&& self.storage_manager.spec_registered(o)
            &&& forall|pk: Seq<char>| #[trigger] self.owners@[o]@.contains(pk) ==> {
                &&& self.red_packets@.contains_key(pk)
                &&& self.red_packets@[pk].owner_id@ == o
            }
        }
    }

    /// The ledgers' own invariant, without the call-scoped session state.
    pub open spec fn ledger_wf(&self) -> bool {
        &&& self.red_packets.wf()
        &&& self.owners.wf()
        &&& self.storage_manager.wf()
        &&& self.packets_wf()
        &&& self.index_wf()
    }

    /// Between operations the ledgers are consistent and the measurement
    /// session is idle with no accumulated delta.
    pub open spec fn wf(&self) -> bool {
        &&& self.ledger_wf()
        &&& self.storage_manager.storage_measurement.state == MeasurementState::Idle
        &&& self.storage_manager.storage_measurement.storage_usage_change == 0
    }

    /// An empty contract.
    pub fn init(helper_contract_id: String) -> (r: Self)
        ensures
            r.wf(),
            r.red_packets@ == Map::<Seq<char>, RedPacket>::empty(),
            r.owners@ == Map::<Seq<char>, StringSet>::empty(),
            r.storage_manager.accounts@ == Map::<
                Seq<char>,
                crate::dynamic_storage_management::account_storage::AccountStorage,
            >::empty(),
            r.helper_contract_id == helper_contract_id,
    {
        Contract {
            red_packets: StringMap::new(),
            owners: StringMap::new(),
            storage_manager: DynamicStorageManager::new(),
            helper_contract_id,
        }
    }

    /// Whether no live packet is recorded under `public_key`.
    pub fn unique_public_key(&self, public_key: &String) -> (r: bool)
        ensures
            r == !self.red_packets@.contains_key(public_key@),
    {
        !self.red_packets.contains_key(public_key)
    }

    /// Check that no live packet is recorded under `public_key`.
    pub fn assert_unique_public_key(&self, public_key: &String) -> (r: Result<(), ContractError>)
        ensures
            r is Ok <==> !self.red_packets@.contains_key(public_key@),
            r is Err ==> r == Result::<(), ContractError>::Err(ContractError::NotUniquePublicKey),
    {
        if self.unique_public_key(public_key) {
            Ok(())
        } else {
            Err(ContractError::NotUniquePublicKey)
        }
    }

    /// Record a packet under its credential and index the credential under
    /// its owner.
    pub fn add_red_packet(&mut self, owner_id: String, public_key: String, red_packet: RedPacket)
        requires
            old(self).ledger_wf(),
            !old(self).red_packets@.contains_key(public_key@),
            red_packet.wf(),
            match red_packet.token {
                Token::NEAR => red_packet.token_id is None,
                Token::FungibleToken => red_packet.token_id is Some,
            },
            red_packet.owner_id@ == owner_id@,
            old(self).storage_manager.spec_registered(owner_id@),
        ensures
            final(self).ledger_wf(),
            final(self).red_packets@ == old(self).red_packets@.insert(public_key@, red_packet),
            final(self).owners@.dom() =~= old(self).owners@.dom().insert(owner_id@),
            final(self).owners@[owner_id@]@ =~= (if old(self).owners@.contains_key(owner_id@) {
                old(self).owners@[owner_id@]@
            } else {
                Set::<Seq<char>>::empty()
            }).insert(public_key@),
            forall|o: Seq<char>| o != owner_id@ && old(self).owners@.contains_key(o)
                ==> final(self).owners@[o] == old(self).owners@[o],
            final(self).storage_manager == old(self).storage_manager,
            final(self).helper_contract_id == old(self).helper_contract_id,
    {
        let mut public_keys = match self.owners.remove(&owner_id) {
            Some(s) => s,
            None => StringSet::new(),
        };
        public_keys.insert(public_key.clone());
        self.owners.insert(owner_id, public_keys);
        self.red_packets.insert(public_key, red_packet);

        proof {
            let post = *final(self);
            let pre = *old(self);
            assert forall|pk: Seq<char>| #[trigger] post.red_packets@.contains_key(pk) implies {
                &&& post.red_packets@[pk].wf()
                &&& match post.red_packets@[pk].token {
                    Token::NEAR => post.red_packets@[pk].token_id is None,
                    Token::FungibleToken => post.red_packets@[pk].token_id is Some,
                }
                &&& post.owners@.contains_key(post.red_packets@[pk].owner_id@)
                &&& post.owners@[post.red_packets@[pk].owner_id@]@.contains(pk)
            } by {
                if pk != public_key@ {
                    assert(pre.red_packets@.contains_key(pk));
                }
            }
            assert forall|o: Seq<char>| #[trigger] post.owners@.contains_key(o) implies {
                &&& post.owners@[o].wf()
                &&& post.owners@[o].items@.len() > 0
                &&& post.storage_manager.spec_registered(o)
                &&& forall|pk: Seq<char>| #[trigger] post.owners@[o]@.contains(pk) ==> {
                    &&& post.red_packets@.contains_key(pk)
                    &&& post.red_packets@[pk].owner_id@ == o
                }
            } by {
                if o == owner_id@ {
                    assert forall|pk: Seq<char>| #[trigger] post.owners@[o]@.contains(pk) implies {
                        &&& post.red_packets@.contains_key(pk)
                        &&& post.red_packets@[pk].owner_id@ == o
                    } by {
                        if pk != public_key@ {
                            assert(pre.owners@.contains_key(o));
                            assert(pre.owners@[o]@.contains(pk));
                        }
                    }
                } else {
                    assert(pre.owners@.contains_key(o));
                    assert(post.owners@[o] == pre.owners@[o]);
                    assert forall|pk: Seq<char>| #[trigger] post.owners@[o]@.contains(pk) implies {
                        &&& post.red_packets@.contains_key(pk)
                        &&& post.red_packets@[pk].owner_id@ == o
                    } by {
                        assert(pre.owners@[o]@.contains(pk));
                        assert(pk != public_key@) by {
                            if pk == public_key@ {
                                assert(pre.red_packets@.contains_key(pk));
                            }
                        }
                    }
                }
            }
        }
    }

    /// Remove the packet under `public_key`, if any; only its owner may do
    /// so, and only once it has run out unless forced.  Removing an unknown
    /// credential does nothing.
    pub fn remove_red_packet(
        &mut self,
        public_key: &String,
        owner_id: &String,
        force: bool,
    ) -> (r: Result<(), ContractError>)
        requires
            old(self).ledger_wf(),
        ensures
            final(self).ledger_wf(),
            final(self).storage_manager == old(self).storage_manager,
            final(self).helper_contract_id == old(self).helper_contract_id,
            !old(self).red_packets@.contains_key(public_key@) ==> {
                &&& r is Ok
                &&& *final(self) == *old(self)
            },
            (old(self).red_packets@.contains_key(public_key@)
                && old(self).red_packets@[public_key@].owner_id@ != owner_id@) ==> {
                &&& r == Result::<(), ContractError>::Err(ContractError::NoPermission)
                &&& *final(self) == *old(self)
            },
            (old(self).red_packets@.contains_key(public_key@)
                && old(self).red_packets@[public_key@].owner_id@ == owner_id@
                && old(self).red_packets@[public_key@].current_split > 0 && !force) ==> {
                &&& r == Result::<(), ContractError>::Err(ContractError::RedPacketNotRunOut)
                &&& *final(self) == *old(self)
            },
            (old(self).red_packets@.contains_key(public_key@)
                && old(self).red_packets@[public_key@].owner_id@ == owner_id@
                && (old(self).red_packets@[public_key@].current_split == 0 || force)) ==> {
                &&& r is Ok
                &&& final(self).red_packets@ == old(self).red_packets@.remove(public_key@)
                &&& (old(self).owners@[owner_id@].items@.len() == 1 ==> final(self).owners@
                    =~= old(self).owners@.remove(owner_id@))
                &&& (old(self).owners@[owner_id@].items@.len() > 1 ==> {
                    &&& final(self).owners@.dom() =~= old(self).owners@.dom()
                    &&& final(self).owners@[owner_id@]@
                        =~= old(self).owners@[owner_id@]@.remove(public_key@)
                    &&& forall|o: Seq<char>| o != owner_id@ && old(self).owners@.contains_key(o)
                        ==> final(self).owners@[o] == old(self).owners@[o]
                })
            },
    {
        let red_packet = match self.red_packets.get(public_key) {
            None => {
                return Ok(());
            },
            Some(p) => p,
        };
        if !(red_packet.owner_id == *owner_id) {
            return Err(ContractError::NoPermission);
        }
        if !red_packet.is_run_out() && !force {
            return Err(ContractError::RedPacketNotRunOut);
        }

        let mut public_keys = match self.owners.remove(owner_id) {
            Some(s) => s,
            None => {
                proof {
                    assert(false);
                }
                StringSet::new()
            },
        };
        proof {
            public_keys.key_seq().unique_seq_to_set();
        }
        public_keys.remove(public_key);
        proof {
            public_keys.key_seq().unique_seq_to_set();
        }
        if public_keys.is_empty() {
            // the owner's last credential is gone; drop the empty set
        } else {
            self.owners.insert(owner_id.clone(), public_keys);
        }
        self.red_packets.remove(public_key);

        proof {
            let post = *final(self);
            let pre = *old(self);
            assert forall|pk: Seq<char>| #[trigger] post.red_packets@.contains_key(pk) implies {
                &&& post.red_packets@[pk].wf()
                &&& match post.red_packets@[pk].token {
                    Token::NEAR => post.red_packets@[pk].token_id is None,
                    Token::FungibleToken => post.red_packets@[pk].token_id is Some,
                }
                &&& post.owners@.contains_key(post.red_packets@[pk].owner_id@)
                &&& post.owners@[post.red_packets@[pk].owner_id@]@.contains(pk)
            } by {
                assert(pre.red_packets@.contains_key(pk));
                let o = pre.red_packets@[pk].owner_id@;
                assert(pre.owners@.contains_key(o));
                assert(pre.owners@[o]@.contains(pk));
                if o == owner_id@ {
                    assert(pk != public_key@);
                }
            }
            assert forall|o: Seq<char>| #[trigger] post.owners@.contains_key(o) implies {
                &&& post.owners@[o].wf()
                &&& post.owners@[o].items@.len() > 0
                &&& post.storage_manager.spec_registered(o)
                &&& forall|pk: Seq<char>| #[trigger] post.owners@[o]@.contains(pk) ==> {
                    &&& post.red_packets@.contains_key(pk)
                    &&& post.red_packets@[pk].owner_id@ == o
                }
            } by {
                assert(pre.owners@.contains_key(o));
                assert forall|pk: Seq<char>| #[trigger] post.owners@[o]@.contains(pk) implies {
                    &&& post.red_packets@.contains_key(pk)
                    &&& post.red_packets@[pk].owner_id@ == o
                } by {
                    assert(pre.owners@[o]@.contains(pk));
                    if o == owner_id@ {
                        assert(pk != public_key@);
                    } else {
                        assert(pre.red_packets@[pk].owner_id@ == o);
                        assert(pk != public_key@);
                    }
                }
            }
        }
        Ok(())
    }

    /// How many of the credentials in `keys` name a run-out packet of `m`.
    pub open spec fn spec_run_out_count(m: Map<Seq<char>, RedPacket>, keys: Seq<Seq<char>>) -> int
        decreases keys.len(),
    {
        if keys.len() == 0 {
            0
        } else {
            Self::spec_run_out_count(m, keys.drop_last()) + (if m[keys.last()].current_split == 0 {
                1int
            } else {
                0int
            })
        }
    }

    /// The run-out count is bounded by the number of credentials and
    /// saturates exactly when every one has run out.
    pub proof fn lemma_run_out_count(m: Map<Seq<char>, RedPacket>, keys: Seq<Seq<char>>)
        ensures
            0 <= Self::spec_run_out_count(m, keys) <= keys.len(),
            Self::spec_run_out_count(m, keys) == keys.len() <==> (forall|j: int|
                0 <= j < keys.len() ==> m[#[trigger] keys[j]].current_split == 0),
        decreases keys.len(),
    {
        if keys.len() > 0 {
            Self::lemma_run_out_count(m, keys.drop_last());
            assert(forall|j: int| 0 <= j < keys.len() - 1 ==> keys.drop_last()[j] == keys[j]);
            if Self::spec_run_out_count(m, keys) == keys.len() {
                assert forall|j: int| 0 <= j < keys.len()
                    implies m[#[trigger] keys[j]].current_split == 0 by {
                    if j < keys.len() - 1 {
                        assert(keys.drop_last()[j] == keys[j]);
                    }
                }
            }
            if forall|j: int| 0 <= j < keys.len() ==> m[#[trigger] keys[j]].current_split == 0 {
                assert(m[keys.last()].current_split == 0);
            }
        }
    }

    /// How many packets `owner_id` owns, and how many of them have run out.
    pub fn red_packet_count(&self, owner_id: &String) -> (r: (usize, usize))
        requires
            self.ledger_wf(),
        ensures
            !self.owners@.contains_key(owner_id@) ==> r == (0usize, 0usize),
            self.owners@.contains_key(owner_id@) ==> {
                &&& r.0 == self.owners@[owner_id@].items@.len()
                &&& r.1 == Self::spec_run_out_count(
                    self.red_packets@,
                    self.owners@[owner_id@].key_seq(),
                )
            },
    {
        let mut total: usize = 0;
        let mut run_out: usize = 0;

        match self.owners.get(owner_id) {
            None => {},
            Some(public_keys) => {
                let ghost keys = public_keys.key_seq();
                total = public_keys.items.len();
                let mut i: usize = 0;
                while i < total
                    invariant
                        self.ledger_wf(),
                        self.owners@.contains_key(owner_id@),
                        public_keys == self.owners@[owner_id@],
                        keys == public_keys.key_seq(),
                        total == keys.len(),
                        i <= total,
                        run_out == Self::spec_run_out_count(self.red_packets@, keys.take(i as int)),
                        run_out <= i,
                    decreases total - i,
                {
                    proof {
                        assert(keys[i as int] == public_keys.items@[i as int]@);
                        assert(public_keys@.contains(keys[i as int]));
                        assert(self.owners@[owner_id@]@.contains(keys[i as int]));
                    }
                    let red_packet = match self.red_packets.get(&public_keys.items[i]) {
                        Some(p) => p,
                        None => {
                            proof {
                                assert(false);
                            }
                            return (0, 0);
                        },
                    };
                    if red_packet.current_split == 0 {
                        run_out = run_out + 1;
                    }
                    i = i + 1;
                    proof {
                        assert(keys.take(i as int).drop_last() =~= keys.take(i as int - 1));
                        assert(keys.take(i as int).last() == keys[i as int - 1]);
                    }
                }
                proof {
                    assert(keys.take(total as int) =~= keys);
                }
            },
        }
        (total, run_out)
    }

    /// Whether every packet `owner_id` owns has run out (vacuously true for
    /// an account owning none).
    pub fn all_red_packets_run_out(&self, owner_id: &String) -> (r: bool)
        requires
            self.ledger_wf(),
        ensures
            r <==> (forall|pk: Seq<char>|
                self.owners@.contains_key(owner_id@)
                    && #[trigger] self.owners@[owner_id@]@.contains(pk)
                    ==> self.red_packets@[pk].current_split == 0),
    {
        let count = self.red_packet_count(owner_id);
        let r = count.0 == count.1;
        proof {
            if self.owners@.contains_key(owner_id@) {
                let keys = self.owners@[owner_id@].key_seq();
                Self::lemma_run_out_count(self.red_packets@, keys);
                if r {
                    assert forall|pk: Seq<char>|
                        #[trigger] self.owners@[owner_id@]@.contains(pk)
                        implies self.red_packets@[pk].current_split == 0 by {
                        let j = choose|j: int| 0 <= j < keys.len() && keys[j] == pk;
                        assert(self.red_packets@[keys[j]].current_split == 0);
                    }
                } else {
                    let j = choose|j: int|
                        0 <= j < keys.len() && !(self.red_packets@[#[trigger] keys[j]].current_split
                            == 0);
                    assert(self.owners@[owner_id@]@.contains(keys[j]));
                }
            }
        }
        r
    }

    /// Remove every run-out packet `owner_id` owns — every packet, when
    /// forced — and shrink or drop its credential set accordingly.  An
    /// account owning nothing is left untouched.
    pub fn clear_red_packets(&mut self, owner_id: &String, force: bool)
        requires
            old(self).ledger_wf(),
        ensures
            final(self).ledger_wf(),
            final(self).storage_manager == old(self).storage_manager,
            final(self).helper_contract_id == old(self).helper_contract_id,
            !old(self).owners@.contains_key(owner_id@) ==> *final(self) == *old(self),
            old(self).owners@.contains_key(owner_id@) ==> {
                let removed = |pk: Seq<char>|
                    old(self).owners@[owner_id@]@.contains(pk)
                        && (old(self).red_packets@[pk].current_split == 0 || force);
                {
                    &&& forall|pk: Seq<char>|
                        #[trigger] final(self).red_packets@.contains_key(pk)
                            <==> (old(self).red_packets@.contains_key(pk) && !removed(pk))
                    &&& forall|pk: Seq<char>| #[trigger] final(self).red_packets@.contains_key(pk)
                        ==> final(self).red_packets@[pk] == old(self).red_packets@[pk]
                    &&& (forall|pk: Seq<char>|
                        #[trigger] old(self).owners@[owner_id@]@.contains(pk) ==> removed(pk))
                        ==> final(self).owners@ =~= old(self).owners@.remove(owner_id@)
                    &&& !(forall|pk: Seq<char>|
                        #[trigger] old(self).owners@[owner_id@]@.contains(pk) ==> removed(pk)) ==> {
                        &&& final(self).owners@.dom() =~= old(self).owners@.dom()
                        &&& forall|pk: Seq<char>|
                            #[trigger] final(self).owners@[owner_id@]@.contains(pk)
                                <==> (old(self).owners@[owner_id@]@.contains(pk) && !removed(pk))
                        &&& forall|o: Seq<char>|
                            o != owner_id@ && old(self).owners@.contains_key(o)
                                ==> final(self).owners@[o] == old(self).owners@[o]
                    }
                }
            },
    {
        if !self.owners.contains_key(owner_id) {
            return;
        }
        let public_keys = match self.owners.remove(owner_id) {
            None => {
                proof {
                    assert(false);
                }
                StringSet::new()
            },
            Some(s) => s,
        };
        let ghost keys = public_keys.key_seq();
        let ghost m0 = self.red_packets@;
        let ghost owners1 = self.owners;
        proof {
            assert forall|j: int| 0 <= j < keys.len()
                implies #[trigger] m0.contains_key(keys[j]) by {
                assert(public_keys@.contains(keys[j]));
                assert(old(self).owners@[owner_id@]@.contains(keys[j]));
            }
        }

        let mut kept = StringSet::new();
        let n = public_keys.items.len();
        let mut i: usize = 0;
        while i < n
            invariant
                n == keys.len(),
                i <= n,
                keys == public_keys.key_seq(),
                keys.no_duplicates(),
                forall|j: int| 0 <= j < keys.len() ==> #[trigger] m0.contains_key(keys[j]),
                kept.wf(),
                forall|pk: Seq<char>| #[trigger] kept@.contains(pk) <==> (exists|j: int|
                    0 <= j < i && #[trigger] keys[j] == pk
                        && !(m0[pk].current_split == 0 || force)),
                self.red_packets.wf(),
                forall|pk: Seq<char>| #[trigger] self.red_packets@.contains_key(pk)
                    <==> (m0.contains_key(pk) && !(exists|j: int|
                        0 <= j < i && #[trigger] keys[j] == pk
                            && (m0[pk].current_split == 0 || force))),
                forall|pk: Seq<char>| #[trigger] self.red_packets@.contains_key(pk)
                    ==> self.red_packets@[pk] == m0[pk],
                self.owners == owners1,
                self.storage_manager == old(self).storage_manager,
                self.helper_contract_id == old(self).helper_contract_id,
            decreases n - i,
        {
            proof {
                assert(keys[i as int] == public_keys.items@[i as int]@);
                assert(m0.contains_key(keys[i as int]));
                assert forall|j: int| 0 <= j < i implies #[trigger] keys[j] != keys[i as int] by {}
                assert(self.red_packets@.contains_key(keys[i as int]));
            }
            let is_run_out = match self.red_packets.get(&public_keys.items[i]) {
                Some(p) => p.current_split == 0,
                None => {
                    proof {
                        assert(false);
                    }
                    false
                },
            };
            if is_run_out || force {
                self.red_packets.remove(&public_keys.items[i]);
            } else {
                kept.insert(public_keys.items[i].clone());
            }
            i = i + 1;
        }

        proof {
            assert forall|pk: Seq<char>|
                #[trigger] public_keys@.contains(pk) && !(m0[pk].current_split == 0 || force)
                implies kept@.contains(pk) by {
                let j = choose|j: int| 0 <= j < keys.len() && keys[j] == pk;
            }
            assert forall|pk: Seq<char>| #[trigger] kept@.contains(pk)
                implies public_keys@.contains(pk) && !(m0[pk].current_split == 0 || force) by {
                let j = choose|j: int|
                    0 <= j < i && #[trigger] keys[j] == pk
                        && !(m0[pk].current_split == 0 || force);
                assert(public_keys@.contains(keys[j]));
            }
            assert(m0 == old(self).red_packets@);
            assert(public_keys@ == old(self).owners@[owner_id@]@);
            assert forall|pk: Seq<char>| #[trigger] self.red_packets@.contains_key(pk)
                <==> (m0.contains_key(pk)
                    && !(public_keys@.contains(pk)
                        && (m0[pk].current_split == 0 || force))) by {
                if self.red_packets@.contains_key(pk) {
                    if public_keys@.contains(pk) && (m0[pk].current_split == 0 || force) {
                        assert(keys.contains(pk));
                        let j = choose|j: int| 0 <= j < keys.len() && #[trigger] keys[j] == pk;
                        assert(false);
                    }
                } else {
                    if m0.contains_key(pk)
                        && !(public_keys@.contains(pk)
                            && (m0[pk].current_split == 0 || force)) {
                        assert forall|j: int|
                            0 <= j < keys.len() && #[trigger] keys[j] == pk
                            implies !(m0[pk].current_split == 0 || force) by {
                            assert(keys.contains(pk));
                            assert(public_keys@.contains(pk));
                        }
                        assert(false);
                    }
                }
            }
        }

        proof {
            kept.key_seq().unique_seq_to_set();
        }
        if kept.is_empty() {
            proof {
                assert forall|pk: Seq<char>| #[trigger] public_keys@.contains(pk)
                    implies (m0[pk].current_split == 0 || force) by {
                    if !(m0[pk].current_split == 0 || force) {
                        assert(kept@.contains(pk));
                        assert(kept.key_seq().contains(pk));
                        let j = choose|j: int|
                            0 <= j < kept.key_seq().len() && kept.key_seq()[j] == pk;
                        assert(kept.items@.len() > 0);
                    }
                }
            }
        } else {
            proof {
                assert(kept.items@.len() > 0);
                let pk0 = kept.key_seq()[0];
                assert(kept.key_seq().contains(pk0));
                assert(kept@.contains(pk0));
            }
            self.owners.insert(owner_id.clone(), kept);
        }

        proof {
            let post = *final(self);
            let pre = *old(self);
            assert forall|pk: Seq<char>| #[trigger] post.red_packets@.contains_key(pk) implies {
                &&& post.red_packets@[pk].wf()
                &&& match post.red_packets@[pk].token {
                    Token::NEAR => post.red_packets@[pk].token_id is None,
                    Token::FungibleToken => post.red_packets@[pk].token_id is Some,
                }
                &&& post.owners@.contains_key(post.red_packets@[pk].owner_id@)
                &&& post.owners@[post.red_packets@[pk].owner_id@]@.contains(pk)
            } by {
                assert(pre.red_packets@.contains_key(pk));
                let o = pre.red_packets@[pk].owner_id@;
                assert(pre.owners@.contains_key(o));
                assert(pre.owners@[o]@.contains(pk));
                if o == owner_id@ {
                    assert(!(m0[pk].current_split == 0 || force));
                    assert(kept@.contains(pk));
                }
            }
            assert forall|o: Seq<char>| #[trigger] post.owners@.contains_key(o) implies {
                &&& post.owners@[o].wf()
                &&& post.owners@[o].items@.len() > 0
                &&& post.storage_manager.spec_registered(o)
                &&& forall|pk: Seq<char>| #[trigger] post.owners@[o]@.contains(pk) ==> {
                    &&& post.red_packets@.contains_key(pk)
                    &&& post.red_packets@[pk].owner_id@ == o
                }
            } by {
                if o == owner_id@ {
                    assert(pre.owners@.contains_key(o));
                    assert forall|pk: Seq<char>| #[trigger] post.owners@[o]@.contains(pk)
                        implies {
                        &&& post.red_packets@.contains_key(pk)
                        &&& post.red_packets@[pk].owner_id@ == o
                    } by {
                        assert(kept@.contains(pk));
                        assert(public_keys@.contains(pk));
                        assert(pre.owners@[o]@.contains(pk));
                    }
                } else {
                    assert(pre.owners@.contains_key(o));
                    assert(post.owners@[o] == pre.owners@[o]);
                    assert forall|pk: Seq<char>| #[trigger] post.owners@[o]@.contains(pk)
                        implies {
                        &&& post.red_packets@.contains_key(pk)
                        &&& post.red_packets@[pk].owner_id@ == o
                    } by {
                        assert(pre.owners@[o]@.contains(pk));
                        assert(pre.red_packets@[pk].owner_id@ == o);
                        assert(!public_keys@.contains(pk)) by {
                            if public_keys@.contains(pk) {
                                assert(pre.owners@[owner_id@]@.contains(pk));
                                assert(pre.red_packets@[pk].owner_id@ == owner_id@);
                            }
                        }
                        assert(post.red_packets@.contains_key(pk));
                    }
                }
            }
            if forall|pk: Seq<char>|
                #[trigger] pre.owners@[owner_id@]@.contains(pk)
                    ==> (pre.red_packets@[pk].current_split == 0 || force) {
                assert forall|pk: Seq<char>| !(#[trigger] kept@.contains(pk)) by {
                    if kept@.contains(pk) {
                        assert(pre.owners@[owner_id@]@.contains(pk));
                    }
                }
                assert(kept.items@.len() == 0) by {
                    if kept.items@.len() > 0 {
                        let pk0 = kept.key_seq()[0];
                        assert(kept.key_seq().contains(pk0));
                        assert(kept@.contains(pk0));
                    }
                }
                assert(post.owners@ =~= pre.owners@.remove(owner_id@));
            } else {
                let pkw = choose|pk: Seq<char>|
                    #[trigger] pre.owners@[owner_id@]@.contains(pk)
                        && !(pre.red_packets@[pk].current_split == 0 || force);
                assert(kept@.contains(pkw));
                assert(kept.items@.len() > 0);
                assert(post.owners@.dom() =~= pre.owners@.dom());
            }
        }
    }

    /// The storage record of `account` after one measured usage delta,
    /// taken between two readings of the host's live usage counter.
    pub open spec fn spec_measured_record(
        &self,
        account: Seq<char>,
        usage_before: u64,
        usage_after: u64,
    ) -> AccountStorage {
        AccountStorage {
            storage_usage: clamped_usage(
                self.storage_manager.spec_record(account).storage_usage as int,
                usage_after - usage_before,
            ) as u64,
            storage_balance: self.storage_manager.spec_record(account).storage_balance,
        }
    }

    /// Begin measuring storage for the operation in progress.
    pub fn measure_start(&mut self, live_usage: u64) -> (r: Result<(), ContractError>)
        ensures
            final(self).red_packets == old(self).red_packets,
            final(self).owners == old(self).owners,
            final(self).helper_contract_id == old(self).helper_contract_id,
            final(self).storage_manager.accounts == old(self).storage_manager.accounts,
            old(self).storage_manager.storage_measurement.state == MeasurementState::Idle ==> {
                &&& r is Ok
                &&& final(self).storage_manager.storage_measurement.state
                    == MeasurementState::Pending
                &&& final(self).storage_manager.storage_measurement.storage_usage_reference
                    == live_usage
                &&& final(self).storage_manager.storage_measurement.storage_usage_change
                    == old(self).storage_manager.storage_measurement.storage_usage_change
            },
            old(self).storage_manager.storage_measurement.state == MeasurementState::Pending
                ==> r == Result::<(), ContractError>::Err(ContractError::Storage(
                    StorageError::RepeatedStartStorageMeasurement))
                    && final(self).storage_manager == old(self).storage_manager,
    {
        match self.storage_manager.start_measure_storage(live_usage) {
            Ok(()) => Ok(()),
            Err(e) => Err(ContractError::Storage(e)),
        }
    }

    /// Stop measuring and charge the measured delta to `account_id`.
    pub fn measure_end(&mut self, account_id: &String, live_usage: u64) -> (r: Result<
        (),
        ContractError,
    >)
        requires
            old(self).storage_manager.wf(),
            old(self).storage_manager.storage_measurement.state == MeasurementState::Pending ==> {
                &&& i128::MIN <= old(self).storage_manager.storage_measurement.storage_usage_change
                    + live_usage
                    - old(self).storage_manager.storage_measurement.storage_usage_reference
                &&& old(self).storage_manager.storage_measurement.storage_usage_change + live_usage
                    - old(self).storage_manager.storage_measurement.storage_usage_reference
                    <= i128::MAX
            },
            (old(self).storage_manager.spec_registered(account_id@)
                && old(self).storage_manager.storage_measurement.state
                    == MeasurementState::Pending)
                ==> old(self).storage_manager.spec_record(account_id@).storage_usage
                    + old(self).storage_manager.storage_measurement.storage_usage_change
                    + live_usage
                    - old(self).storage_manager.storage_measurement.storage_usage_reference
                    <= u64::MAX,
        ensures
            final(self).red_packets == old(self).red_packets,
            final(self).owners == old(self).owners,
            final(self).helper_contract_id == old(self).helper_contract_id,
            final(self).storage_manager.wf(),
            r is Err ==> final(self).storage_manager.accounts@
                == old(self).storage_manager.accounts@,
            old(self).storage_manager.storage_measurement.state == MeasurementState::Idle
                ==> r == Result::<(), ContractError>::Err(ContractError::Storage(
                    StorageError::MissingStartStorageMeasurement)),
            (old(self).storage_manager.storage_measurement.state == MeasurementState::Pending
                && !old(self).storage_manager.spec_registered(account_id@))
                ==> r == Result::<(), ContractError>::Err(ContractError::Storage(
                    StorageError::AccountNotRegistered)),
            (old(self).storage_manager.storage_measurement.state == MeasurementState::Pending
                && old(self).storage_manager.spec_registered(account_id@)) ==> {
                &&& r is Ok
                &&& final(self).storage_manager.accounts@
                    =~= old(self).storage_manager.accounts@.insert(
                    account_id@,
                    AccountStorage {
                        storage_usage: clamped_usage(
                            old(self).storage_manager.spec_record(account_id@).storage_usage
                                as int,
                            old(self).storage_manager.storage_measurement.storage_usage_change
                                + live_usage
                                - old(
                                self,
                            ).storage_manager.storage_measurement.storage_usage_reference,
                        ) as u64,
                        storage_balance: old(self).storage_manager.spec_record(
                            account_id@,
                        ).storage_balance,
                    },
                )
                &&& final(self).storage_manager.storage_measurement.state
                    == MeasurementState::Idle
                &&& final(self).storage_manager.storage_measurement.storage_usage_change == 0
            },
    {
        match self.storage_manager.stop_measure_and_update_storage_usage(account_id, live_usage) {
            Ok(()) => Ok(()),
            Err(e) => Err(ContractError::Storage(e)),
        }
    }

    /// The checks made before a packet is created: a non-zero deposit, a
    /// registered creator whose prepaid balance covers its used storage,
    /// and an unused credential.
    pub fn assert_before_creation(
        &self,
        amount: u128,
        public_key: &String,
        account_id: &String,
        byte_cost: u128,
    ) -> (r: Result<(), ContractError>)
        requires
            self.storage_manager.wf(),
            self.storage_manager.spec_registered(account_id@)
                ==> self.storage_manager.spec_record(account_id@).spec_used(byte_cost)
                    <= u128::MAX,
        ensures
            amount == 0 ==> r == Result::<(), ContractError>::Err(ContractError::ZeroDeposit),
            amount > 0 && !self.storage_manager.spec_registered(account_id@)
                ==> r == Result::<(), ContractError>::Err(ContractError::Storage(
                    StorageError::AccountNotRegistered)),
            (amount > 0 && self.storage_manager.spec_registered(account_id@)
                && self.storage_manager.spec_record(account_id@).storage_balance
                    < self.storage_manager.spec_record(account_id@).spec_used(byte_cost))
                ==> r == Result::<(), ContractError>::Err(ContractError::Storage(
                    StorageError::NotEnoughStorageBalance)),
            (amount > 0 && self.storage_manager.spec_registered(account_id@)
                && self.storage_manager.spec_record(account_id@).storage_balance
                    >= self.storage_manager.spec_record(account_id@).spec_used(byte_cost)
                && self.red_packets@.contains_key(public_key@))
                ==> r == Result::<(), ContractError>::Err(ContractError::NotUniquePublicKey),
            r is Ok <==> (amount > 0 && self.storage_manager.spec_registered(account_id@)
                && self.storage_manager.spec_record(account_id@).storage_balance
                    >= self.storage_manager.spec_record(account_id@).spec_used(byte_cost)
                && !self.red_packets@.contains_key(public_key@)),
    {
        match crate::utils::assert_zero_deposit(amount) {
            Ok(()) => {},
            Err(e) => {
                return Err(e);
            },
        }
        match self.storage_manager.assert_registration(account_id) {
            Ok(()) => {},
            Err(e) => {
                return Err(ContractError::Storage(e));
            },
        }
        match self.storage_manager.assert_storage_balance(account_id, byte_cost) {
            Ok(()) => {},
            Err(e) => {
                return Err(ContractError::Storage(e));
            },
        }
        self.assert_unique_public_key(public_key)
    }

    /// The check made after a creation has been charged: the creator's
    /// prepaid balance still covers its used storage.
    pub fn assert_after_creation(&self, account_id: &String, byte_cost: u128) -> (r: Result<
        (),
        ContractError,
    >)
        requires
            self.storage_manager.wf(),
            self.storage_manager.spec_registered(account_id@)
                ==> self.storage_manager.spec_record(account_id@).spec_used(byte_cost)
                    <= u128::MAX,
        ensures
            r is Ok <==> (self.storage_manager.spec_registered(account_id@)
                && self.storage_manager.spec_record(account_id@).storage_balance
                    >= self.storage_manager.spec_record(account_id@).spec_used(byte_cost)),
            r is Err ==> r == Result::<(), ContractError>::Err(ContractError::Storage(
                StorageError::NotEnoughStorageBalance)),
    {
        match self.storage_manager.assert_storage_balance(account_id, byte_cost) {
            Ok(()) => Ok(()),
            Err(e) => Err(ContractError::Storage(e)),
        }
    }

    /// Create a packet locking native asset under `public_key`.
    ///
    /// Checked in order: a non-zero deposit, a registered owner with enough
    /// prepaid storage, an unused credential, valid parameters, and enough
    /// prepaid storage once the creation's measured bytes are charged.
    /// Failure of any check leaves the contract unchanged.
    pub fn internal_create_near_red_packet(
        &mut self,
        owner_id: String,
        amount: u128,
        public_key: String,
        split: usize,
        split_mod: DistributionMod,
        msg: Option<String>,
        white_list: Option<StringSet>,
        create_timestamp: u64,
        usage_before: u64,
        usage_after: u64,
        byte_cost: u128,
    ) -> (r: Result<(), ContractError>)
        requires
            old(self).wf(),
            match white_list {
                Some(wl) => wl.wf(),
                None => true,
            },
            old(self).storage_manager.spec_registered(owner_id@) ==> {
                &&& old(self).storage_manager.spec_record(owner_id@).spec_used(byte_cost)
                    <= u128::MAX
                &&& old(self).storage_manager.spec_record(owner_id@).storage_usage
                    + (usage_after - usage_before) <= u64::MAX
                &&& old(self).spec_measured_record(owner_id@, usage_before, usage_after).spec_used(
                    byte_cost,
                ) <= u128::MAX
            },
        ensures
            final(self).wf(),
            r is Err ==> *final(self) == *old(self),
            amount == 0 ==> r == Result::<(), ContractError>::Err(ContractError::ZeroDeposit),
            amount > 0 && !old(self).storage_manager.spec_registered(owner_id@)
                ==> r == Result::<(), ContractError>::Err(ContractError::Storage(
                    StorageError::AccountNotRegistered)),
            (amount > 0 && old(self).storage_manager.spec_registered(owner_id@)
                && old(self).storage_manager.spec_record(owner_id@).storage_balance
                    < old(self).storage_manager.spec_record(owner_id@).spec_used(byte_cost))
                ==> r == Result::<(), ContractError>::Err(ContractError::Storage(
                    StorageError::NotEnoughStorageBalance)),
            (amount > 0 && old(self).storage_manager.spec_registered(owner_id@)
                && old(self).storage_manager.spec_record(owner_id@).storage_balance
                    >= old(self).storage_manager.spec_record(owner_id@).spec_used(byte_cost)
                && old(self).red_packets@.contains_key(public_key@))
                ==> r == Result::<(), ContractError>::Err(ContractError::NotUniquePublicKey),
            (amount > 0 && old(self).storage_manager.spec_registered(owner_id@)
                && old(self).storage_manager.spec_record(owner_id@).storage_balance
                    >= old(self).storage_manager.spec_record(owner_id@).spec_used(byte_cost)
                && !old(self).red_packets@.contains_key(public_key@)
                && !spec_creation_valid(Token::NEAR, None, amount, split, msg, white_list))
                ==> r == Result::<(), ContractError>::Err(ContractError::InvalidParameter),
            (amount > 0 && old(self).storage_manager.spec_registered(owner_id@)
                && old(self).storage_manager.spec_record(owner_id@).storage_balance
                    >= old(self).storage_manager.spec_record(owner_id@).spec_used(byte_cost)
                && !old(self).red_packets@.contains_key(public_key@)
                && spec_creation_valid(Token::NEAR, None, amount, split, msg, white_list)
                && old(self).storage_manager.spec_record(owner_id@).storage_balance
                    < old(self).spec_measured_record(
                    owner_id@,
                    usage_before,
                    usage_after,
                ).spec_used(byte_cost))
                ==> r == Result::<(), ContractError>::Err(ContractError::Storage(
                    StorageError::NotEnoughStorageBalance)),
            (amount > 0 && old(self).storage_manager.spec_registered(owner_id@)
                && old(self).storage_manager.spec_record(owner_id@).storage_balance
                    >= old(self).storage_manager.spec_record(owner_id@).spec_used(byte_cost)
                && !old(self).red_packets@.contains_key(public_key@)
                && spec_creation_valid(Token::NEAR, None, amount, split, msg, white_list)
                && old(self).storage_manager.spec_record(owner_id@).storage_balance
                    >= old(self).spec_measured_record(
                    owner_id@,
                    usage_before,
                    usage_after,
                ).spec_used(byte_cost)) ==> {
                &&& r is Ok
                &&& final(self).red_packets@.contains_key(public_key@)
                &&& {
                    let p = final(self).red_packets@[public_key@];
                    {
                        &&& p.token == Token::NEAR
                        &&& p.token_id is None
                        &&& p.owner_id == owner_id
                        &&& p.init_balance == amount
                        &&& p.current_balance == amount
                        &&& p.refunded_balance == 0
                        &&& p.init_split == split
                        &&& p.current_split == split
                        &&& p.split_mod == split_mod
                        &&& p.msg == msg
                        &&& p.white_list == white_list
                        &&& p.claimers@ == Map::<Seq<char>, u128>::empty()
                        &&& p.failed_claimers@ == Map::<Seq<char>, u128>::empty()
                        &&& p.create_timestamp == create_timestamp
                        &&& p.run_out_timestamp is None
                    }
                }
                &&& final(self).red_packets@.dom()
                    =~= old(self).red_packets@.dom().insert(public_key@)
                &&& forall|k: Seq<char>| k != public_key@
                    && #[trigger] old(self).red_packets@.contains_key(k)
                    ==> final(self).red_packets@[k] == old(self).red_packets@[k]
                &&& final(self).owners@.dom() =~= old(self).owners@.dom().insert(owner_id@)
                &&& final(self).owners@[owner_id@]@ =~= (if old(self).owners@.contains_key(
                    owner_id@,
                ) {
                    old(self).owners@[owner_id@]@
                } else {
                    Set::<Seq<char>>::empty()
                }).insert(public_key@)
                &&& forall|o: Seq<char>| o != owner_id@ && old(self).owners@.contains_key(o)
                    ==> final(self).owners@[o] == old(self).owners@[o]
                &&& final(self).storage_manager.accounts@
                    =~= old(self).storage_manager.accounts@.insert(
                    owner_id@,
                    old(self).spec_measured_record(owner_id@, usage_before, usage_after),
                )
            },
            final(self).helper_contract_id == old(self).helper_contract_id,
    {
        match self.assert_before_creation(amount, &public_key, &owner_id, byte_cost) {
            Ok(()) => {},
            Err(e) => {
                return Err(e);
            },
        }
        let red_packet = match RedPacket::new_valid(
            Token::NEAR,
            None,
            owner_id.clone(),
            amount,
            split,
            split_mod,
            msg,
            white_list,
            create_timestamp,
        ) {
            Ok(p) => p,
            Err(e) => {
                return Err(e);
            },
        };

        let record = match self.storage_manager.accounts.get(&owner_id) {
            Some(a) => *a,
            None => {
                proof {
                    assert(false);
                }
                AccountStorage::default()
            },
        };
        let delta: i128 = usage_after as i128 - usage_before as i128;
        let new_usage_wide: i128 = record.storage_usage as i128 + delta;
        let measured_usage: u64 = if new_usage_wide > 0 {
            new_usage_wide as u64
        } else {
            0
        };
        let used_after_charge: u128 = measured_usage as u128 * byte_cost;
        if record.storage_balance < used_after_charge {
            return Err(ContractError::Storage(StorageError::NotEnoughStorageBalance));
        }

        let _ = self.storage_manager.start_measure_storage(usage_before);
        self.add_red_packet(owner_id.clone(), public_key, red_packet);
        let _ = self.storage_manager.stop_measure_and_update_storage_usage(
            &owner_id,
            usage_after,
        );
        proof {
            assert forall|o: Seq<char>| #[trigger] final(self).owners@.contains_key(o)
                implies final(self).storage_manager.spec_registered(o) by {
                assert(old(self).storage_manager.accounts@.insert(
                    owner_id@,
                    old(self).spec_measured_record(owner_id@, usage_before, usage_after),
                ).contains_key(o));
            }
        }
        Ok(())
    }

    /// Create a packet locking an external fungible asset, issued by
    /// `token_id`, under `public_key`.  The asset itself has already been
    /// received; the checks and the outcome mirror the native creation.
    pub fn internal_create_fungible_token_red_packet(
        &mut self,
        token_id: String,
        owner_id: String,
        amount: u128,
        public_key: String,
        split: usize,
        split_mod: DistributionMod,
        msg: Option<String>,
        white_list: Option<StringSet>,
        create_timestamp: u64,
        usage_before: u64,
        usage_after: u64,
        byte_cost: u128,
    ) -> (r: Result<(), ContractError>)
        requires
            old(self).wf(),
            match white_list {
                Some(wl) => wl.wf(),
                None => true,
            },
            old(self).storage_manager.spec_registered(owner_id@) ==> {
                &&& old(self).storage_manager.spec_record(owner_id@).spec_used(byte_cost)
                    <= u128::MAX
                &&& old(self).storage_manager.spec_record(owner_id@).storage_usage
                    + (usage_after - usage_before) <= u64::MAX
                &&& old(self).spec_measured_record(owner_id@, usage_before, usage_after).spec_used(
                    byte_cost,
                ) <= u128::MAX
            },
        ensures
            final(self).wf(),
            r is Err ==> *final(self) == *old(self),
            amount == 0 ==> r == Result::<(), ContractError>::Err(ContractError::ZeroDeposit),
            amount > 0 && !old(self).storage_manager.spec_registered(owner_id@)
                ==> r == Result::<(), ContractError>::Err(ContractError::Storage(
                    StorageError::AccountNotRegistered)),
            (amount > 0 && old(self).storage_manager.spec_registered(owner_id@)
                && old(self).storage_manager.spec_record(owner_id@).storage_balance
                    < old(self).storage_manager.spec_record(owner_id@).spec_used(byte_cost))
                ==> r == Result::<(), ContractError>::Err(ContractError::Storage(
                    StorageError::NotEnoughStorageBalance)),
            (amount > 0 && old(self).storage_manager.spec_registered(owner_id@)
                && old(self).storage_manager.spec_record(owner_id@).storage_balance
                    >= old(self).storage_manager.spec_record(owner_id@).spec_used(byte_cost)
                && old(self).red_packets@.contains_key(public_key@))
                ==> r == Result::<(), ContractError>::Err(ContractError::NotUniquePublicKey),
            (amount > 0 && old(self).storage_manager.spec_registered(owner_id@)
                && old(self).storage_manager.spec_record(owner_id@).storage_balance
                    >= old(self).storage_manager.spec_record(owner_id@).spec_used(byte_cost)
                && !old(self).red_packets@.contains_key(public_key@)
                && !spec_creation_valid(Token::FungibleToken, Some(token_id), amount, split, msg, white_list))
                ==> r == Result::<(), ContractError>::Err(ContractError::InvalidParameter),
            (amount > 0 && old(self).storage_manager.spec_registered(owner_id@)
                && old(self).storage_manager.spec_record(owner_id@).storage_balance
                    >= old(self).storage_manager.spec_record(owner_id@).spec_used(byte_cost)
                && !old(self).red_packets@.contains_key(public_key@)
                && spec_creation_valid(Token::FungibleToken, Some(token_id), amount, split, msg, white_list)
                && old(self).storage_manager.spec_record(owner_id@).storage_balance
                    < old(self).spec_measured_record(
                    owner_id@,
                    usage_before,
                    usage_after,
                ).spec_used(byte_cost))
                ==> r == Result::<(), ContractError>::Err(ContractError::Storage(
                    StorageError::NotEnoughStorageBalance)),
            (amount > 0 && old(self).storage_manager.spec_registered(owner_id@)
                && old(self).storage_manager.spec_record(owner_id@).storage_balance
                    >= old(self).storage_manager.spec_record(owner_id@).spec_used(byte_cost)
                && !old(self).red_packets@.contains_key(public_key@)
                && spec_creation_valid(Token::FungibleToken, Some(token_id), amount, split, msg, white_list)
                && old(self).storage_manager.spec_record(owner_id@).storage_balance
                    >= old(self).spec_measured_record(
                    owner_id@,
                    usage_before,
                    usage_after,
                ).spec_used(byte_cost)) ==> {
                &&& r is Ok
                &&& final(self).red_packets@.contains_key(public_key@)
                &&& {
                    let p = final(self).red_packets@[public_key@];
                    {
                        &&& p.token == Token::FungibleToken
                        &&& p.token_id == Some(token_id)
                        &&& p.owner_id == owner_id
                        &&& p.init_balance == amount
                        &&& p.current_balance == amount
                        &&& p.refunded_balance == 0
                        &&& p.init_split == split
                        &&& p.current_split == split
                        &&& p.split_mod == split_mod
                        &&& p.msg == msg
                        &&& p.white_list == white_list
                        &&& p.claimers@ == Map::<Seq<char>, u128>::empty()
                        &&& p.failed_claimers@ == Map::<Seq<char>, u128>::empty()
                        &&& p.create_timestamp == create_timestamp
                        &&& p.run_out_timestamp is None
                    }
                }
                &&& final(self).red_packets@.dom()
                    =~= old(self).red_packets@.dom().insert(public_key@)
                &&& forall|k: Seq<char>| k != public_key@
                    && #[trigger] old(self).red_packets@.contains_key(k)
                    ==> final(self).red_packets@[k] == old(self).red_packets@[k]
                &&& final(self).owners@.dom() =~= old(self).owners@.dom().insert(owner_id@)
                &&& final(self).owners@[owner_id@]@ =~= (if old(self).owners@.contains_key(
                    owner_id@,
                ) {
                    old(self).owners@[owner_id@]@
                } else {
                    Set::<Seq<char>>::empty()
                }).insert(public_key@)
                &&& forall|o: Seq<char>| o != owner_id@ && old(self).owners@.contains_key(o)
                    ==> final(self).owners@[o] == old(self).owners@[o]
                &&& final(self).storage_manager.accounts@
                    =~= old(self).storage_manager.accounts@.insert(
                    owner_id@,
                    old(self).spec_measured_record(owner_id@, usage_before, usage_after),
                )
            },
            final(self).helper_contract_id == old(self).helper_contract_id,
    {
        match self.assert_before_creation(amount, &public_key, &owner_id, byte_cost) {
            Ok(()) => {},
            Err(e) => {
                return Err(e);
            },
        }
        let red_packet = match RedPacket::new_valid(
            Token::FungibleToken,
            Some(token_id),
            owner_id.clone(),
            amount,
            split,
            split_mod,
            msg,
            white_list,
            create_timestamp,
        ) {
            Ok(p) => p,
            Err(e) => {
                return Err(e);
            },
        };

        let record = match self.storage_manager.accounts.get(&owner_id) {
            Some(a) => *a,
            None => {
                proof {
                    assert(false);
                }
                AccountStorage::default()
            },
        };
        let delta: i128 = usage_after as i128 - usage_before as i128;
        let new_usage_wide: i128 = record.storage_usage as i128 + delta;
        let measured_usage: u64 = if new_usage_wide > 0 {
            new_usage_wide as u64
        } else {
            0
        };
        let used_after_charge: u128 = measured_usage as u128 * byte_cost;
        if record.storage_balance < used_after_charge {
            return Err(ContractError::Storage(StorageError::NotEnoughStorageBalance));
        }

        let _ = self.storage_manager.start_measure_storage(usage_before);
        self.add_red_packet(owner_id.clone(), public_key, red_packet);
        let _ = self.storage_manager.stop_measure_and_update_storage_usage(
            &owner_id,
            usage_after,
        );
        proof {
            assert forall|o: Seq<char>| #[trigger] final(self).owners@.contains_key(o)
                implies final(self).storage_manager.spec_registered(o) by {
                assert(old(self).storage_manager.accounts@.insert(
                    owner_id@,
                    old(self).spec_measured_record(owner_id@, usage_before, usage_after),
                ).contains_key(o));
            }
        }
        Ok(())
    }

    /// Claim from the packet under `public_key`, transferring the share to
    /// `claimer_id`.
    ///
    /// The claim commits in this operation; for an external fungible asset
    /// the returned action routes the transfer's settlement back through
    /// the resolver, which compensates if the transfer fails.  A claim
    /// error (double claim, unlisted claimer) aborts with nothing changed;
    /// a claim on a run-out packet yields zero and no transfer.
    pub fn internal_claim_red_packet(
        &mut self,
        claimer_id: String,
        public_key: String,
        rand: u128,
        timestamp: u64,
        usage_before: u64,
        usage_after: u64,
    ) -> (r: Result<(u128, TransferAction), ContractError>)
        requires
            old(self).wf(),
            old(self).red_packets@.contains_key(public_key@)
                ==> old(self).storage_manager.spec_record(
                    old(self).red_packets@[public_key@].owner_id@,
                ).storage_usage + (usage_after - usage_before) <= u64::MAX,
        ensures
            final(self).wf(),
            final(self).helper_contract_id == old(self).helper_contract_id,
            !old(self).red_packets@.contains_key(public_key@) ==> {
                &&& r == Result::<(u128, TransferAction), ContractError>::Err(
                    ContractError::NoMatchingRedPacket)
                &&& *final(self) == *old(self)
            },
            r is Err ==> {
                &&& final(self).red_packets@ =~= old(self).red_packets@
                &&& final(self).owners == old(self).owners
                &&& final(self).storage_manager.accounts@
                    == old(self).storage_manager.accounts@
            },
            (old(self).red_packets@.contains_key(public_key@)
                && old(self).red_packets@[public_key@].current_split > 0
                && old(self).red_packets@[public_key@].claimers@.contains_key(claimer_id@))
                ==> r == Result::<(u128, TransferAction), ContractError>::Err(
                    ContractError::NoDoubleClaim),
            (old(self).red_packets@.contains_key(public_key@)
                && old(self).red_packets@[public_key@].current_split > 0
                && !old(self).red_packets@[public_key@].claimers@.contains_key(claimer_id@)
                && old(self).red_packets@[public_key@].white_list is Some
                && !old(self).red_packets@[public_key@].white_list->0@.contains(claimer_id@))
                ==> r == Result::<(u128, TransferAction), ContractError>::Err(
                    ContractError::ClaimerNotInWhiteList),
            (old(self).red_packets@.contains_key(public_key@)
                && old(self).red_packets@[public_key@].current_split == 0) ==> {
                &&& r == Result::<(u128, TransferAction), ContractError>::Ok(
                    (0, TransferAction::NoTransfer))
                &&& final(self).red_packets@ =~= old(self).red_packets@
                &&& final(self).owners == old(self).owners
                &&& final(self).storage_manager.accounts@
                    =~= old(self).storage_manager.accounts@.insert(
                    old(self).red_packets@[public_key@].owner_id@,
                    old(self).spec_measured_record(
                        old(self).red_packets@[public_key@].owner_id@,
                        usage_before,
                        usage_after,
                    ),
                )
            },
            (old(self).red_packets@.contains_key(public_key@)
                && old(self).red_packets@[public_key@].current_split > 0
                && !old(self).red_packets@[public_key@].claimers@.contains_key(claimer_id@)
                && (old(self).red_packets@[public_key@].white_list is Some
                    ==> old(self).red_packets@[public_key@].white_list->0@.contains(
                        claimer_id@,
                    ))) ==> {
                let p0 = old(self).red_packets@[public_key@];
                let amount = p0.spec_claim_amount(None, rand);
                {
                    &&& 1 <= amount <= p0.current_balance
                    &&& r == Result::<(u128, TransferAction), ContractError>::Ok(
                        (
                            amount as u128,
                            if p0.token is NEAR {
                                TransferAction::TransferNear {
                                    receiver_id: claimer_id,
                                    amount: amount as u128,
                                }
                            } else {
                                TransferAction::TransferFtWithResolve {
                                    claimer_id: claimer_id,
                                    owner_id: p0.owner_id,
                                    amount: amount as u128,
                                    token_id: p0.token_id->0,
                                    public_key: public_key,
                                }
                            },
                        ),
                    )
                    &&& final(self).red_packets@.dom() =~= old(self).red_packets@.dom()
                    &&& forall|k: Seq<char>| k != public_key@
                        && #[trigger] old(self).red_packets@.contains_key(k)
                        ==> final(self).red_packets@[k] == old(self).red_packets@[k]
                    &&& {
                        let p = final(self).red_packets@[public_key@];
                        {
                            &&& p.current_balance == p0.current_balance - amount
                            &&& p.current_split == p0.current_split - 1
                            &&& p.claimers@ == p0.claimers@.insert(claimer_id@, amount as u128)
                            &&& p.refunded_balance == p0.refunded_balance
                            &&& p.init_balance == p0.init_balance
                            &&& p.init_split == p0.init_split
                            &&& p.token == p0.token
                            &&& p.token_id == p0.token_id
                            &&& p.owner_id == p0.owner_id
                            &&& p.failed_claimers == p0.failed_claimers
                            &&& p.run_out_timestamp == (if p0.current_split == 1 {
                                Some(timestamp)
                            } else {
                                p0.run_out_timestamp
                            })
                        }
                    }
                    &&& final(self).owners == old(self).owners
                    &&& final(self).storage_manager.accounts@
                        =~= old(self).storage_manager.accounts@.insert(
                        p0.owner_id@,
                        old(self).spec_measured_record(p0.owner_id@, usage_before, usage_after),
                    )
                }
            },
    {
        if !self.red_packets.contains_key(&public_key) {
            return Err(ContractError::NoMatchingRedPacket);
        }
        let ghost m0 = self.red_packets@;
        let mut red_packet = match self.red_packets.remove(&public_key) {
            Some(p) => p,
            None => {
                proof {
                    assert(false);
                }
                return Err(ContractError::NoMatchingRedPacket);
            },
        };
        let ghost p0 = red_packet;
        let owner_id = red_packet.owner_id.clone();
        let claim_result = red_packet.virtual_claim(claimer_id.clone(), None, rand, timestamp);
        let claim_amount = match claim_result {
            Err(e) => {
                self.red_packets.insert(public_key, red_packet);
                proof {
                    assert(self.red_packets@ =~= m0);
                }
                return Err(e);
            },
            Ok(a) => a,
        };
        let token = red_packet.token;
        let token_id = match &red_packet.token_id {
            Some(t) => Some(t.clone()),
            None => None,
        };
        self.red_packets.insert(public_key.clone(), red_packet);
        proof {
            let pk_view = public_key@;
            assert(self.red_packets@ =~= m0.insert(pk_view, self.red_packets@[pk_view]));
        }

        let _ = self.storage_manager.start_measure_storage(usage_before);
        let _ = self.storage_manager.stop_measure_and_update_storage_usage(
            &owner_id,
            usage_after,
        );

        let action = if claim_amount != 0 {
            match token {
                Token::NEAR => TransferAction::TransferNear {
                    receiver_id: claimer_id,
                    amount: claim_amount,
                },
                Token::FungibleToken => TransferAction::TransferFtWithResolve {
                    claimer_id: claimer_id,
                    owner_id: owner_id,
                    amount: claim_amount,
                    token_id: match token_id {
                        Some(t) => t,
                        None => {
                            proof {
                                assert(false);
                            }
                            String::new()
                        },
                    },
                    public_key: public_key,
                },
            }
        } else {
            TransferAction::NoTransfer
        };

        proof {
            let post = *final(self);
            let pre = *old(self);
            assert forall|pk: Seq<char>| #[trigger] post.red_packets@.contains_key(pk) implies {
                &&& post.red_packets@[pk].wf()
                &&& match post.red_packets@[pk].token {
                    Token::NEAR => post.red_packets@[pk].token_id is None,
                    Token::FungibleToken => post.red_packets@[pk].token_id is Some,
                }
                &&& post.owners@.contains_key(post.red_packets@[pk].owner_id@)
                &&& post.owners@[post.red_packets@[pk].owner_id@]@.contains(pk)
            } by {
                assert(pre.red_packets@.contains_key(pk));
            }
            assert forall|o: Seq<char>| #[trigger] post.owners@.contains_key(o) implies {
                &&& post.owners@[o].wf()
                &&& post.owners@[o].items@.len() > 0
                &&& post.storage_manager.spec_registered(o)
                &&& forall|pk: Seq<char>| #[trigger] post.owners@[o]@.contains(pk) ==> {
                    &&& post.red_packets@.contains_key(pk)
                    &&& post.red_packets@[pk].owner_id@ == o
                }
            } by {
                assert(pre.owners@.contains_key(o));
                assert(pre.storage_manager.spec_registered(o));
                assert(pre.storage_manager.accounts@.insert(
                    p0.owner_id@,
                    pre.spec_measured_record(p0.owner_id@, usage_before, usage_after),
                ).contains_key(o));
                assert forall|pk: Seq<char>| #[trigger] post.owners@[o]@.contains(pk) implies {
                    &&& post.red_packets@.contains_key(pk)
                    &&& post.red_packets@[pk].owner_id@ == o
                } by {
                    assert(pre.owners@[o]@.contains(pk));
                    assert(pre.red_packets@.contains_key(pk));
                }
            }
        }
        Ok((claim_amount, action))
    }

    /// Refund the packet under `public_key` to `owner_id`, who must own it.
    ///
    /// The whole remaining balance — including balance moved by prior
    /// compensation — becomes the returned cumulative refund, and the
    /// matching transfer is handed back as the action.  A run-out packet
    /// yields zero and no transfer; the measured bytes of the operation are
    /// charged to `owner_id`, who must hold a storage record.
    pub fn internal_refund(
        &mut self,
        public_key: String,
        owner_id: String,
        timestamp: u64,
        usage_before: u64,
        usage_after: u64,
    ) -> (r: Result<(u128, TransferAction), ContractError>)
        requires
            old(self).wf(),
            old(self).storage_manager.spec_registered(owner_id@)
                ==> old(self).storage_manager.spec_record(owner_id@).storage_usage
                    + (usage_after - usage_before) <= u64::MAX,
        ensures
            final(self).wf(),
            final(self).helper_contract_id == old(self).helper_contract_id,
            r is Err ==> {
                &&& final(self).red_packets@ =~= old(self).red_packets@
                &&& final(self).owners == old(self).owners
                &&& final(self).storage_manager.accounts@
                    == old(self).storage_manager.accounts@
            },
            !old(self).red_packets@.contains_key(public_key@)
                ==> r == Result::<(u128, TransferAction), ContractError>::Err(
                    ContractError::NoMatchingRedPacket),
            (old(self).red_packets@.contains_key(public_key@)
                && old(self).red_packets@[public_key@].current_split > 0
                && old(self).red_packets@[public_key@].owner_id@ != owner_id@)
                ==> r == Result::<(u128, TransferAction), ContractError>::Err(
                    ContractError::NoPermission),
            (old(self).red_packets@.contains_key(public_key@)
                && old(self).red_packets@[public_key@].current_split == 0
                && !old(self).storage_manager.spec_registered(owner_id@))
                ==> r == Result::<(u128, TransferAction), ContractError>::Err(
                    ContractError::Storage(StorageError::AccountNotRegistered)),
            (old(self).red_packets@.contains_key(public_key@)
                && old(self).red_packets@[public_key@].current_split == 0
                && old(self).storage_manager.spec_registered(owner_id@)) ==> {
                &&& r == Result::<(u128, TransferAction), ContractError>::Ok(
                    (0, TransferAction::NoTransfer))
                &&& final(self).red_packets@ =~= old(self).red_packets@
                &&& final(self).owners == old(self).owners
                &&& final(self).storage_manager.accounts@
                    =~= old(self).storage_manager.accounts@.insert(
                    owner_id@,
                    old(self).spec_measured_record(owner_id@, usage_before, usage_after),
                )
            },
            (old(self).red_packets@.contains_key(public_key@)
                && old(self).red_packets@[public_key@].current_split > 0
                && old(self).red_packets@[public_key@].owner_id@ == owner_id@) ==> {
                let p0 = old(self).red_packets@[public_key@];
                let refunded = p0.refunded_balance + p0.current_balance;
                {
                    &&& r == Result::<(u128, TransferAction), ContractError>::Ok(
                        (
                            refunded as u128,
                            if refunded == 0 {
                                TransferAction::NoTransfer
                            } else if p0.token is NEAR {
                                TransferAction::TransferNear {
                                    receiver_id: owner_id,
                                    amount: refunded as u128,
                                }
                            } else {
                                TransferAction::TransferFt {
                                    receiver_id: owner_id,
                                    amount: refunded as u128,
                                    token_id: p0.token_id->0,
                                }
                            },
                        ),
                    )
                    &&& final(self).red_packets@.dom() =~= old(self).red_packets@.dom()
                    &&& forall|k: Seq<char>| k != public_key@
                        && #[trigger] old(self).red_packets@.contains_key(k)
                        ==> final(self).red_packets@[k] == old(self).red_packets@[k]
                    &&& {
                        let p = final(self).red_packets@[public_key@];
                        {
                            &&& p.current_balance == 0
                            &&& p.current_split == 0
                            &&& p.refunded_balance == refunded
                            &&& p.claimers == p0.claimers
                            &&& p.failed_claimers == p0.failed_claimers
                            &&& p.init_balance == p0.init_balance
                            &&& p.token == p0.token
                            &&& p.token_id == p0.token_id
                            &&& p.owner_id == p0.owner_id
                            &&& p.run_out_timestamp == Some(timestamp)
                        }
                    }
                    &&& final(self).owners == old(self).owners
                    &&& final(self).storage_manager.accounts@
                        =~= old(self).storage_manager.accounts@.insert(
                        owner_id@,
                        old(self).spec_measured_record(owner_id@, usage_before, usage_after),
                    )
                }
            },
    {
        if !self.red_packets.contains_key(&public_key) {
            return Err(ContractError::NoMatchingRedPacket);
        }
        let ghost m0 = self.red_packets@;
        let mut red_packet = match self.red_packets.remove(&public_key) {
            Some(p) => p,
            None => {
                proof {
                    assert(false);
                }
                return Err(ContractError::NoMatchingRedPacket);
            },
        };
        let ghost p0 = red_packet;
        if !self.storage_manager.account_registered(&owner_id) {
            let was_run_out = red_packet.is_run_out();
            self.red_packets.insert(public_key, red_packet);
            proof {
                assert(self.red_packets@ =~= m0);
            }
            if was_run_out {
                return Err(ContractError::Storage(StorageError::AccountNotRegistered));
            } else {
                proof {
                    assert(p0.owner_id@ != owner_id@);
                }
                return Err(ContractError::NoPermission);
            }
        }
        let refund_result = red_packet.virtual_refund(owner_id.clone(), timestamp);
        let refund_amount = match refund_result {
            Err(e) => {
                self.red_packets.insert(public_key, red_packet);
                proof {
                    assert(self.red_packets@ =~= m0);
                }
                return Err(e);
            },
            Ok(a) => a,
        };
        let token = red_packet.token;
        let token_id = match &red_packet.token_id {
            Some(t) => Some(t.clone()),
            None => None,
        };
        self.red_packets.insert(public_key.clone(), red_packet);
        proof {
            let pk_view = public_key@;
            assert(self.red_packets@ =~= m0.insert(pk_view, self.red_packets@[pk_view]));
        }

        let _ = self.storage_manager.start_measure_storage(usage_before);
        let _ = self.storage_manager.stop_measure_and_update_storage_usage(
            &owner_id,
            usage_after,
        );

        let action = if refund_amount != 0 {
            match token {
                Token::NEAR => TransferAction::TransferNear {
                    receiver_id: owner_id,
                    amount: refund_amount,
                },
                Token::FungibleToken => TransferAction::TransferFt {
                    receiver_id: owner_id,
                    amount: refund_amount,
                    token_id: match token_id {
                        Some(t) => t,
                        None => {
                            proof {
                                assert(false);
                            }
                            String::new()
                        },
                    },
                },
            }
        } else {
            TransferAction::NoTransfer
        };

        proof {
            let post = *final(self);
            let pre = *old(self);
            assert forall|pk: Seq<char>| #[trigger] post.red_packets@.contains_key(pk) implies {
                &&& post.red_packets@[pk].wf()
                &&& match post.red_packets@[pk].token {
                    Token::NEAR => post.red_packets@[pk].token_id is None,
                    Token::FungibleToken => post.red_packets@[pk].token_id is Some,
                }
                &&& post.owners@.contains_key(post.red_packets@[pk].owner_id@)
                &&& post.owners@[post.red_packets@[pk].owner_id@]@.contains(pk)
            } by {
                assert(pre.red_packets@.contains_key(pk));
            }
            assert forall|o: Seq<char>| #[trigger] post.owners@.contains_key(o) implies {
                &&& post.owners@[o].wf()
                &&& post.owners@[o].items@.len() > 0
                &&& post.storage_manager.spec_registered(o)
                &&& forall|pk: Seq<char>| #[trigger] post.owners@[o]@.contains(pk) ==> {
                    &&& post.red_packets@.contains_key(pk)
                    &&& post.red_packets@[pk].owner_id@ == o
                }
            } by {
                assert(pre.owners@.contains_key(o));
                assert(pre.storage_manager.spec_registered(o));
                assert(pre.storage_manager.accounts@.insert(
                    owner_id@,
                    pre.spec_measured_record(owner_id@, usage_before, usage_after),
                ).contains_key(o));
                assert forall|pk: Seq<char>| #[trigger] post.owners@[o]@.contains(pk) implies {
                    &&& post.red_packets@.contains_key(pk)
                    &&& post.red_packets@[pk].owner_id@ == o
                } by {
                    assert(pre.owners@[o]@.contains(pk));
                    assert(pre.red_packets@.contains_key(pk));
                }
            }
        }
        Ok((refund_amount, action))
    }

    /// Remove the run-out packet under `public_key`; `owner_id` is the
    /// caller, must own the packet, and is charged the measured bytes.
    /// Removing an unknown credential succeeds and removes nothing.
    pub fn internal_remove_history(
        &mut self,
        public_key: String,
        owner_id: String,
        usage_before: u64,
        usage_after: u64,
    ) -> (r: Result<(), ContractError>)
        requires
            old(self).wf(),
            old(self).storage_manager.spec_registered(owner_id@)
                ==> old(self).storage_manager.spec_record(owner_id@).storage_usage
                    + (usage_after - usage_before) <= u64::MAX,
        ensures
            final(self).wf(),
            final(self).helper_contract_id == old(self).helper_contract_id,
            r is Err ==> *final(self) == *old(self),
            !old(self).storage_manager.spec_registered(owner_id@)
                ==> r == Result::<(), ContractError>::Err(ContractError::Storage(
                    StorageError::AccountNotRegistered)),
            (old(self).storage_manager.spec_registered(owner_id@)
                && old(self).red_packets@.contains_key(public_key@)
                && old(self).red_packets@[public_key@].owner_id@ != owner_id@)
                ==> r == Result::<(), ContractError>::Err(ContractError::NoPermission),
            (old(self).storage_manager.spec_registered(owner_id@)
                && old(self).red_packets@.contains_key(public_key@)
                && old(self).red_packets@[public_key@].owner_id@ == owner_id@
                && old(self).red_packets@[public_key@].current_split > 0)
                ==> r == Result::<(), ContractError>::Err(ContractError::RedPacketNotRunOut),
            (old(self).storage_manager.spec_registered(owner_id@)
                && !old(self).red_packets@.contains_key(public_key@)) ==> {
                &&& r is Ok
                &&& final(self).red_packets@ == old(self).red_packets@
                &&& final(self).owners == old(self).owners
                &&& final(self).storage_manager.accounts@
                    =~= old(self).storage_manager.accounts@.insert(
                    owner_id@,
                    old(self).spec_measured_record(owner_id@, usage_before, usage_after),
                )
            },
            (old(self).storage_manager.spec_registered(owner_id@)
                && old(self).red_packets@.contains_key(public_key@)
                && old(self).red_packets@[public_key@].owner_id@ == owner_id@
                && old(self).red_packets@[public_key@].current_split == 0) ==> {
                &&& r is Ok
                &&& final(self).red_packets@ == old(self).red_packets@.remove(public_key@)
                &&& (old(self).owners@[owner_id@].items@.len() == 1
                    ==> final(self).owners@ =~= old(self).owners@.remove(owner_id@))
                &&& (old(self).owners@[owner_id@].items@.len() > 1 ==> {
                    &&& final(self).owners@.dom() =~= old(self).owners@.dom()
                    &&& final(self).owners@[owner_id@]@
                        =~= old(self).owners@[owner_id@]@.remove(public_key@)
                    &&& forall|o: Seq<char>| o != owner_id@ && old(self).owners@.contains_key(o)
                        ==> final(self).owners@[o] == old(self).owners@[o]
                })
                &&& final(self).storage_manager.accounts@
                    =~= old(self).storage_manager.accounts@.insert(
                    owner_id@,
                    old(self).spec_measured_record(owner_id@, usage_before, usage_after),
                )
            },
    {
        if !self.storage_manager.account_registered(&owner_id) {
            return Err(ContractError::Storage(StorageError::AccountNotRegistered));
        }
        match self.red_packets.get(&public_key) {
            None => {},
            Some(p) => {
                if !(p.owner_id == owner_id) {
                    return Err(ContractError::NoPermission);
                }
                if !p.is_run_out() {
                    return Err(ContractError::RedPacketNotRunOut);
                }
            },
        }
        let _ = self.storage_manager.start_measure_storage(usage_before);
        let _ = self.remove_red_packet(&public_key, &owner_id, false);
        let _ = self.storage_manager.stop_measure_and_update_storage_usage(
            &owner_id,
            usage_after,
        );
        proof {
            assert forall|o: Seq<char>| #[trigger] final(self).owners@.contains_key(o)
                implies final(self).storage_manager.spec_registered(o) by {
                assert(old(self).storage_manager.accounts@.insert(
                    owner_id@,
                    old(self).spec_measured_record(owner_id@, usage_before, usage_after),
                ).contains_key(o));
            }
        }
        Ok(())
    }

    /// Remove every run-out packet `owner_id` owns, charging the caller the
    /// measured bytes.
    pub fn internal_clear_history(
        &mut self,
        owner_id: String,
        usage_before: u64,
        usage_after: u64,
    ) -> (r: Result<(), ContractError>)
        requires
            old(self).wf(),
            old(self).storage_manager.spec_registered(owner_id@)
                ==> old(self).storage_manager.spec_record(owner_id@).storage_usage
                    + (usage_after - usage_before) <= u64::MAX,
        ensures
            final(self).wf(),
            final(self).helper_contract_id == old(self).helper_contract_id,
            r is Err ==> *final(self) == *old(self),
            !old(self).storage_manager.spec_registered(owner_id@)
                ==> r == Result::<(), ContractError>::Err(ContractError::Storage(
                    StorageError::AccountNotRegistered)),
            old(self).storage_manager.spec_registered(owner_id@) ==> {
                &&& r is Ok
                &&& final(self).storage_manager.accounts@
                    =~= old(self).storage_manager.accounts@.insert(
                    owner_id@,
                    old(self).spec_measured_record(owner_id@, usage_before, usage_after),
                )
                &&& (!old(self).owners@.contains_key(owner_id@) ==> {
                    &&& final(self).red_packets@ == old(self).red_packets@
                    &&& final(self).owners == old(self).owners
                })
                &&& (old(self).owners@.contains_key(owner_id@) ==> {
                    &&& forall|pk: Seq<char>|
                        #[trigger] final(self).red_packets@.contains_key(pk)
                            <==> (old(self).red_packets@.contains_key(pk)
                                && !(old(self).owners@[owner_id@]@.contains(pk)
                                    && old(self).red_packets@[pk].current_split == 0))
                    &&& forall|pk: Seq<char>|
                        #[trigger] final(self).red_packets@.contains_key(pk)
                            ==> final(self).red_packets@[pk] == old(self).red_packets@[pk]
                })
            },
    {
        if !self.storage_manager.account_registered(&owner_id) {
            return Err(ContractError::Storage(StorageError::AccountNotRegistered));
        }
        let _ = self.storage_manager.start_measure_storage(usage_before);
        self.clear_red_packets(&owner_id, false);
        let _ = self.storage_manager.stop_measure_and_update_storage_usage(
            &owner_id,
            usage_after,
        );
        proof {
            assert forall|o: Seq<char>| #[trigger] final(self).owners@.contains_key(o)
                implies final(self).storage_manager.spec_registered(o) by {
                assert(old(self).storage_manager.accounts@.insert(
                    owner_id@,
                    old(self).spec_measured_record(owner_id@, usage_before, usage_after),
                ).contains_key(o));
            }
        }
        Ok(())
    }
}

} // verus!