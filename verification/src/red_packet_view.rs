//! Read-only views of red packets, as handed out by the query interface.

use vstd::prelude::*;
use crate::contract::Contract;
use crate::enums::DistributionMod;
use crate::enums::Token;
use crate::red_packet::RedPacket;
use crate::string_kv::StringMap;
use crate::string_kv::StringSet;

verus! {

/// A packet's full state together with its credential and a precomputed
/// run-out flag.
pub struct RedPacketView {
    pub public_key: String,
    pub token: Token,
    pub token_id: Option<String>,
    pub owner_id: String,
    pub init_balance: u128,
    pub current_balance: u128,
    pub refunded_balance: u128,
    pub init_split: usize,
    pub current_split: usize,
    pub split_mod: DistributionMod,
    pub msg: Option<String>,
    pub white_list: Option<StringSet>,
    pub claimers: StringMap<u128>,
    pub failed_claimers: StringMap<u128>,
    pub create_timestamp: u64,
    pub run_out_timestamp: Option<u64>,
    pub is_run_out: bool,
}

/// Whether `v` reports exactly the packet `p` under credential `pk`.
pub open spec fn spec_view_of(v: RedPacketView, p: RedPacket, pk: Seq<char>) -> bool {
    &&& v.public_key@ == pk
    &&& v.token == p.token
    &&& match p.token_id {
        Some(t) => v.token_id is Some && v.token_id->0@ == t@,
        None => v.token_id is None,
    }
    &&& v.owner_id@ == p.owner_id@
    &&& v.init_balance == p.init_balance
    &&& v.current_balance == p.current_balance
    &&& v.refunded_balance == p.refunded_balance
    &&& v.init_split == p.init_split
    &&& v.current_split == p.current_split
    &&& v.split_mod == p.split_mod
    &&& match p.msg {
        Some(m) => v.msg is Some && v.msg->0@ == m@,
        None => v.msg is None,
    }
    &&& match p.white_list {
        Some(wl) => v.white_list is Some && v.white_list->0.items@ == wl.items@,
        None => v.white_list is None,
    }
    &&& v.claimers.entries@ == p.claimers.entries@
    &&& v.failed_claimers.entries@ == p.failed_claimers.entries@
    &&& v.create_timestamp == p.create_timestamp
    &&& v.run_out_timestamp == p.run_out_timestamp
    &&& v.is_run_out == (p.current_split == 0)
}

/// Reshape a packet into its view under `public_key`.
pub fn parse_red_packet_view(red_packet: RedPacket, public_key: String) -> (r: RedPacketView)
    ensures
        spec_view_of(r, red_packet, public_key@),
{
    let is_run_out = red_packet.is_run_out();
    RedPacketView {
        public_key,
        is_run_out,
        token: red_packet.token,
        token_id: red_packet.token_id,
        owner_id: red_packet.owner_id,
        init_balance: red_packet.init_balance,
        current_balance: red_packet.current_balance,
        refunded_balance: red_packet.refunded_balance,
        init_split: red_packet.init_split,
        current_split: red_packet.current_split,
        split_mod: red_packet.split_mod,
        msg: red_packet.msg,
        white_list: red_packet.white_list,
        claimers: red_packet.claimers,
        failed_claimers: red_packet.failed_claimers,
        create_timestamp: red_packet.create_timestamp,
        run_out_timestamp: red_packet.run_out_timestamp,
    }
}

impl Contract {
    /// The credentials of every live packet `owner_id` owns.
    pub fn get_pks_by_owner_id(&self, owner_id: &String) -> (r: StringSet)
        requires
            self.ledger_wf(),
        ensures
            self.owners@.contains_key(owner_id@)
                ==> r.items@ == self.owners@[owner_id@].items@,
            !self.owners@.contains_key(owner_id@) ==> r.items@.len() == 0,
    {
        match self.owners.get(owner_id) {
            Some(s) => s.duplicate(),
            None => StringSet::new(),
        }
    }

    /// The view of the packet under `public_key`, if one is live.
    pub fn get_red_packet_by_pk(&self, public_key: &String) -> (r: Option<RedPacketView>)
        requires
            self.ledger_wf(),
        ensures
            match r {
                Some(v) => self.red_packets@.contains_key(public_key@)
                    && spec_view_of(v, self.red_packets@[public_key@], public_key@),
                None => !self.red_packets@.contains_key(public_key@),
            },
    {
        match self.red_packets.get(public_key) {
            Some(p) => Some(parse_red_packet_view(p.duplicate(), public_key.clone())),
            None => None,
        }
    }

    /// The views of every packet `owner_id` owns, in its credential set's
    /// order.
    pub fn get_red_packets_by_owner_id(&self, owner_id: &String) -> (r: Vec<RedPacketView>)
        requires
            self.ledger_wf(),
        ensures
            self.owners@.contains_key(owner_id@) ==> {
                let keys = self.owners@[owner_id@].key_seq();
                {
                    &&& r@.len() == keys.len()
                    &&& forall|i: int| 0 <= i < keys.len()
                        ==> spec_view_of(#[trigger] r@[i], self.red_packets@[keys[i]], keys[i])
                }
            },
            !self.owners@.contains_key(owner_id@) ==> r@.len() == 0,
    {
        let mut views: Vec<RedPacketView> = Vec::new();
        match self.owners.get(owner_id) {
            None => {},
            Some(public_keys) => {
                let ghost keys = public_keys.key_seq();
                let n = public_keys.items.len();
                let mut i: usize = 0;
                while i < n
                    invariant
                        self.ledger_wf(),
                        self.owners@.contains_key(owner_id@),
                        public_keys == self.owners@[owner_id@],
                        keys == public_keys.key_seq(),
                        n == keys.len(),
                        i <= n,
                        views@.len() == i,
                        forall|j: int| 0 <= j < i ==> spec_view_of(
                            #[trigger] views@[j],
                            self.red_packets@[keys[j]],
                            keys[j],
                        ),
                    decreases n - i,
                {
                    proof {
                        assert(keys[i as int] == public_keys.items@[i as int]@);
                        assert(public_keys@.contains(keys[i as int]));
                        assert(self.owners@[owner_id@]@.contains(keys[i as int]));
                    }
                    let public_key = &public_keys.items[i];
                    match self.red_packets.get(public_key) {
                        Some(p) => {
                            views.push(parse_red_packet_view(p.duplicate(), public_key.clone()));
                        },
                        None => {
                            proof {
                                assert(false);
                            }
                        },
                    }
                    i = i + 1;
                }
            },
        }
        views
    }
}

} // verus!
