//! Shared enumerations: storage-key prefixes, the asset kind of a packet,
//! and the distribution mode of a claim split.

use vstd::prelude::*;

verus! {

/// Prefix under which each of the three persisted key spaces lives.
#[derive(Clone, Copy, PartialEq, Eq, Structural)]
pub enum StorageKey {
    RedPackets,
    Owners,
    DynamicStorageManager,
}

/// The asset a red packet locks: the native ledger asset, or an external
/// fungible asset identified by the issuer's account id.
#[derive(Clone, Copy, PartialEq, Eq, Structural)]
pub enum Token {
    NEAR,
    FungibleToken,
}

/// How a claim's share of the remaining balance is computed.
#[derive(Clone, Copy, PartialEq, Eq, Structural)]
pub enum DistributionMod {
    Average,
    Random,
}

} // verus!
