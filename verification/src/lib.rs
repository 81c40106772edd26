//! A red-packet distribution ledger with prepaid-storage accounting.
//!
//! An account locks a balance under a single-use claim credential (a public
//! key); up to a bounded number of recipients each claim a share, computed
//! evenly or by a fairness-bounded random draw; the owner may reclaim what
//! remains.  A measurement session meters the storage bytes each operation
//! consumes and charges them to the acting account's prepaid record.
//!
//! Host concerns (persisted key-value storage, asynchronous transfers and
//! their settlement, entropy, timestamps, byte pricing) are supplied by the
//! caller as plain values; every decision taken on them is verified here.

pub mod constants;
pub mod enums;
pub mod errors;
pub mod string_kv;
pub mod utils;
pub mod dynamic_storage_management;
pub mod red_packet;
pub mod contract;
pub mod red_packet_view;
pub mod storage_management;
pub mod resolver;
