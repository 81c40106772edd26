//! Limits of the red-packet lifecycle.

use vstd::prelude::*;

verus! {

/// The most claim slots one packet may be split into.
pub const MAX_RED_PACKET_SPLIT: usize = 100;

/// The longest attached message, in bytes.
pub const MAX_RED_PACKET_MSG_LEN: usize = 100;

} // verus!
