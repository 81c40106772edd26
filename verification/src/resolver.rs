//! Settlement of asynchronous fungible-token claim transfers.
//!
//! A claim on a fungible-token packet commits its state change first and
//! transfers afterwards; the host reports the transfer's outcome exactly
//! once through this privileged entry point, carrying the correlation
//! tuple recorded at claim time.  A failed transfer is compensated: the
//! claim entry moves to the failed ledger and the amount becomes
//! withdrawable by the owner through a later refund.

use vstd::prelude::*;
use crate::contract::Contract;
use crate::contract::TransferAction;
use crate::errors::ContractError;
use crate::red_packet::RedPacket;

verus! {

impl Contract {
    /// Settle one fungible-token claim transfer.
    ///
    /// Only the host may invoke this, and only with the correlation tuple
    /// of a transfer it actually resolved: for a failed transfer the named
    /// claim is still recorded with exactly this amount and not yet
    /// compensated.  The packet may have been removed meanwhile; then the
    /// refund transfer is still issued but nothing is recorded.
    pub fn claim_fungible_token_red_packet_callback(
        &mut self,
        claimer_id: String,
        owner_id: String,
        amount: u128,
        token_id: String,
        public_key: String,
        transfer_succeeded: bool,
    ) -> (r: TransferAction)
        requires
            old(self).wf(),
            (!transfer_succeeded && old(self).red_packets@.contains_key(public_key@)) ==> {
                &&& old(self).red_packets@[public_key@].claimers@.contains_key(claimer_id@)
                &&& old(self).red_packets@[public_key@].claimers@[claimer_id@] == amount
                &&& !old(self).red_packets@[public_key@].failed_claimers@.contains_key(
                    claimer_id@)
            },
        ensures
            final(self).wf(),
            final(self).owners == old(self).owners,
            final(self).storage_manager == old(self).storage_manager,
            final(self).helper_contract_id == old(self).helper_contract_id,
            transfer_succeeded ==> {
                &&& r == TransferAction::NoTransfer
                &&& *final(self) == *old(self)
            },
            !transfer_succeeded ==> r == (TransferAction::TransferFt {
                receiver_id: owner_id,
                amount: amount,
                token_id: token_id,
            }),
            (!transfer_succeeded && !old(self).red_packets@.contains_key(public_key@))
                ==> final(self).red_packets@ =~= old(self).red_packets@,
            (!transfer_succeeded && old(self).red_packets@.contains_key(public_key@)) ==> {
                let p0 = old(self).red_packets@[public_key@];
                let p = final(self).red_packets@[public_key@];
                {
                    &&& final(self).red_packets@.dom() =~= old(self).red_packets@.dom()
                    &&& forall|k: Seq<char>| k != public_key@
                        && #[trigger] old(self).red_packets@.contains_key(k)
                        ==> final(self).red_packets@[k] == old(self).red_packets@[k]
                    &&& p.claimers@ == p0.claimers@.remove(claimer_id@)
                    &&& p.failed_claimers@ == p0.failed_claimers@.insert(claimer_id@, amount)
                    &&& p.refunded_balance == p0.refunded_balance + amount
                    &&& p.current_balance == p0.current_balance
                    &&& p.current_split == p0.current_split
                    &&& p.init_balance == p0.init_balance
                    &&& p.owner_id == p0.owner_id
                    &&& p.token == p0.token
                    &&& p.token_id == p0.token_id
                }
            },
    {
        if transfer_succeeded {
            return TransferAction::NoTransfer;
        }
        let ghost m0 = self.red_packets@;
        if self.red_packets.contains_key(&public_key) {
            let mut red_packet = match self.red_packets.remove(&public_key) {
                Some(p) => p,
                None => {
                    proof {
                        assert(false);
                    }
                    return TransferAction::NoTransfer;
                },
            };
            red_packet.failed_claimer(claimer_id, amount);
            self.red_packets.insert(public_key.clone(), red_packet);
            proof {
                let pk_view = public_key@;
                assert(self.red_packets@ =~= m0.insert(pk_view, self.red_packets@[pk_view]));
                let post = *final(self);
                let pre = *old(self);
                assert forall|pk: Seq<char>| #[trigger] post.red_packets@.contains_key(pk)
                    implies {
                    &&& post.red_packets@[pk].wf()
                    &&& match post.red_packets@[pk].token {
                        crate::enums::Token::NEAR => post.red_packets@[pk].token_id is None,
                        crate::enums::Token::FungibleToken => post.red_packets@[pk].token_id
                            is Some,
                    }
                    &&& post.owners@.contains_key(post.red_packets@[pk].owner_id@)
                    &&& post.owners@[post.red_packets@[pk].owner_id@]@.contains(pk)
                } by {
                    assert(pre.red_packets@.contains_key(pk));
                }
                assert forall|o: Seq<char>| #[trigger] post.owners@.contains_key(o) implies
                    forall|pk: Seq<char>| #[trigger] post.owners@[o]@.contains(pk) ==> {
                        &&& post.red_packets@.contains_key(pk)
                        &&& post.red_packets@[pk].owner_id@ == o
                    } by {
                    assert(pre.owners@.contains_key(o));
                    assert forall|pk: Seq<char>| #[trigger] post.owners@[o]@.contains(pk)
                        implies {
                        &&& post.red_packets@.contains_key(pk)
                        &&& post.red_packets@[pk].owner_id@ == o
                    } by {
                        assert(pre.owners@[o]@.contains(pk));
                        assert(pre.red_packets@.contains_key(pk));
                    }
                }
            }
        }
        TransferAction::TransferFt { receiver_id: owner_id, amount, token_id }
    }
}

} // verus!
