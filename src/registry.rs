//! The chains known to one process, keyed by chain identifier: the messages a
//! block sends are grouped into one bundle for each recipient and handed to
//! the recipient's inbox. Chains refer to each other by identifier only.

use vstd::prelude::*;
use crate::chain::{
    ChainState, count_posted_bouncing, for_recipient, lemma_bounces_reach_origin,
    outgoing_bundle, takes_bundle,
};
use crate::message::{Outcome, OutgoingMessage, PostedMessage, bundle_run, failed_tracking};
use crate::policy::{ResourceControlPolicy, ResourceTracker};

verus! {

/// The chains known to one process.
#[derive(Debug)]
pub struct ChainRegistry {
    /// The chains, each under its own identifier.
    pub chains: Vec<ChainState>,
}

/// What handing a bundle of `origin` at `height` holding `msgs` to a chain
/// does: `before` and `after` are the chain around it.
pub open spec fn handed_over(before: ChainState, after: ChainState, origin: u64, height: u64, msgs: Seq<PostedMessage>) -> bool {
    let taken = takes_bundle(before.last_height(origin), height);
    &&& taken ==> {
        &&& after.inbox@.len() == before.inbox@.len() + 1
        &&& after.inbox@.subrange(0, before.inbox@.len() as int) == before.inbox@
        &&& after.inbox@.last().origin == origin
        &&& after.inbox@.last().height == height
        &&& after.inbox@.last().messages@ == msgs
        &&& after.last_height(origin) == Some(height)
    }
    &&& !taken ==> after.inbox == before.inbox && after.cursors == before.cursors
    &&& forall|o: u64| o != origin ==> #[trigger] after.last_height(o) == before.last_height(o)
    &&& after.chain_id == before.chain_id
    &&& after.next_height == before.next_height
    &&& after.balance == before.balance
    &&& after.log == before.log
    &&& after.subscriptions == before.subscriptions
    &&& after.modules == before.modules
    &&& after.applications == before.applications
}

/// When chain `recipient` resolves a bundle from `origin` and the messages
/// that resolving it sends are handed over to `origin`, the bundle that
/// `origin` takes holds exactly one bouncing message for each tracking message
/// of the bundle that failed.
pub proof fn lemma_bounces_handed_to_origin(
    p: ResourceControlPolicy,
    t: ResourceTracker,
    origin: u64,
    msgs: Seq<PostedMessage>,
    os: Seq<Outcome>,
    recipient: u64,
    height: u64,
    before: ChainState,
    after: ChainState,
)
    requires
        os.len() == msgs.len(),
        handed_over(before, after, recipient, height, for_recipient(bundle_run(p, t, origin, msgs, os, msgs.len()).1, origin)),
        before.chain_id == origin,
        takes_bundle(before.last_height(recipient), height),
    ensures
        after.inbox@.last().origin == recipient,
        count_posted_bouncing(after.inbox@.last().messages@) == failed_tracking(p, t, origin, msgs, os, msgs.len()),
{
    lemma_bounces_reach_origin(p, t, origin, msgs, os);
}

impl ChainRegistry {
    /// Hands the messages that the block of `origin` at `height` sends to the
    /// inbox of each chain they are addressed to, as one bundle for each; a
    /// chain that none is addressed to is left as it was.
    pub fn publish_outgoing(&mut self, origin: u64, height: u64, messages: &Vec<OutgoingMessage>)
        ensures
            final(self).chains@.len() == old(self).chains@.len(),
            forall|k: int| 0 <= k < old(self).chains@.len() ==> {
                let before = #[trigger] old(self).chains@[k];
                let msgs = for_recipient(messages@, before.chain_id);
                &&& msgs.len() > 0 ==> handed_over(before, final(self).chains@[k], origin, height, msgs)
                &&& msgs.len() == 0 ==> final(self).chains@[k] == before
            },
    {
        let n = self.chains.len();
        let mut k: usize = 0;
        while k < n
            invariant
                n == old(self).chains@.len(),
                self.chains@.len() == n,
                k <= n,
                forall|j: int| 0 <= j < k ==> {
                    let before = #[trigger] old(self).chains@[j];
                    let msgs = for_recipient(messages@, before.chain_id);
                    &&& msgs.len() > 0 ==> handed_over(before, self.chains@[j], origin, height, msgs)
                    &&& msgs.len() == 0 ==> self.chains@[j] == before
                },
                forall|j: int| k <= j < n ==> #[trigger] self.chains@[j] == old(self).chains@[j],
            decreases n - k,
        {
            let recipient = self.chains[k].chain_id;
            let bundle = outgoing_bundle(messages, origin, height, recipient);
            if bundle.messages.len() > 0 {
                let ghost before = self.chains@[k as int];
                let ghost sent = bundle;
                self.chains[k].receive_bundle(bundle);
                proof {
                    let after = self.chains@[k as int];
                    if takes_bundle(before.last_height(origin), height) {
                        assert(after.inbox@ == before.inbox@.push(sent));
                        assert(after.inbox@.subrange(0, before.inbox@.len() as int) =~= before.inbox@);
                    }
                }
            }
            k = k + 1;
        }
    }
}

} // verus!
