//! Messages between chains, bundles of them, and how a recipient resolves a
//! bundle: which messages take effect, whether the bundle is accepted, and
//! which tracked messages bounce back to their sender.

use vstd::prelude::*;
use crate::policy::{ExecutionError, ResourceControlPolicy, ResourceTracker, fuel_charge, max_amount};

verus! {

/// How a message is delivered, decided when it is sent.
#[derive(Clone, Copy, Debug, PartialEq, Eq, Structural)]
pub enum MessageKind {
    /// Fire and forget: a failure at the recipient is absorbed.
    Simple,
    /// The sender expects an acknowledgement: a failure at the recipient bounces.
    Tracking,
    /// A tracked message that failed, on its way back to its sender.
    Bouncing,
}

/// A message of the system itself.
#[derive(Clone, Copy, Debug, PartialEq, Eq, Structural)]
pub enum SystemMessage {
    /// Credits the recipient chain with an amount.
    Credit { amount: u128 },
}

/// The payload of a message.
#[derive(Clone, Copy, Debug, PartialEq, Eq, Structural)]
pub enum Message {
    /// A message of the system.
    System(SystemMessage),
    /// A message of an application; the payload is opaque to the engine.
    User { application_id: u64, payload: u64 },
}

/// A message as it stands in a bundle.
#[derive(Clone, Copy, Debug, PartialEq, Eq, Structural)]
pub struct PostedMessage {
    /// How the message is delivered.
    pub kind: MessageKind,
    /// The amount that travels with the message to pay for its execution.
    pub grant: u128,
    /// The payload.
    pub message: Message,
}

/// A message emitted during execution, addressed to a chain.
#[derive(Clone, Copy, Debug, PartialEq, Eq, Structural)]
pub struct OutgoingMessage {
    /// The recipient chain.
    pub destination: u64,
    /// How the message is delivered.
    pub kind: MessageKind,
    /// The amount that travels with the message.
    pub grant: u128,
    /// The payload.
    pub message: Message,
}

/// The stream an event is emitted on: an application and a name of its own.
#[derive(Clone, Copy, Debug, PartialEq, Eq, Structural)]
pub struct StreamId {
    /// The application that owns the stream.
    pub application_id: u64,
    /// The stream's name within the application.
    pub stream_name: u64,
}

/// An event emitted by an application, before the chain gives it an index.
#[derive(Clone, Copy, Debug, PartialEq, Eq, Structural)]
pub struct EmittedEvent {
    /// The stream.
    pub stream_id: StreamId,
    /// The opaque value.
    pub value: u64,
}

/// The messages of one sending block directed at one recipient chain.
#[derive(Clone, Debug, PartialEq, Eq)]
pub struct MessageBundle {
    /// The sending chain.
    pub origin: u64,
    /// The height of the sending block.
    pub height: u64,
    /// The messages, in emission order.
    pub messages: Vec<PostedMessage>,
}

/// What the recipient decided for a bundle.
#[derive(Clone, Copy, Debug, PartialEq, Eq, Structural)]
pub enum MessageAction {
    Accept,
    Reject,
}

/// A bundle together with the recipient's resolution of it.
#[derive(Clone, Debug, PartialEq, Eq)]
pub struct IncomingBundle {
    /// The bundle.
    pub bundle: MessageBundle,
    /// The action decided when it was processed.
    pub action: MessageAction,
}

/// What running an application left behind: the fuel it used, the messages it
/// sends and the events it emits.
#[derive(Clone, Debug)]
pub struct Effects {
    /// Fuel used.
    pub fuel: u64,
    /// Messages sent, in order.
    pub messages: Vec<OutgoingMessage>,
    /// Events emitted, in order.
    pub events: Vec<EmittedEvent>,
}

/// The result of running an application in the sandbox.
#[derive(Clone, Debug)]
pub enum Outcome {
    /// It returned with these effects.
    Success(Effects),
    /// It trapped.
    Trap,
}

/// The sum of the grants of the messages: what sending them costs the sender.
pub open spec fn total_grant(s: Seq<OutgoingMessage>) -> int
    decreases s.len(),
{
    if s.len() == 0 {
        0
    } else {
        total_grant(s.drop_last()) + s.last().grant
    }
}

/// Returns the sum of the grants of the messages, or `None` where it does not fit in an amount.
pub fn sum_grants(v: &Vec<OutgoingMessage>) -> (r: Option<u128>)
    ensures
        total_grant(v@) <= max_amount() ==> r == Some(total_grant(v@) as u128),
        total_grant(v@) > max_amount() ==> r is None,
        total_grant(v@) >= 0,
{
    proof {
        lemma_total_grant_prefix(v@, 0, v@.len());
        assert(v@.subrange(0, 0) =~= Seq::<OutgoingMessage>::empty());
        assert(v@.subrange(0, v@.len() as int) == v@);
    }
    let mut total: u128 = 0;
    let mut i: usize = 0;
    while i < v.len()
        invariant
            i <= v@.len(),
            total == total_grant(v@.subrange(0, i as int)),
        decreases v@.len() - i,
    {
        proof {
            assert(v@.subrange(0, i + 1).drop_last() == v@.subrange(0, i as int));
            assert(v@.subrange(0, i + 1).last() == v@[i as int]);
            lemma_total_grant_prefix(v@, (i + 1) as nat, v@.len());
            assert(v@.subrange(0, v@.len() as int) == v@);
        }
        match total.checked_add(v[i].grant) {
            Some(t) => total = t,
            None => return None,
        }
        i = i + 1;
    }
    assert(v@.subrange(0, v@.len() as int) == v@);
    Some(total)
}

pub(crate) proof fn lemma_total_grant_nonneg(s: Seq<OutgoingMessage>)
    ensures
        total_grant(s) >= 0,
    decreases s.len(),
{
    if s.len() > 0 {
        lemma_total_grant_nonneg(s.drop_last());
    }
}

proof fn lemma_total_grant_prefix(s: Seq<OutgoingMessage>, m: nat, n: nat)
    requires
        m <= n <= s.len(),
    ensures
        total_grant(s.subrange(0, m as int)) <= total_grant(s.subrange(0, n as int)),
    decreases n - m,
{
    if n > m {
        lemma_total_grant_prefix(s, m, (n - 1) as nat);
        assert(s.subrange(0, n as int).drop_last() == s.subrange(0, n - 1));
    }
}

/// Applications send simple and tracked messages only: the bouncing form is the engine's.
pub open spec fn no_bouncing(s: Seq<OutgoingMessage>) -> bool {
    forall|i: int| 0 <= i < s.len() ==> s[i].kind != MessageKind::Bouncing
}

/// The credit that returns an unspent grant to the chain that paid it.
pub open spec fn refund(origin: u64, unspent: int) -> Seq<OutgoingMessage> {
    if unspent > 0 {
        seq![OutgoingMessage {
            destination: origin,
            kind: MessageKind::Tracking,
            grant: 0,
            message: Message::System(SystemMessage::Credit { amount: unspent as u128 }),
        }]
    } else {
        seq![]
    }
}

/// The bouncing form of a failed tracked message, addressed back to its origin
/// with the original payload and the whole grant, none of which was spent.
pub open spec fn bounce(origin: u64, m: PostedMessage) -> OutgoingMessage {
    OutgoingMessage { destination: origin, kind: MessageKind::Bouncing, grant: m.grant, message: m.message }
}

/// Delivering a payload that came from `origin` with `grant` to pay for it: the
/// tracker, the messages and the events afterwards, or `None` where it fails.
pub open spec fn deliver(p: ResourceControlPolicy, t: ResourceTracker, origin: u64, message: Message, grant: int, o: Outcome) -> Option<(ResourceTracker, Seq<OutgoingMessage>, Seq<EmittedEvent>)> {
    match message {
        Message::System(SystemMessage::Credit { amount }) => {
            if t.balance + amount > max_amount() {
                None
            } else {
                Some((ResourceTracker { fuel: t.fuel, balance: (t.balance + amount) as u128 }, refund(origin, grant), seq![]))
            }
        },
        Message::User { .. } => match o {
            Outcome::Trap => None,
            Outcome::Success(e) => {
                if !no_bouncing(e.messages@) {
                    None
                } else {
                    match fuel_charge(p, t.fuel as int, t.balance as int, grant, e.fuel as int) {
                        Ok((used, balance, unspent)) => if total_grant(e.messages@) > balance {
                            None
                        } else {
                            Some((
                                ResourceTracker { fuel: used as u64, balance: (balance - total_grant(e.messages@)) as u128 },
                                e.messages@ + refund(origin, unspent),
                                e.events@,
                            ))
                        },
                        Err(_) => None,
                    }
                }
            },
        },
    }
}

/// Handling one message of a bundle from `origin`: the tracker, the messages and
/// the events afterwards, and whether it calls for rejecting the bundle.
pub open spec fn handle(p: ResourceControlPolicy, t: ResourceTracker, origin: u64, m: PostedMessage, o: Outcome) -> (ResourceTracker, Seq<OutgoingMessage>, Seq<EmittedEvent>, bool) {
    if m.kind == MessageKind::Bouncing {
        if t.balance + m.grant > max_amount() {
            (t, seq![], seq![], false)
        } else {
            let t1 = ResourceTracker { fuel: t.fuel, balance: (t.balance + m.grant) as u128 };
            match deliver(p, t1, origin, m.message, 0, o) {
                Some((t2, ms, es)) => (t2, ms, es, false),
                None => (t1, seq![], seq![], false),
            }
        }
    } else {
        match deliver(p, t, origin, m.message, m.grant as int, o) {
            Some((t2, ms, es)) => (t2, ms, es, false),
            None => if m.kind == MessageKind::Tracking {
                (t, seq![bounce(origin, m)], seq![], true)
            } else {
                (t, seq![], seq![], false)
            },
        }
    }
}

/// Handling the first `n` messages of a bundle from `origin` in order.
pub open spec fn bundle_run(p: ResourceControlPolicy, t: ResourceTracker, origin: u64, msgs: Seq<PostedMessage>, os: Seq<Outcome>, n: nat) -> (ResourceTracker, Seq<OutgoingMessage>, Seq<EmittedEvent>, bool)
    decreases n,
{
    if n == 0 {
        (t, seq![], seq![], false)
    } else {
        let prev = bundle_run(p, t, origin, msgs, os, (n - 1) as nat);
        let s = handle(p, prev.0, origin, msgs[n - 1], os[n - 1]);
        (s.0, prev.1 + s.1, prev.2 + s.2, prev.3 || s.3)
    }
}

/// The action a recipient decides for a whole bundle.
pub open spec fn bundle_action(p: ResourceControlPolicy, t: ResourceTracker, b: MessageBundle, os: Seq<Outcome>) -> MessageAction {
    if bundle_run(p, t, b.origin, b.messages@, os, b.messages@.len()).3 {
        MessageAction::Reject
    } else {
        MessageAction::Accept
    }
}

/// Appends a copy of each item of `src` to `dst`.
pub fn append_all<T: Copy>(dst: &mut Vec<T>, src: &Vec<T>)
    ensures
        final(dst)@ == old(dst)@ + src@,
{
    let mut i: usize = 0;
    while i < src.len()
        invariant
            i <= src@.len(),
            dst@ == old(dst)@ + src@.subrange(0, i as int),
        decreases src@.len() - i,
    {
        dst.push(src[i]);
        i = i + 1;
        assert(src@.subrange(0, i as int) == src@.subrange(0, (i - 1) as int).push(src@[i - 1]));
    }
    assert(src@.subrange(0, src@.len() as int) == src@);
}

/// Returns whether none of the messages is in the bouncing form.
pub fn has_no_bouncing(v: &Vec<OutgoingMessage>) -> (r: bool)
    ensures
        r == no_bouncing(v@),
{
    let mut i: usize = 0;
    while i < v.len()
        invariant
            i <= v@.len(),
            forall|j: int| 0 <= j < i ==> v@[j].kind != MessageKind::Bouncing,
        decreases v@.len() - i,
    {
        if v[i].kind == MessageKind::Bouncing {
            return false;
        }
        i = i + 1;
    }
    true
}

/// Pushes the credit that refunds `unspent` to `origin`, if anything is left.
fn push_refund(out: &mut Vec<OutgoingMessage>, origin: u64, unspent: u128)
    ensures
        final(out)@ == old(out)@ + refund(origin, unspent as int),
{
    if unspent > 0 {
        out.push(OutgoingMessage {
            destination: origin,
            kind: MessageKind::Tracking,
            grant: 0,
            message: Message::System(SystemMessage::Credit { amount: unspent }),
        });
    }
}

/// Delivers a payload that came from `origin` with `grant` to pay for it, with
/// `o` the sandbox's result where it is an application's. On failure nothing changes.
pub fn deliver_message(
    policy: &ResourceControlPolicy,
    tracker: &mut ResourceTracker,
    origin: u64,
    message: Message,
    grant: u128,
    o: &Outcome,
    out: &mut Vec<OutgoingMessage>,
    events: &mut Vec<EmittedEvent>,
) -> (ok: bool)
    ensures
        match deliver(*policy, *old(tracker), origin, message, grant as int, *o) {
            Some((t, ms, es)) => ok && *final(tracker) == t && final(out)@ == old(out)@ + ms
                && final(events)@ == old(events)@ + es,
            None => !ok && *final(tracker) == *old(tracker) && final(out)@ == old(out)@
                && final(events)@ == old(events)@,
        },
{
    match message {
        Message::System(SystemMessage::Credit { amount }) => {
            match tracker.balance.checked_add(amount) {
                None => false,
                Some(balance) => {
                    tracker.balance = balance;
                    push_refund(out, origin, grant);
                    true
                },
            }
        },
        Message::User { .. } => match o {
            Outcome::Trap => false,
            Outcome::Success(e) => {
                if !has_no_bouncing(&e.messages) {
                    return false;
                }
                let saved = *tracker;
                match tracker.charge_fuel(policy, e.fuel, grant) {
                    Err(_) => false,
                    Ok(unspent) => {
                        let grants = match sum_grants(&e.messages) {
                            Some(g) => g,
                            None => {
                                *tracker = saved;
                                return false;
                            },
                        };
                        if grants > tracker.balance {
                            *tracker = saved;
                            return false;
                        }
                        tracker.balance = tracker.balance - grants;
                        append_all(out, &e.messages);
                        push_refund(out, origin, unspent);
                        append_all(events, &e.events);
                        true
                    },
                }
            },
        },
    }
}

/// Handles one message of a bundle from `origin` and returns whether it calls
/// for rejecting the bundle.
pub fn handle_message(
    policy: &ResourceControlPolicy,
    tracker: &mut ResourceTracker,
    origin: u64,
    m: PostedMessage,
    o: &Outcome,
    out: &mut Vec<OutgoingMessage>,
    events: &mut Vec<EmittedEvent>,
) -> (reject: bool)
    ensures
        ({
            let s = handle(*policy, *old(tracker), origin, m, *o);
            &&& *final(tracker) == s.0
            &&& final(out)@ == old(out)@ + s.1
            &&& final(events)@ == old(events)@ + s.2
            &&& reject == s.3
        }),
{
    if m.kind == MessageKind::Bouncing {
        match tracker.balance.checked_add(m.grant) {
            None => {
                assert(old(out)@ + seq![] == old(out)@);
                assert(old(events)@ + seq![] == old(events)@);
                false
            },
            Some(balance) => {
                tracker.balance = balance;
                let ok = deliver_message(policy, tracker, origin, m.message, 0, o, out, events);
                if !ok {
                    assert(old(out)@ + seq![] == old(out)@);
                    assert(old(events)@ + seq![] == old(events)@);
                }
                false
            },
        }
    } else {
        let ok = deliver_message(policy, tracker, origin, m.message, m.grant, o, out, events);
        if ok {
            false
        } else {
            assert(old(events)@ + seq![] == old(events)@);
            if m.kind == MessageKind::Tracking {
                out.push(OutgoingMessage { destination: origin, kind: MessageKind::Bouncing, grant: m.grant, message: m.message });
                true
            } else {
                assert(old(out)@ + seq![] == old(out)@);
                false
            }
        }
    }
}

/// Resolves a bundle: handles each message in order, with `outcomes[i]` the
/// sandbox's result for the `i`-th, and decides the bundle's action. Messages
/// that succeed take effect whatever the action; a failing message does not.
pub fn execute_bundle(
    policy: &ResourceControlPolicy,
    tracker: &mut ResourceTracker,
    bundle: MessageBundle,
    outcomes: &Vec<Outcome>,
    out: &mut Vec<OutgoingMessage>,
    events: &mut Vec<EmittedEvent>,
) -> (r: IncomingBundle)
    requires
        outcomes@.len() == bundle.messages@.len(),
    ensures
        ({
            let s = bundle_run(*policy, *old(tracker), bundle.origin, bundle.messages@, outcomes@, bundle.messages@.len());
            &&& *final(tracker) == s.0
            &&& final(out)@ == old(out)@ + s.1
            &&& final(events)@ == old(events)@ + s.2
        }),
        r.bundle == bundle,
        r.action == bundle_action(*policy, *old(tracker), bundle, outcomes@),
{
    let mut rejected = false;
    let mut i: usize = 0;
    let n = bundle.messages.len();
    while i < n
        invariant
            n == bundle.messages@.len(),
            outcomes@.len() == n,
            i <= n,
            ({
                let s = bundle_run(*policy, *old(tracker), bundle.origin, bundle.messages@, outcomes@, i as nat);
                &&& *tracker == s.0
                &&& out@ == old(out)@ + s.1
                &&& events@ == old(events)@ + s.2
                &&& rejected == s.3
            }),
        decreases n - i,
    {
        let ghost out_before = out@;
        let ghost events_before = events@;
        let reject = handle_message(policy, tracker, bundle.origin, bundle.messages[i], &outcomes[i], out, events);
        rejected = rejected || reject;
        i = i + 1;
        proof {
            let prev = bundle_run(*policy, *old(tracker), bundle.origin, bundle.messages@, outcomes@, (i - 1) as nat);
            let s = handle(*policy, prev.0, bundle.origin, bundle.messages@[i - 1], outcomes@[i - 1]);
            assert(out@ == old(out)@ + (prev.1 + s.1));
            assert(events@ == old(events)@ + (prev.2 + s.2));
        }
    }
    let action = if rejected { MessageAction::Reject } else { MessageAction::Accept };
    IncomingBundle { bundle, action }
}

/// The number of messages in the bouncing form.
pub open spec fn count_bouncing(s: Seq<OutgoingMessage>) -> nat
    decreases s.len(),
{
    if s.len() == 0 {
        0
    } else {
        count_bouncing(s.drop_last()) + if s.last().kind == MessageKind::Bouncing { 1nat } else { 0nat }
    }
}

/// The number of the first `n` messages of a bundle that call for rejecting it.
pub open spec fn failed_tracking(p: ResourceControlPolicy, t: ResourceTracker, origin: u64, msgs: Seq<PostedMessage>, os: Seq<Outcome>, n: nat) -> nat
    decreases n,
{
    if n == 0 {
        0
    } else {
        let prev = bundle_run(p, t, origin, msgs, os, (n - 1) as nat);
        failed_tracking(p, t, origin, msgs, os, (n - 1) as nat)
            + if handle(p, prev.0, origin, msgs[n - 1], os[n - 1]).3 { 1nat } else { 0nat }
    }
}

proof fn lemma_count_concat(a: Seq<OutgoingMessage>, b: Seq<OutgoingMessage>)
    ensures
        count_bouncing(a + b) == count_bouncing(a) + count_bouncing(b),
    decreases b.len(),
{
    if b.len() == 0 {
        assert(a + b == a);
    } else {
        lemma_count_concat(a, b.drop_last());
        assert((a + b).drop_last() == a + b.drop_last());
    }
}

proof fn lemma_count_none(s: Seq<OutgoingMessage>)
    requires
        no_bouncing(s),
    ensures
        count_bouncing(s) == 0,
    decreases s.len(),
{
    if s.len() > 0 {
        lemma_count_none(s.drop_last());
    }
}

proof fn lemma_refund_not_bouncing(origin: u64, unspent: int)
    ensures
        no_bouncing(refund(origin, unspent)),
{
}

proof fn lemma_deliver_not_bouncing(p: ResourceControlPolicy, t: ResourceTracker, origin: u64, message: Message, grant: int, o: Outcome)
    ensures
        deliver(p, t, origin, message, grant, o) matches Some((_, ms, _)) ==> no_bouncing(ms),
{
    match deliver(p, t, origin, message, grant, o) {
        Some((_, ms, _)) => {
            match message {
                Message::System(_) => lemma_refund_not_bouncing(origin, grant),
                Message::User { .. } => {
                    if let Outcome::Success(e) = o {
                        if let Ok((_, _, unspent)) = fuel_charge(p, t.fuel as int, t.balance as int, grant, e.fuel as int) {
                            let r = refund(origin, unspent);
                            assert forall|i: int| 0 <= i < ms.len() implies ms[i].kind != MessageKind::Bouncing by {
                                if i >= e.messages@.len() {
                                    assert(ms[i] == r[i - e.messages@.len()]);
                                }
                            }
                        }
                    }
                },
            }
        },
        None => {},
    }
}

/// A failing tracking message bounces once to its origin, with its payload and
/// its whole grant; a failing simple message sends nothing; a message that
/// takes effect, and any message in the bouncing form, sends no bouncing
/// message, so a bouncing message is never bounced again.
pub proof fn lemma_handle_bounce(p: ResourceControlPolicy, t: ResourceTracker, origin: u64, m: PostedMessage, o: Outcome)
    ensures
        m.kind != MessageKind::Bouncing && deliver(p, t, origin, m.message, m.grant as int, o) is None ==> {
            let s = handle(p, t, origin, m, o);
            if m.kind == MessageKind::Tracking {
                &&& s.1 == seq![bounce(origin, m)]
                &&& s.1[0].kind == MessageKind::Bouncing
                &&& s.1[0].destination == origin
                &&& s.1[0].message == m.message
                &&& s.1[0].grant == m.grant
                &&& s.3
            } else {
                s.1.len() == 0 && !s.3
            }
        },
        !handle(p, t, origin, m, o).3 ==> no_bouncing(handle(p, t, origin, m, o).1),
        m.kind == MessageKind::Bouncing ==> !handle(p, t, origin, m, o).3,
        handle(p, t, origin, m, o).3 <==> (m.kind == MessageKind::Tracking
            && deliver(p, t, origin, m.message, m.grant as int, o) is None),
{
    lemma_deliver_not_bouncing(p, t, origin, m.message, m.grant as int, o);
    if m.kind == MessageKind::Bouncing && t.balance + m.grant <= max_amount() {
        let t1 = ResourceTracker { fuel: t.fuel, balance: (t.balance + m.grant) as u128 };
        lemma_deliver_not_bouncing(p, t1, origin, m.message, 0, o);
    }
}

/// Across a bundle from `origin`, the bouncing messages sent are exactly one
/// for each tracking message that failed, and each goes back to `origin`.
pub proof fn lemma_bundle_bounces(p: ResourceControlPolicy, t: ResourceTracker, origin: u64, msgs: Seq<PostedMessage>, os: Seq<Outcome>, n: nat)
    requires
        n <= msgs.len(),
        os.len() == msgs.len(),
    ensures
        count_bouncing(bundle_run(p, t, origin, msgs, os, n).1) == failed_tracking(p, t, origin, msgs, os, n),
        forall|i: int| 0 <= i < bundle_run(p, t, origin, msgs, os, n).1.len()
            && #[trigger] bundle_run(p, t, origin, msgs, os, n).1[i].kind == MessageKind::Bouncing
            ==> bundle_run(p, t, origin, msgs, os, n).1[i].destination == origin,
        bundle_run(p, t, origin, msgs, os, n).3 <==> failed_tracking(p, t, origin, msgs, os, n) > 0,
    decreases n,
{
    if n > 0 {
        let prev = bundle_run(p, t, origin, msgs, os, (n - 1) as nat);
        let m = msgs[n - 1];
        let s = handle(p, prev.0, origin, m, os[n - 1]);
        lemma_bundle_bounces(p, t, origin, msgs, os, (n - 1) as nat);
        lemma_handle_bounce(p, prev.0, origin, m, os[n - 1]);
        lemma_count_concat(prev.1, s.1);
        if s.3 {
            assert(s.1 == seq![bounce(origin, m)]);
            assert(s.1.drop_last() =~= Seq::<OutgoingMessage>::empty());
            assert(count_bouncing(s.1.drop_last()) == 0);
            assert(s.1.last().kind == MessageKind::Bouncing);
            assert(count_bouncing(s.1) == 1);
        } else {
            lemma_count_none(s.1);
        }
        let all = prev.1 + s.1;
        assert forall|i: int| 0 <= i < all.len() && #[trigger] all[i].kind == MessageKind::Bouncing
            implies all[i].destination == origin by {
            if i >= prev.1.len() {
                assert(all[i] == s.1[i - prev.1.len()]);
            }
        }
    }
}

/// The action decided for a bundle is a function of the state and the sandbox's
/// results alone, so evaluating it again from identical inputs gives the same
/// action; it is Reject exactly when some tracking message of the bundle fails.
pub proof fn lemma_bundle_decision(p: ResourceControlPolicy, t1: ResourceTracker, t2: ResourceTracker, b: MessageBundle, os: Seq<Outcome>)
    requires
        t1 == t2,
        os.len() == b.messages@.len(),
    ensures
        bundle_action(p, t1, b, os) == bundle_action(p, t2, b, os),
        bundle_action(p, t1, b, os) == MessageAction::Reject
            <==> failed_tracking(p, t1, b.origin, b.messages@, os, b.messages@.len()) > 0,
        bundle_action(p, t1, b, os) == MessageAction::Accept
            <==> failed_tracking(p, t1, b.origin, b.messages@, os, b.messages@.len()) == 0,
{
    lemma_bundle_bounces(p, t1, b.origin, b.messages@, os, b.messages@.len());
}

} // verus!
