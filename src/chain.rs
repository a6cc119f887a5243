//! A chain's state and its block execution: incoming bundles and operations
//! are executed under the resource policy, all or nothing at block level, and
//! the messages they send are grouped into one bundle for each recipient.

use vstd::prelude::*;
use crate::message::{
    EmittedEvent, IncomingBundle, Message, MessageAction, MessageBundle, MessageKind,
    OutgoingMessage, Outcome, PostedMessage, SystemMessage, append_all, bundle_action,
    bundle_run, count_bouncing, execute_bundle, failed_tracking, has_no_bouncing,
    lemma_bundle_bounces, no_bouncing, sum_grants, total_grant, lemma_total_grant_nonneg,
};
use crate::policy::{
    ExecutionError, ResourceControlPolicy, ResourceTracker, fuel_charge, lemma_fuel_charge_monotonic,
    publish_fee,
};
use crate::stream::{Event, EventLog, Subscriptions, count_on, events_fit, indexed};

verus! {

/// An operation of the system itself.
#[derive(Clone, Copy, Debug, PartialEq, Eq, Structural)]
pub enum SystemOperation {
    /// Moves an amount from this chain's balance to another chain.
    Transfer { recipient: u64, amount: u128 },
    /// Creates an application from a published module; the sandbox runs its
    /// instantiation like an application operation.
    CreateApplication { module_id: ModuleId },
}

/// An operation of a block.
#[derive(Clone, Copy, Debug, PartialEq, Eq, Structural)]
pub enum Operation {
    /// An operation of the system.
    System(SystemOperation),
    /// An operation of an application; the payload is opaque to the engine.
    User { application_id: u64, payload: u64 },
}

/// What caused an execution error.
#[derive(Clone, Copy, Debug, PartialEq, Eq, Structural)]
pub enum ChainExecutionContext {
    /// The block as a whole.
    Block,
    /// The operation of this index.
    Operation(u64),
}

/// Why a block was refused. Nothing of a refused block is committed.
#[derive(Clone, Copy, Debug, PartialEq, Eq, Structural)]
pub enum ChainError {
    /// Executing the block failed.
    ExecutionError(ExecutionError, ChainExecutionContext),
    /// The block's inputs do not fit together.
    MalformedBlock,
    /// The chain has no next height.
    HeightOverflow,
}

/// A published module: the chain and the height of the block that published it.
#[derive(Clone, Copy, Debug, PartialEq, Eq, Structural)]
pub struct ModuleId {
    /// The publishing chain.
    pub publisher: u64,
    /// The height of the publishing block.
    pub height: u64,
}

/// An application: the module it runs, and the chain, height and operation
/// index of its creation.
#[derive(Clone, Copy, Debug, PartialEq, Eq, Structural)]
pub struct ApplicationId {
    /// The module.
    pub module_id: ModuleId,
    /// The creating chain.
    pub creator: u64,
    /// The height of the creating block.
    pub height: u64,
    /// The index of the creating operation in its block.
    pub index: u64,
}

/// The height of the last bundle taken into the inbox from one origin.
#[derive(Clone, Copy, Debug, PartialEq, Eq, Structural)]
pub struct InboxCursor {
    /// The sending chain.
    pub origin: u64,
    /// The height of the last bundle taken from it.
    pub last_height: u64,
}

/// One account's chain.
#[derive(Debug)]
pub struct ChainState {
    /// The chain's identifier.
    pub chain_id: u64,
    /// The height of the next block.
    pub next_height: u64,
    /// The native balance.
    pub balance: u128,
    /// Bundles received and not yet executed, in arrival order.
    pub inbox: Vec<MessageBundle>,
    /// For each origin, the last bundle height taken into the inbox.
    pub cursors: Vec<InboxCursor>,
    /// The events this chain has emitted.
    pub log: EventLog,
    /// The streams of other chains this chain follows.
    pub subscriptions: Subscriptions,
    /// The modules this chain has published.
    pub modules: Vec<ModuleId>,
    /// The applications this chain has created.
    pub applications: Vec<ApplicationId>,
}

/// What a block that was executed produced.
#[derive(Debug)]
pub struct BlockOutcome {
    /// The block's height.
    pub height: u64,
    /// The bundles it executed, each with its action.
    pub incoming_bundles: Vec<IncomingBundle>,
    /// The messages it sends, in order.
    pub messages: Vec<OutgoingMessage>,
    /// The events it emitted, with their indices.
    pub events: Vec<Event>,
    /// The fuel it used.
    pub fuel: u64,
    /// The applications it created.
    pub applications: Vec<ApplicationId>,
}

/// The credit a transfer sends: tracking, so that it comes back if it fails.
pub open spec fn transfer_credit(recipient: u64, amount: u128) -> OutgoingMessage {
    OutgoingMessage {
        destination: recipient,
        kind: MessageKind::Tracking,
        grant: 0,
        message: Message::System(SystemMessage::Credit { amount }),
    }
}

/// Running an application operation, with `o` the sandbox's result: fuel is
/// charged, then the grants of the messages it sends.
pub open spec fn run_application(p: ResourceControlPolicy, t: ResourceTracker, o: Outcome) -> Result<(ResourceTracker, Seq<OutgoingMessage>, Seq<EmittedEvent>), ExecutionError> {
    match o {
        Outcome::Trap => Err(ExecutionError::UserApplicationTrap),
        Outcome::Success(e) => {
            if !no_bouncing(e.messages@) {
                Err(ExecutionError::UserApplicationTrap)
            } else {
                match fuel_charge(p, t.fuel as int, t.balance as int, 0, e.fuel as int) {
                    Ok((used, balance, _)) => if total_grant(e.messages@) > balance {
                        Err(ExecutionError::InsufficientBalance)
                    } else {
                        Ok((
                            ResourceTracker { fuel: used as u64, balance: (balance - total_grant(e.messages@)) as u128 },
                            e.messages@,
                            e.events@,
                        ))
                    },
                    Err(x) => Err(x),
                }
            }
        },
    }
}

/// The applications that the first `n` operations of a block create.
pub open spec fn created_applications(ops: Seq<Operation>, creator: u64, height: u64, n: nat) -> Seq<ApplicationId>
    decreases n,
{
    if n == 0 {
        seq![]
    } else {
        let prev = created_applications(ops, creator, height, (n - 1) as nat);
        match ops[n - 1] {
            Operation::System(SystemOperation::CreateApplication { module_id }) => prev.push(
                ApplicationId { module_id, creator, height, index: (n - 1) as u64 },
            ),
            _ => prev,
        }
    }
}

/// Executing one operation, with `o` the sandbox's result where it is an
/// application's: the tracker, messages and events afterwards, or the error.
pub open spec fn op_step(p: ResourceControlPolicy, t: ResourceTracker, op: Operation, o: Outcome) -> Result<(ResourceTracker, Seq<OutgoingMessage>, Seq<EmittedEvent>), ExecutionError> {
    match op {
        Operation::System(SystemOperation::Transfer { recipient, amount }) => {
            if amount > t.balance {
                Err(ExecutionError::InsufficientBalance)
            } else {
                Ok((ResourceTracker { fuel: t.fuel, balance: (t.balance - amount) as u128 }, seq![transfer_credit(recipient, amount)], seq![]))
            }
        },
        _ => run_application(p, t, o),
    }
}

/// Executing the first `n` operations in order; the first failure stops the
/// run and gives its error and the operation's index.
pub open spec fn ops_run(p: ResourceControlPolicy, t: ResourceTracker, ops: Seq<Operation>, os: Seq<Outcome>, n: nat) -> Result<(ResourceTracker, Seq<OutgoingMessage>, Seq<EmittedEvent>), (ExecutionError, nat)>
    decreases n,
{
    if n == 0 {
        Ok((t, seq![], seq![]))
    } else {
        match ops_run(p, t, ops, os, (n - 1) as nat) {
            Err(x) => Err(x),
            Ok((t1, ms, es)) => match op_step(p, t1, ops[n - 1], os[n - 1]) {
                Err(e) => Err((e, (n - 1) as nat)),
                Ok((t2, ms2, es2)) => Ok((t2, ms + ms2, es + es2)),
            },
        }
    }
}

proof fn lemma_ops_error_stays(p: ResourceControlPolicy, t: ResourceTracker, ops: Seq<Operation>, os: Seq<Outcome>, m: nat, n: nat)
    requires
        m <= n,
        ops_run(p, t, ops, os, m) is Err,
    ensures
        ops_run(p, t, ops, os, n) == ops_run(p, t, ops, os, m),
    decreases n - m,
{
    if n > m {
        lemma_ops_error_stays(p, t, ops, os, m, (n - 1) as nat);
    }
}

/// Resolving the first `n` bundles in order: the tracker, messages and events
/// afterwards, and the action of each bundle.
pub open spec fn bundles_run(p: ResourceControlPolicy, t: ResourceTracker, bs: Seq<MessageBundle>, os: Seq<Vec<Outcome>>, n: nat) -> (ResourceTracker, Seq<OutgoingMessage>, Seq<EmittedEvent>, Seq<MessageAction>)
    decreases n,
{
    if n == 0 {
        (t, seq![], seq![], seq![])
    } else {
        let prev = bundles_run(p, t, bs, os, (n - 1) as nat);
        let b = bs[n - 1];
        let s = bundle_run(p, prev.0, b.origin, b.messages@, os[n - 1]@, b.messages@.len());
        (s.0, prev.1 + s.1, prev.2 + s.2, prev.3.push(bundle_action(p, prev.0, b, os[n - 1]@)))
    }
}

/// Whether the sandbox's results match the block: one for each message of
/// each bundle and one for each operation.
pub open spec fn inputs_match(bs: Seq<MessageBundle>, bos: Seq<Vec<Outcome>>, ops: Seq<Operation>, oos: Seq<Outcome>) -> bool {
    &&& bos.len() == bs.len()
    &&& forall|j: int| 0 <= j < bs.len() ==> (#[trigger] bos[j])@.len() == bs[j].messages@.len()
    &&& oos.len() == ops.len()
}

/// What executing a block decides, before its events get their indices: the
/// tracker, messages, events and actions, or why the block is refused.
pub open spec fn block_result(p: ResourceControlPolicy, c: ChainState, bs: Seq<MessageBundle>, bos: Seq<Vec<Outcome>>, ops: Seq<Operation>, oos: Seq<Outcome>) -> Result<(ResourceTracker, Seq<OutgoingMessage>, Seq<EmittedEvent>, Seq<MessageAction>), ChainError> {
    if !inputs_match(bs, bos, ops, oos) {
        Err(ChainError::MalformedBlock)
    } else if c.next_height == u64::MAX {
        Err(ChainError::HeightOverflow)
    } else {
        let b = bundles_run(p, ResourceTracker { fuel: 0, balance: c.balance }, bs, bos, bs.len());
        match ops_run(p, b.0, ops, oos, ops.len()) {
            Err((e, i)) => Err(ChainError::ExecutionError(e, ChainExecutionContext::Operation(i as u64))),
            Ok((t, ms, es)) => Ok((t, b.1 + ms, b.2 + es, b.3)),
        }
    }
}

/// Whether two states agree on everything but the inbox.
pub open spec fn same_but_inbox(a: ChainState, b: ChainState) -> bool {
    &&& a.chain_id == b.chain_id
    &&& a.next_height == b.next_height
    &&& a.balance == b.balance
    &&& a.cursors == b.cursors
    &&& a.log == b.log
    &&& a.subscriptions == b.subscriptions
    &&& a.modules == b.modules
    &&& a.applications == b.applications
}

/// What executing a block does: `before` and `after` are the chain's states
/// around it (the inbox aside), and `r` its result.
pub open spec fn block_post(p: ResourceControlPolicy, before: ChainState, after: ChainState, bs: Seq<MessageBundle>, bos: Seq<Vec<Outcome>>, ops: Seq<Operation>, oos: Seq<Outcome>, r: Result<BlockOutcome, ChainError>) -> bool {
    match block_result(p, before, bs, bos, ops, oos) {
        Err(e) => r == Err::<BlockOutcome, ChainError>(e) && same_but_inbox(after, before),
        Ok((t, ms, raw, acts)) => if !events_fit(before.log, raw) {
            r == Err::<BlockOutcome, ChainError>(ChainError::ExecutionError(ExecutionError::ArithmeticOverflow, ChainExecutionContext::Block))
                && same_but_inbox(after, before)
        } else {
            &&& r is Ok
            &&& r->Ok_0.height == before.next_height
            &&& r->Ok_0.fuel == t.fuel
            &&& r->Ok_0.messages@ == ms
            &&& r->Ok_0.events@ == indexed(before.log, raw)
            &&& r->Ok_0.incoming_bundles@.len() == bs.len()
            &&& forall|j: int| 0 <= j < bs.len() ==> {
                &&& (#[trigger] r->Ok_0.incoming_bundles@[j]).action == acts[j]
                &&& r->Ok_0.incoming_bundles@[j].bundle.origin == bs[j].origin
                &&& r->Ok_0.incoming_bundles@[j].bundle.height == bs[j].height
                &&& r->Ok_0.incoming_bundles@[j].bundle.messages@ == bs[j].messages@
            }
            &&& after.balance == t.balance
            &&& after.next_height == before.next_height + 1
            &&& after.log.events@ == before.log.events@ + r->Ok_0.events@
            &&& forall|id| #[trigger] after.log.next_index(id) == before.log.next_index(id) + count_on(raw, id, raw.len())
            &&& after.chain_id == before.chain_id
            &&& after.cursors == before.cursors
            &&& after.subscriptions == before.subscriptions
            &&& after.modules == before.modules
            &&& r->Ok_0.applications@ == created_applications(ops, before.chain_id, before.next_height, ops.len())
            &&& after.applications@ == before.applications@ + r->Ok_0.applications@
        },
    }
}

/// The position of the first of the first `n` cursors for `origin`, or -1.
pub open spec fn cursor_pos(s: Seq<InboxCursor>, origin: u64, n: nat) -> int
    decreases n,
{
    if n == 0 {
        -1
    } else if cursor_pos(s, origin, (n - 1) as nat) >= 0 {
        cursor_pos(s, origin, (n - 1) as nat)
    } else if s[n - 1].origin == origin {
        n - 1
    } else {
        -1
    }
}

/// The height of the last bundle taken from `origin`, if any was.
pub open spec fn last_height_in(s: Seq<InboxCursor>, origin: u64) -> Option<u64> {
    let pos = cursor_pos(s, origin, s.len());
    if pos >= 0 { Some(s[pos].last_height) } else { None }
}

/// Whether a bundle of `height` from an origin whose last bundle taken is
/// `last` is taken: bundles are taken at most once each, in increasing height.
pub open spec fn takes_bundle(last: Option<u64>, height: u64) -> bool {
    match last {
        None => true,
        Some(h) => height > h,
    }
}

proof fn lemma_cursor_pos_range(s: Seq<InboxCursor>, origin: u64, n: nat)
    requires
        n <= s.len(),
    ensures
        -1 <= cursor_pos(s, origin, n) < n,
        cursor_pos(s, origin, n) >= 0 ==> s[cursor_pos(s, origin, n)].origin == origin,
        cursor_pos(s, origin, n) == -1 ==> forall|j: int| 0 <= j < n ==> s[j].origin != origin,
    decreases n,
{
    if n > 0 {
        lemma_cursor_pos_range(s, origin, (n - 1) as nat);
    }
}

proof fn lemma_cursor_pos_frame(s: Seq<InboxCursor>, t: Seq<InboxCursor>, origin: u64, n: nat)
    requires
        n <= s.len(),
        n <= t.len(),
        forall|j: int| 0 <= j < n ==> s[j].origin == t[j].origin,
    ensures
        cursor_pos(s, origin, n) == cursor_pos(t, origin, n),
    decreases n,
{
    if n > 0 {
        lemma_cursor_pos_frame(s, t, origin, (n - 1) as nat);
    }
}

proof fn lemma_cursor_pos_stable(s: Seq<InboxCursor>, origin: u64, m: nat, n: nat)
    requires
        m <= n <= s.len(),
        cursor_pos(s, origin, m) >= 0,
    ensures
        cursor_pos(s, origin, n) == cursor_pos(s, origin, m),
    decreases n - m,
{
    if n > m {
        lemma_cursor_pos_stable(s, origin, m, (n - 1) as nat);
    }
}

/// The messages of `s` addressed to `d`, in order, as they stand in a bundle.
pub open spec fn for_recipient(s: Seq<OutgoingMessage>, d: u64) -> Seq<PostedMessage>
    decreases s.len(),
{
    if s.len() == 0 {
        seq![]
    } else {
        let prev = for_recipient(s.drop_last(), d);
        if s.last().destination == d {
            prev.push(PostedMessage { kind: s.last().kind, grant: s.last().grant, message: s.last().message })
        } else {
            prev
        }
    }
}

/// The number of messages of a bundle in the bouncing form.
pub open spec fn count_posted_bouncing(s: Seq<PostedMessage>) -> nat
    decreases s.len(),
{
    if s.len() == 0 {
        0
    } else {
        count_posted_bouncing(s.drop_last()) + if s.last().kind == MessageKind::Bouncing { 1nat } else { 0nat }
    }
}

/// An operation never raises the balance, and an application operation that
/// uses no fuel and sends no grant leaves it as it was.
pub proof fn lemma_operation_balance(p: ResourceControlPolicy, t: ResourceTracker, op: Operation, o: Outcome)
    ensures
        op_step(p, t, op, o) matches Ok((t2, _, _)) ==> t2.balance <= t.balance,
        (op is User && o is Success && o->Success_0.fuel == 0 && total_grant(o->Success_0.messages@) == 0
            && op_step(p, t, op, o) is Ok)
            ==> op_step(p, t, op, o)->Ok_0.0.balance == t.balance,
{
    if let Outcome::Success(e) = o {
        lemma_fuel_charge_monotonic(p, t.fuel as int, t.balance as int, 0, e.fuel as int);
        lemma_total_grant_nonneg(e.messages@);
    }
}

proof fn lemma_for_recipient_bounces(s: Seq<OutgoingMessage>, d: u64)
    requires
        forall|i: int| 0 <= i < s.len() && #[trigger] s[i].kind == MessageKind::Bouncing ==> s[i].destination == d,
    ensures
        count_posted_bouncing(for_recipient(s, d)) == count_bouncing(s),
    decreases s.len(),
{
    if s.len() > 0 {
        let prefix = s.drop_last();
        assert forall|i: int| 0 <= i < prefix.len() && #[trigger] prefix[i].kind == MessageKind::Bouncing
            implies prefix[i].destination == d by {
            assert(prefix[i] == s[i]);
        }
        lemma_for_recipient_bounces(prefix, d);
        if s.last().kind == MessageKind::Bouncing {
            assert(s[s.len() - 1].kind == MessageKind::Bouncing);
        }
        let prev = for_recipient(prefix, d);
        if s.last().destination == d {
            let q = PostedMessage { kind: s.last().kind, grant: s.last().grant, message: s.last().message };
            assert(prev.push(q).drop_last() == prev);
        }
    }
}

/// The bundle that a recipient sends back to a bundle's origin after
/// resolving it holds exactly one bouncing message for each tracking message
/// of the bundle that failed, and none for a simple message that failed.
pub proof fn lemma_bounces_reach_origin(p: ResourceControlPolicy, t: ResourceTracker, origin: u64, msgs: Seq<PostedMessage>, os: Seq<Outcome>)
    requires
        os.len() == msgs.len(),
    ensures
        count_posted_bouncing(for_recipient(bundle_run(p, t, origin, msgs, os, msgs.len()).1, origin))
            == failed_tracking(p, t, origin, msgs, os, msgs.len()),
{
    lemma_bundle_bounces(p, t, origin, msgs, os, msgs.len());
    lemma_for_recipient_bounces(bundle_run(p, t, origin, msgs, os, msgs.len()).1, origin);
}

/// Executing a block is deterministic: from the same state, with the same
/// bundles, operations and sandbox results, two executions either both refuse
/// the block with the same error, or both send the same messages, emit the same
/// events, decide the same actions and leave the same balance and height.
pub proof fn lemma_block_determinism(
    p: ResourceControlPolicy,
    before: ChainState,
    after1: ChainState,
    after2: ChainState,
    bs: Seq<MessageBundle>,
    bos: Seq<Vec<Outcome>>,
    ops: Seq<Operation>,
    oos: Seq<Outcome>,
    r1: Result<BlockOutcome, ChainError>,
    r2: Result<BlockOutcome, ChainError>,
)
    requires
        block_post(p, before, after1, bs, bos, ops, oos, r1),
        block_post(p, before, after2, bs, bos, ops, oos, r2),
    ensures
        r1 is Err <==> r2 is Err,
        r1 is Err ==> r1 == r2 && same_but_inbox(after1, after2),
        r1 is Ok ==> {
            &&& r1->Ok_0.messages@ == r2->Ok_0.messages@
            &&& r1->Ok_0.events@ == r2->Ok_0.events@
            &&& r1->Ok_0.height == r2->Ok_0.height
            &&& r1->Ok_0.fuel == r2->Ok_0.fuel
            &&& r1->Ok_0.incoming_bundles@.len() == r2->Ok_0.incoming_bundles@.len()
            &&& forall|j: int| 0 <= j < r1->Ok_0.incoming_bundles@.len()
                ==> (#[trigger] r1->Ok_0.incoming_bundles@[j]).action == r2->Ok_0.incoming_bundles@[j].action
            &&& after1.balance == after2.balance
            &&& after1.next_height == after2.next_height
            &&& after1.log.events@ == after2.log.events@
            &&& r1->Ok_0.applications@ == r2->Ok_0.applications@
        },
{
    if r1 is Ok {
        assert forall|j: int| 0 <= j < r1->Ok_0.incoming_bundles@.len()
            implies (#[trigger] r1->Ok_0.incoming_bundles@[j]).action == r2->Ok_0.incoming_bundles@[j].action by {
            assert(r2->Ok_0.incoming_bundles@[j].action == block_result(p, before, bs, bos, ops, oos)->Ok_0.3[j]);
        }
    }
}

/// Returns a bundle with the same origin, height and messages.
pub fn copy_bundle(b: &MessageBundle) -> (r: MessageBundle)
    ensures
        r.origin == b.origin,
        r.height == b.height,
        r.messages@ == b.messages@,
{
    let mut messages: Vec<PostedMessage> = Vec::new();
    append_all(&mut messages, &b.messages);
    MessageBundle { origin: b.origin, height: b.height, messages }
}

/// Executes one operation, with `o` the sandbox's result where it is an
/// application's. On failure the tracker is unchanged.
pub fn execute_operation(
    policy: &ResourceControlPolicy,
    tracker: &mut ResourceTracker,
    op: Operation,
    o: &Outcome,
    out: &mut Vec<OutgoingMessage>,
    events: &mut Vec<EmittedEvent>,
) -> (r: Result<(), ExecutionError>)
    ensures
        match op_step(*policy, *old(tracker), op, *o) {
            Ok((t, ms, es)) => r is Ok && *final(tracker) == t && final(out)@ == old(out)@ + ms
                && final(events)@ == old(events)@ + es,
            Err(e) => r == Err::<(), ExecutionError>(e) && *final(tracker) == *old(tracker),
        },
{
    match op {
        Operation::System(SystemOperation::Transfer { recipient, amount }) => {
            if amount > tracker.balance {
                return Err(ExecutionError::InsufficientBalance);
            }
            tracker.balance = tracker.balance - amount;
            out.push(OutgoingMessage {
                destination: recipient,
                kind: MessageKind::Tracking,
                grant: 0,
                message: Message::System(SystemMessage::Credit { amount }),
            });
            assert(old(events)@ + seq![] == old(events)@);
            Ok(())
        },
        _ => match o {
            Outcome::Trap => Err(ExecutionError::UserApplicationTrap),
            Outcome::Success(e) => {
                if !has_no_bouncing(&e.messages) {
                    return Err(ExecutionError::UserApplicationTrap);
                }
                let saved = *tracker;
                match tracker.charge_fuel(policy, e.fuel, 0) {
                    Err(x) => Err(x),
                    Ok(_) => {
                        let grants = match sum_grants(&e.messages) {
                            Some(g) => g,
                            None => {
                                *tracker = saved;
                                return Err(ExecutionError::InsufficientBalance);
                            },
                        };
                        if grants > tracker.balance {
                            *tracker = saved;
                            return Err(ExecutionError::InsufficientBalance);
                        }
                        tracker.balance = tracker.balance - grants;
                        append_all(out, &e.messages);
                        append_all(events, &e.events);
                        Ok(())
                    },
                }
            },
        },
    }
}

/// Returns the applications that the operations of a block at `height` create.
fn collect_applications(ops: &Vec<Operation>, creator: u64, height: u64) -> (r: Vec<ApplicationId>)
    ensures
        r@ == created_applications(ops@, creator, height, ops@.len()),
{
    let mut created: Vec<ApplicationId> = Vec::new();
    let mut i: usize = 0;
    while i < ops.len()
        invariant
            i <= ops@.len(),
            created@ == created_applications(ops@, creator, height, i as nat),
        decreases ops@.len() - i,
    {
        if let Operation::System(SystemOperation::CreateApplication { module_id }) = ops[i] {
            created.push(ApplicationId { module_id, creator, height, index: i as u64 });
        }
        i = i + 1;
    }
    created
}

/// Checks that the sandbox's results match the block.
fn check_inputs(bundles: &Vec<MessageBundle>, bundle_outcomes: &Vec<Vec<Outcome>>, operations: &Vec<Operation>, op_outcomes: &Vec<Outcome>) -> (r: bool)
    ensures
        r == inputs_match(bundles@, bundle_outcomes@, operations@, op_outcomes@),
{
    if bundle_outcomes.len() != bundles.len() || op_outcomes.len() != operations.len() {
        return false;
    }
    let mut j: usize = 0;
    while j < bundles.len()
        invariant
            j <= bundles@.len(),
            bundle_outcomes@.len() == bundles@.len(),
            forall|k: int| 0 <= k < j ==> (#[trigger] bundle_outcomes@[k])@.len() == bundles@[k].messages@.len(),
        decreases bundles@.len() - j,
    {
        if bundle_outcomes[j].len() != bundles[j].messages.len() {
            return false;
        }
        j = j + 1;
    }
    true
}

/// Returns the bundle that a block of `origin` at `height` sends to
/// `recipient`: the block's messages to it, in order.
pub fn outgoing_bundle(messages: &Vec<OutgoingMessage>, origin: u64, height: u64, recipient: u64) -> (r: MessageBundle)
    ensures
        r.origin == origin,
        r.height == height,
        r.messages@ == for_recipient(messages@, recipient),
{
    let mut posted: Vec<PostedMessage> = Vec::new();
    let mut i: usize = 0;
    while i < messages.len()
        invariant
            i <= messages@.len(),
            posted@ == for_recipient(messages@.subrange(0, i as int), recipient),
        decreases messages@.len() - i,
    {
        let m = messages[i];
        if m.destination == recipient {
            posted.push(PostedMessage { kind: m.kind, grant: m.grant, message: m.message });
        }
        i = i + 1;
        assert(messages@.subrange(0, i as int).drop_last() == messages@.subrange(0, (i - 1) as int));
    }
    assert(messages@.subrange(0, messages@.len() as int) == messages@);
    MessageBundle { origin, height, messages: posted }
}

impl ChainState {
    /// A new chain with a balance and nothing else.
    pub fn new(chain_id: u64, balance: u128) -> (r: Self)
        ensures
            r.chain_id == chain_id,
            r.balance == balance,
            r.next_height == 0,
            r.inbox@.len() == 0,
            r.cursors@.len() == 0,
            r.log.counters@.len() == 0,
            r.log.events@.len() == 0,
            r.subscriptions.entries@.len() == 0,
            r.modules@.len() == 0,
            r.applications@.len() == 0,
    {
        ChainState {
            chain_id,
            next_height: 0,
            balance,
            inbox: Vec::new(),
            cursors: Vec::new(),
            log: EventLog::new(),
            subscriptions: Subscriptions::new(),
            modules: Vec::new(),
            applications: Vec::new(),
        }
    }

    /// Executes a block: first the bundles in order, each resolved with its
    /// action, then the operations in order. `bundle_outcomes[j][i]` and
    /// `op_outcomes[i]` are the sandbox's results for the applications' messages
    /// and operations. A failing operation refuses the whole block; a failing
    /// message is isolated. A refused block changes nothing.
    pub fn execute_block(
        &mut self,
        policy: &ResourceControlPolicy,
        bundles: &Vec<MessageBundle>,
        bundle_outcomes: &Vec<Vec<Outcome>>,
        operations: &Vec<Operation>,
        op_outcomes: &Vec<Outcome>,
    ) -> (r: Result<BlockOutcome, ChainError>)
        ensures
            block_post(*policy, *old(self), *final(self), bundles@, bundle_outcomes@, operations@, op_outcomes@, r),
            final(self).inbox == old(self).inbox,
    {
        if !check_inputs(bundles, bundle_outcomes, operations, op_outcomes) {
            return Err(ChainError::MalformedBlock);
        }
        if self.next_height == u64::MAX {
            return Err(ChainError::HeightOverflow);
        }
        let ghost bs = bundles@;
        let ghost bos = bundle_outcomes@;
        let mut tracker = ResourceTracker { fuel: 0, balance: self.balance };
        let ghost t0 = tracker;
        let mut out: Vec<OutgoingMessage> = Vec::new();
        let mut raw: Vec<EmittedEvent> = Vec::new();
        let mut incoming: Vec<IncomingBundle> = Vec::new();
        let mut j: usize = 0;
        while j < bundles.len()
            invariant
                *self == *old(self),
                self.next_height != u64::MAX,
                j <= bs.len(),
                bs == bundles@,
                bos == bundle_outcomes@,
                inputs_match(bs, bos, operations@, op_outcomes@),
                t0 == (ResourceTracker { fuel: 0, balance: self.balance }),
                ({
                    let s = bundles_run(*policy, t0, bs, bos, j as nat);
                    &&& tracker == s.0
                    &&& out@ == s.1
                    &&& raw@ == s.2
                    &&& incoming@.len() == j
                    &&& forall|k: int| 0 <= k < j ==> {
                        &&& (#[trigger] incoming@[k]).action == s.3[k]
                        &&& incoming@[k].bundle.origin == bs[k].origin
                        &&& incoming@[k].bundle.height == bs[k].height
                        &&& incoming@[k].bundle.messages@ == bs[k].messages@
                    }
                    &&& s.3.len() == j
                }),
            decreases bs.len() - j,
        {
            let ghost prev = bundles_run(*policy, t0, bs, bos, j as nat);
            let ghost before = incoming@;
            let b = copy_bundle(&bundles[j]);
            assert(bos[j as int]@.len() == bs[j as int].messages@.len());
            let ib = execute_bundle(policy, &mut tracker, b, &bundle_outcomes[j], &mut out, &mut raw);
            incoming.push(ib);
            j = j + 1;
            proof {
                let s = bundles_run(*policy, t0, bs, bos, j as nat);
                assert(s.3 == prev.3.push(bundle_action(*policy, prev.0, bs[j - 1], bos[j - 1]@)));
                assert forall|k: int| 0 <= k < j implies {
                    &&& (#[trigger] incoming@[k]).action == s.3[k]
                    &&& incoming@[k].bundle.origin == bs[k].origin
                    &&& incoming@[k].bundle.height == bs[k].height
                    &&& incoming@[k].bundle.messages@ == bs[k].messages@
                } by {
                    if k < j - 1 {
                        assert(incoming@[k] == before[k]);
                    }
                }
            }
        }
        let ghost b_end = bundles_run(*policy, t0, bs, bos, bs.len());
        let mut i: usize = 0;
        while i < operations.len()
            invariant
                *self == *old(self),
                self.next_height != u64::MAX,
                inputs_match(bs, bos, operations@, op_outcomes@),
                t0 == (ResourceTracker { fuel: 0, balance: self.balance }),
                bs == bundles@,
                bos == bundle_outcomes@,
                i <= operations@.len(),
                op_outcomes@.len() == operations@.len(),
                b_end == bundles_run(*policy, t0, bs, bos, bs.len()),
                ops_run(*policy, b_end.0, operations@, op_outcomes@, i as nat) matches Ok((t, ms, es))
                    && tracker == t && out@ == b_end.1 + ms && raw@ == b_end.2 + es,
            decreases operations@.len() - i,
        {
            let ghost out_before = out@;
            let ghost raw_before = raw@;
            match execute_operation(policy, &mut tracker, operations[i], &op_outcomes[i], &mut out, &mut raw) {
                Err(e) => {
                    proof {
                        assert(ops_run(*policy, b_end.0, operations@, op_outcomes@, (i + 1) as nat) == Err::<(ResourceTracker, Seq<OutgoingMessage>, Seq<EmittedEvent>), (ExecutionError, nat)>((e, i as nat)));
                        lemma_ops_error_stays(*policy, b_end.0, operations@, op_outcomes@, (i + 1) as nat, operations@.len());
                    }
                    return Err(ChainError::ExecutionError(e, ChainExecutionContext::Operation(i as u64)));
                },
                Ok(()) => {},
            }
            proof {
                let ms = ops_run(*policy, b_end.0, operations@, op_outcomes@, i as nat)->Ok_0.1;
                let es = ops_run(*policy, b_end.0, operations@, op_outcomes@, i as nat)->Ok_0.2;
                let st = op_step(*policy, ops_run(*policy, b_end.0, operations@, op_outcomes@, i as nat)->Ok_0.0, operations@[i as int], op_outcomes@[i as int]);
                assert(out@ == b_end.1 + (ms + st->Ok_0.1));
                assert(raw@ == b_end.2 + (es + st->Ok_0.2));
            }
            i = i + 1;
        }
        let events = match self.log.emit_all(&raw) {
            Err(_) => {
                return Err(ChainError::ExecutionError(ExecutionError::ArithmeticOverflow, ChainExecutionContext::Block));
            },
            Ok(events) => events,
        };
        let height = self.next_height;
        let applications = collect_applications(operations, self.chain_id, height);
        append_all(&mut self.applications, &applications);
        self.balance = tracker.balance;
        self.next_height = height + 1;
        Ok(BlockOutcome { height, incoming_bundles: incoming, messages: out, events, fuel: tracker.fuel, applications })
    }

    /// Publishes a module made of a contract and a service bytecode, as one
    /// block. The size checks and the fee come first: a refused module changes
    /// nothing, the balance included.
    pub fn publish_module(&mut self, policy: &ResourceControlPolicy, contract: &Vec<u8>, service: &Vec<u8>) -> (r: Result<ModuleId, ChainError>)
        ensures
            match publish_fee(*policy, contract@.len() as int, service@.len() as int) {
                Err(e) => r == Err::<ModuleId, ChainError>(ChainError::ExecutionError(e, ChainExecutionContext::Block))
                    && *final(self) == *old(self),
                Ok(fee) => if old(self).next_height == u64::MAX {
                    r == Err::<ModuleId, ChainError>(ChainError::HeightOverflow) && *final(self) == *old(self)
                } else if fee > old(self).balance {
                    r == Err::<ModuleId, ChainError>(ChainError::ExecutionError(ExecutionError::InsufficientBalance, ChainExecutionContext::Block))
                        && *final(self) == *old(self)
                } else {
                    &&& r == Ok::<ModuleId, ChainError>(ModuleId { publisher: old(self).chain_id, height: old(self).next_height })
                    &&& final(self).balance == old(self).balance - fee
                    &&& final(self).next_height == old(self).next_height + 1
                    &&& final(self).modules@ == old(self).modules@.push(r->Ok_0)
                    &&& final(self).chain_id == old(self).chain_id
                    &&& final(self).inbox == old(self).inbox
                    &&& final(self).cursors == old(self).cursors
                    &&& final(self).log == old(self).log
                    &&& final(self).subscriptions == old(self).subscriptions
                    &&& final(self).applications == old(self).applications
                },
            },
    {
        let fee = match policy.publish_fee(contract.len() as u64, service.len() as u64) {
            Err(e) => return Err(ChainError::ExecutionError(e, ChainExecutionContext::Block)),
            Ok(fee) => fee,
        };
        if self.next_height == u64::MAX {
            return Err(ChainError::HeightOverflow);
        }
        if fee > self.balance {
            return Err(ChainError::ExecutionError(ExecutionError::InsufficientBalance, ChainExecutionContext::Block));
        }
        let id = ModuleId { publisher: self.chain_id, height: self.next_height };
        self.balance = self.balance - fee;
        self.next_height = self.next_height + 1;
        self.modules.push(id);
        Ok(id)
    }

    /// The height of the last bundle taken from `origin`, if any was.
    pub open spec fn last_height(&self, origin: u64) -> Option<u64> {
        last_height_in(self.cursors@, origin)
    }

    /// Takes a bundle into the inbox unless a bundle of the same or a later
    /// height from the same origin was taken before, and returns whether it was.
    pub fn receive_bundle(&mut self, bundle: MessageBundle) -> (taken: bool)
        ensures
            taken == takes_bundle(old(self).last_height(bundle.origin), bundle.height),
            taken ==> final(self).inbox@ == old(self).inbox@.push(bundle)
                && final(self).last_height(bundle.origin) == Some(bundle.height),
            !taken ==> final(self).inbox == old(self).inbox && final(self).cursors == old(self).cursors,
            forall|o: u64| o != bundle.origin ==> #[trigger] final(self).last_height(o) == old(self).last_height(o),
            final(self).chain_id == old(self).chain_id,
            final(self).next_height == old(self).next_height,
            final(self).balance == old(self).balance,
            final(self).log == old(self).log,
            final(self).subscriptions == old(self).subscriptions,
            final(self).modules == old(self).modules,
            final(self).applications == old(self).applications,
    {
        let origin = bundle.origin;
        let height = bundle.height;
        let ghost s0 = self.cursors@;
        proof {
            lemma_cursor_pos_range(s0, origin, s0.len());
        }
        let mut i: usize = 0;
        while i < self.cursors.len()
            invariant
                *self == *old(self),
                s0 == self.cursors@,
                origin == bundle.origin,
                height == bundle.height,
                i <= s0.len(),
                cursor_pos(s0, origin, i as nat) == -1,
            decreases s0.len() - i,
        {
            if self.cursors[i].origin == origin {
                proof {
                    assert(cursor_pos(s0, origin, (i + 1) as nat) == i);
                    lemma_cursor_pos_stable(s0, origin, (i + 1) as nat, s0.len());
                }
                if height <= self.cursors[i].last_height {
                    return false;
                }
                self.cursors.set(i, InboxCursor { origin, last_height: height });
                self.inbox.push(bundle);
                proof {
                    let s1 = self.cursors@;
                    lemma_cursor_pos_frame(s0, s1, origin, s0.len());
                    assert forall|o: u64| o != origin implies #[trigger] last_height_in(s1, o) == last_height_in(s0, o) by {
                        lemma_cursor_pos_frame(s0, s1, o, s0.len());
                        lemma_cursor_pos_range(s0, o, s0.len());
                    }
                }
                return true;
            }
            i = i + 1;
        }
        self.cursors.push(InboxCursor { origin, last_height: height });
        self.inbox.push(bundle);
        proof {
            let s1 = self.cursors@;
            lemma_cursor_pos_frame(s0, s1, origin, s0.len());
            assert(cursor_pos(s1, origin, s1.len()) == s0.len());
            assert forall|o: u64| o != origin implies #[trigger] last_height_in(s1, o) == last_height_in(s0, o) by {
                lemma_cursor_pos_frame(s0, s1, o, s0.len());
                lemma_cursor_pos_range(s0, o, s0.len());
            }
        }
        true
    }

    /// Executes every bundle of the inbox, in order, as one block with no
    /// operation; `outcomes[j][i]` is the sandbox's result for the `i`-th message
    /// of the `j`-th bundle. The inbox is emptied if the block is executed, and
    /// kept as it was if it is refused.
    pub fn process_inbox(&mut self, policy: &ResourceControlPolicy, outcomes: &Vec<Vec<Outcome>>) -> (r: Result<BlockOutcome, ChainError>)
        ensures
            block_post(*policy, *old(self), *final(self), old(self).inbox@, outcomes@, seq![], seq![], r),
            r is Ok ==> final(self).inbox@.len() == 0,
            r is Err ==> *final(self) == *old(self),
    {
        let mut inbox: Vec<MessageBundle> = Vec::new();
        core::mem::swap(&mut self.inbox, &mut inbox);
        let ops: Vec<Operation> = Vec::new();
        let op_outcomes: Vec<Outcome> = Vec::new();
        let r = self.execute_block(policy, &inbox, outcomes, &ops, &op_outcomes);
        assert(ops@ =~= Seq::<Operation>::empty());
        assert(op_outcomes@ =~= Seq::<Outcome>::empty());
        if r.is_err() {
            core::mem::swap(&mut self.inbox, &mut inbox);
        }
        r
    }
}

} // verus!
