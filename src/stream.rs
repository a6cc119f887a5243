//! Event streams: the publisher side gives each event of a stream the next
//! index, and the subscriber side takes events of the streams it follows in
//! index order, from the point of subscription on, until it unsubscribes.

use vstd::prelude::*;
use crate::message::{EmittedEvent, StreamId, append_all};
use crate::policy::ExecutionError;

verus! {

/// An event with its place in its stream.
#[derive(Clone, Copy, Debug, PartialEq, Eq, Structural)]
pub struct Event {
    /// The stream.
    pub stream_id: StreamId,
    /// The event's index in the stream: the number of events emitted on it before.
    pub index: u32,
    /// The opaque value.
    pub value: u64,
}

/// The next index of one stream.
#[derive(Clone, Copy, Debug, PartialEq, Eq, Structural)]
pub struct StreamCounter {
    /// The stream.
    pub stream_id: StreamId,
    /// The index the next event on it gets.
    pub next_index: u32,
}

/// A chain's interest in one stream of another chain.
#[derive(Clone, Copy, Debug, PartialEq, Eq, Structural)]
pub struct Subscription {
    /// The chain that publishes the stream.
    pub publisher: u64,
    /// The stream.
    pub stream_id: StreamId,
    /// The index of the next event to take.
    pub next_index: u32,
    /// Whether events are taken at all.
    pub active: bool,
}

/// The events a chain has emitted, and the next index of each of its streams.
#[derive(Clone, Debug)]
pub struct EventLog {
    /// One counter for each stream that has had an event.
    pub counters: Vec<StreamCounter>,
    /// All events, in emission order.
    pub events: Vec<Event>,
}

/// The streams of other chains that a chain follows.
#[derive(Clone, Debug)]
pub struct Subscriptions {
    /// At most one entry for each publisher and stream.
    pub entries: Vec<Subscription>,
}

/// The position of the first of the first `n` counters for `id`, or -1.
pub open spec fn counter_pos(s: Seq<StreamCounter>, id: StreamId, n: nat) -> int
    decreases n,
{
    if n == 0 {
        -1
    } else if counter_pos(s, id, (n - 1) as nat) >= 0 {
        counter_pos(s, id, (n - 1) as nat)
    } else if s[n - 1].stream_id == id {
        n - 1
    } else {
        -1
    }
}

/// The position of the first of the first `n` entries for `publisher` and `id`, or -1.
pub open spec fn entry_pos(s: Seq<Subscription>, publisher: u64, id: StreamId, n: nat) -> int
    decreases n,
{
    if n == 0 {
        -1
    } else if entry_pos(s, publisher, id, (n - 1) as nat) >= 0 {
        entry_pos(s, publisher, id, (n - 1) as nat)
    } else if s[n - 1].publisher == publisher && s[n - 1].stream_id == id {
        n - 1
    } else {
        -1
    }
}

proof fn lemma_counter_pos_range(s: Seq<StreamCounter>, id: StreamId, n: nat)
    requires
        n <= s.len(),
    ensures
        -1 <= counter_pos(s, id, n) < n,
        counter_pos(s, id, n) >= 0 ==> s[counter_pos(s, id, n)].stream_id == id,
        counter_pos(s, id, n) == -1 ==> forall|j: int| 0 <= j < n ==> s[j].stream_id != id,
    decreases n,
{
    if n > 0 {
        lemma_counter_pos_range(s, id, (n - 1) as nat);
    }
}

proof fn lemma_counter_pos_frame(s: Seq<StreamCounter>, t: Seq<StreamCounter>, id: StreamId, n: nat)
    requires
        n <= s.len(),
        n <= t.len(),
        forall|j: int| 0 <= j < n ==> s[j].stream_id == t[j].stream_id,
    ensures
        counter_pos(s, id, n) == counter_pos(t, id, n),
    decreases n,
{
    if n > 0 {
        lemma_counter_pos_frame(s, t, id, (n - 1) as nat);
    }
}

proof fn lemma_entry_pos_range(s: Seq<Subscription>, publisher: u64, id: StreamId, n: nat)
    requires
        n <= s.len(),
    ensures
        -1 <= entry_pos(s, publisher, id, n) < n,
        entry_pos(s, publisher, id, n) >= 0 ==> s[entry_pos(s, publisher, id, n)].publisher == publisher
            && s[entry_pos(s, publisher, id, n)].stream_id == id,
        entry_pos(s, publisher, id, n) == -1 ==> forall|j: int| 0 <= j < n
            ==> !(s[j].publisher == publisher && s[j].stream_id == id),
    decreases n,
{
    if n > 0 {
        lemma_entry_pos_range(s, publisher, id, (n - 1) as nat);
    }
}

proof fn lemma_entry_pos_frame(s: Seq<Subscription>, t: Seq<Subscription>, publisher: u64, id: StreamId, n: nat)
    requires
        n <= s.len(),
        n <= t.len(),
        forall|j: int| 0 <= j < n ==> s[j].publisher == t[j].publisher && s[j].stream_id == t[j].stream_id,
    ensures
        entry_pos(s, publisher, id, n) == entry_pos(t, publisher, id, n),
    decreases n,
{
    if n > 0 {
        lemma_entry_pos_frame(s, t, publisher, id, (n - 1) as nat);
    }
}

/// The index the next event on `id` gets in a log with these counters.
pub open spec fn next_index_in(s: Seq<StreamCounter>, id: StreamId) -> nat {
    let pos = counter_pos(s, id, s.len());
    if pos >= 0 { s[pos].next_index as nat } else { 0 }
}

/// The subscription to `id` of `publisher`, if there is one.
pub open spec fn subscription_in(s: Seq<Subscription>, publisher: u64, id: StreamId) -> Option<Subscription> {
    let pos = entry_pos(s, publisher, id, s.len());
    if pos >= 0 { Some(s[pos]) } else { None }
}

/// Taking the events of `id` in order, from a subscription whose next index is
/// `next`: an event is taken when it is the next one expected. Returns the next
/// index afterwards and the events taken.
pub open spec fn take_events(id: StreamId, next: nat, events: Seq<Event>, n: nat) -> (nat, Seq<Event>)
    decreases n,
{
    if n == 0 {
        (next, seq![])
    } else {
        let prev = take_events(id, next, events, (n - 1) as nat);
        let e = events[n - 1];
        if e.stream_id == id && e.index == prev.0 && prev.0 < u32::MAX {
            (prev.0 + 1, prev.1.push(e))
        } else {
            prev
        }
    }
}

impl EventLog {
    /// An empty log.
    pub fn new() -> (r: Self)
        ensures
            r.counters@.len() == 0,
            r.events@.len() == 0,
    {
        EventLog { counters: Vec::new(), events: Vec::new() }
    }

    /// The index the next event on `id` gets.
    pub open spec fn next_index(&self, id: StreamId) -> nat {
        next_index_in(self.counters@, id)
    }

    /// Returns the index the next event on `stream_id` gets.
    pub fn next_index_of(&self, stream_id: StreamId) -> (r: u32)
        ensures
            r == self.next_index(stream_id),
    {
        let mut i: usize = 0;
        while i < self.counters.len()
            invariant
                i <= self.counters@.len(),
                counter_pos(self.counters@, stream_id, i as nat) == -1,
            decreases self.counters@.len() - i,
        {
            if self.counters[i].stream_id == stream_id {
                proof {
                    assert(counter_pos(self.counters@, stream_id, (i + 1) as nat) == i);
                    lemma_counter_pos_stable(self.counters@, stream_id, (i + 1) as nat, self.counters@.len());
                }
                return self.counters[i].next_index;
            }
            i = i + 1;
        }
        0
    }

    /// Emits an event: it gets the stream's next index, and that index moves on
    /// by exactly one while every other stream's stays. Fails, changing nothing,
    /// where the index would not fit.
    pub fn emit(&mut self, e: EmittedEvent) -> (r: Result<Event, ExecutionError>)
        ensures
            old(self).next_index(e.stream_id) < u32::MAX ==> r == Ok::<Event, ExecutionError>(Event {
                stream_id: e.stream_id,
                index: old(self).next_index(e.stream_id) as u32,
                value: e.value,
            }),
            old(self).next_index(e.stream_id) < u32::MAX ==> final(self).events@ == old(self).events@.push(
                Event { stream_id: e.stream_id, index: old(self).next_index(e.stream_id) as u32, value: e.value },
            ),
            old(self).next_index(e.stream_id) < u32::MAX ==> final(self).next_index(e.stream_id) == old(
                self,
            ).next_index(e.stream_id) + 1,
            forall|other: StreamId| other != e.stream_id ==> final(self).next_index(other) == old(self).next_index(other),
            old(self).next_index(e.stream_id) >= u32::MAX ==> r == Err::<Event, ExecutionError>(
                ExecutionError::ArithmeticOverflow,
            ) && final(self).events@ == old(self).events@ && final(self).counters@ == old(self).counters@,
    {
        let id = e.stream_id;
        let ghost s0 = self.counters@;
        proof {
            lemma_counter_pos_range(s0, id, s0.len());
        }
        let mut i: usize = 0;
        while i < self.counters.len()
            invariant
                *self == *old(self),
                s0 == old(self).counters@,
                id == e.stream_id,
                i <= s0.len(),
                counter_pos(s0, id, i as nat) == -1,
            decreases s0.len() - i,
        {
            if self.counters[i].stream_id == id {
                let index = self.counters[i].next_index;
                proof {
                    assert(counter_pos(s0, id, (i + 1) as nat) == i);
                    lemma_counter_pos_stable(s0, id, (i + 1) as nat, s0.len());
                }
                if index == u32::MAX {
                    return Err(ExecutionError::ArithmeticOverflow);
                }
                self.counters.set(i, StreamCounter { stream_id: id, next_index: index + 1 });
                let event = Event { stream_id: id, index, value: e.value };
                self.events.push(event);
                proof {
                    let s1 = self.counters@;
                    assert forall|other: StreamId| other != id implies next_index_in(s1, other) == next_index_in(s0, other) by {
                        lemma_counter_pos_frame(s0, s1, other, s0.len());
                        lemma_counter_pos_range(s0, other, s0.len());
                    }
                    lemma_counter_pos_frame(s0, s1, id, s0.len());
                }
                return Ok(event);
            }
            i = i + 1;
        }
        self.counters.push(StreamCounter { stream_id: id, next_index: 1 });
        let event = Event { stream_id: id, index: 0, value: e.value };
        self.events.push(event);
        proof {
            let s1 = self.counters@;
            assert(counter_pos(s1, id, s0.len()) == -1) by {
                lemma_counter_pos_frame(s0, s1, id, s0.len());
            }
            assert forall|other: StreamId| other != id implies next_index_in(s1, other) == next_index_in(s0, other) by {
                lemma_counter_pos_frame(s0, s1, other, s0.len());
                lemma_counter_pos_range(s0, other, s0.len());
            }
        }
        Ok(event)
    }
}

/// What unsubscribing leaves of a subscription: it stays, and takes nothing.
pub open spec fn after_unsubscribe(sub: Option<Subscription>) -> Option<Subscription> {
    match sub {
        Some(s) => Some(Subscription { active: false, ..s }),
        None => None,
    }
}

/// What subscribing from index `from` makes of a subscription: an active one
/// keeps its place, any other starts at `from`.
pub open spec fn after_subscribe(sub: Option<Subscription>, publisher: u64, id: StreamId, from: u32) -> Option<Subscription> {
    match sub {
        Some(s) => if s.active {
            Some(s)
        } else {
            Some(Subscription { next_index: from, active: true, ..s })
        },
        None => Some(Subscription { publisher, stream_id: id, next_index: from, active: true }),
    }
}

/// The events of `id` that a subscription takes from `events`.
pub open spec fn delivered(sub: Option<Subscription>, id: StreamId, events: Seq<Event>) -> Seq<Event> {
    match sub {
        Some(s) => if s.active {
            take_events(id, s.next_index as nat, events, events.len()).1
        } else {
            seq![]
        },
        None => seq![],
    }
}

/// What receiving `events` makes of a subscription.
pub open spec fn after_receive(sub: Option<Subscription>, id: StreamId, events: Seq<Event>) -> Option<Subscription> {
    match sub {
        Some(s) => if s.active {
            Some(Subscription { next_index: take_events(id, s.next_index as nat, events, events.len()).0 as u32, ..s })
        } else {
            Some(s)
        },
        None => None,
    }
}

proof fn lemma_take_events(id: StreamId, next: nat, events: Seq<Event>, n: nat)
    requires
        n <= events.len(),
        next <= u32::MAX,
    ensures
        take_events(id, next, events, n).0 == next + take_events(id, next, events, n).1.len(),
        take_events(id, next, events, n).0 <= u32::MAX,
        forall|i: int| 0 <= i < take_events(id, next, events, n).1.len() ==> {
            &&& (#[trigger] take_events(id, next, events, n).1[i]).stream_id == id
            &&& take_events(id, next, events, n).1[i].index == next + i
        },
    decreases n,
{
    if n > 0 {
        lemma_take_events(id, next, events, (n - 1) as nat);
    }
}

/// The events a subscription takes from a stream are exactly those of indices
/// `next`, `next + 1`, ... in turn, where `next` is its index when receiving
/// starts, and its index moves past them; an unsubscribed chain takes nothing.
pub proof fn lemma_stream_delivery(sub: Option<Subscription>, id: StreamId, events: Seq<Event>)
    ensures
        sub is Some && sub->Some_0.active ==> {
            let d = delivered(sub, id, events);
            &&& forall|i: int| 0 <= i < d.len() ==> (#[trigger] d[i]).stream_id == id
                && d[i].index == sub->Some_0.next_index + i
            &&& after_receive(sub, id, events) is Some
            &&& after_receive(sub, id, events)->Some_0.next_index == sub->Some_0.next_index + d.len()
        },
        delivered(after_unsubscribe(sub), id, events).len() == 0,
        !(sub is Some && sub->Some_0.active) ==> delivered(sub, id, events).len() == 0,
{
    if let Some(s) = sub {
        if s.active {
            lemma_take_events(id, s.next_index as nat, events, events.len());
        }
    }
}

impl Subscriptions {
    /// No subscriptions.
    pub fn new() -> (r: Self)
        ensures
            r.entries@.len() == 0,
    {
        Subscriptions { entries: Vec::new() }
    }

    /// The subscription to `id` of `publisher`, if there is one.
    pub open spec fn lookup(&self, publisher: u64, id: StreamId) -> Option<Subscription> {
        subscription_in(self.entries@, publisher, id)
    }

    /// Returns the position of the subscription to `id` of `publisher`.
    fn find(&self, publisher: u64, id: StreamId) -> (r: Option<usize>)
        ensures
            match r {
                Some(k) => k < self.entries@.len() && entry_pos(self.entries@, publisher, id, self.entries@.len()) == k
                    && self.entries@[k as int].publisher == publisher && self.entries@[k as int].stream_id == id,
                None => entry_pos(self.entries@, publisher, id, self.entries@.len()) == -1,
            },
    {
        let mut i: usize = 0;
        while i < self.entries.len()
            invariant
                i <= self.entries@.len(),
                entry_pos(self.entries@, publisher, id, i as nat) == -1,
            decreases self.entries@.len() - i,
        {
            if self.entries[i].publisher == publisher && self.entries[i].stream_id == id {
                proof {
                    assert(entry_pos(self.entries@, publisher, id, (i + 1) as nat) == i);
                    lemma_entry_pos_stable(self.entries@, publisher, id, (i + 1) as nat, self.entries@.len());
                }
                return Some(i);
            }
            i = i + 1;
        }
        None
    }

    /// Returns the subscription to `stream_id` of `publisher`, if there is one.
    pub fn get(&self, publisher: u64, stream_id: StreamId) -> (r: Option<Subscription>)
        ensures
            r == self.lookup(publisher, stream_id),
    {
        match self.find(publisher, stream_id) {
            Some(k) => Some(self.entries[k]),
            None => None,
        }
    }

    /// Replaces the entry at `k` by one with the same publisher and stream.
    fn replace(&mut self, k: usize, sub: Subscription)
        requires
            k < old(self).entries@.len(),
            sub.publisher == old(self).entries@[k as int].publisher,
            sub.stream_id == old(self).entries@[k as int].stream_id,
            entry_pos(old(self).entries@, sub.publisher, sub.stream_id, old(self).entries@.len()) == k,
        ensures
            final(self).lookup(sub.publisher, sub.stream_id) == Some(sub),
            forall|p: u64, id: StreamId| !(p == sub.publisher && id == sub.stream_id)
                ==> final(self).lookup(p, id) == old(self).lookup(p, id),
    {
        let ghost s0 = self.entries@;
        self.entries.set(k, sub);
        proof {
            let s1 = self.entries@;
            lemma_entry_pos_frame(s0, s1, sub.publisher, sub.stream_id, s0.len());
            assert forall|p: u64, id: StreamId| !(p == sub.publisher && id == sub.stream_id)
                implies subscription_in(s1, p, id) == subscription_in(s0, p, id) by {
                lemma_entry_pos_frame(s0, s1, p, id, s0.len());
                lemma_entry_pos_range(s0, p, id, s0.len());
            }
        }
    }

    /// Subscribes to `stream_id` of `publisher`, taking events from index
    /// `from` on; a subscription that is active already keeps its place.
    pub fn subscribe(&mut self, publisher: u64, stream_id: StreamId, from: u32)
        ensures
            final(self).lookup(publisher, stream_id) == after_subscribe(old(self).lookup(publisher, stream_id), publisher, stream_id, from),
            forall|p: u64, id: StreamId| !(p == publisher && id == stream_id)
                ==> final(self).lookup(p, id) == old(self).lookup(p, id),
    {
        match self.find(publisher, stream_id) {
            Some(k) => {
                let s = self.entries[k];
                if !s.active {
                    self.replace(k, Subscription { next_index: from, active: true, ..s });
                }
            },
            None => {
                let ghost s0 = self.entries@;
                let sub = Subscription { publisher, stream_id, next_index: from, active: true };
                self.entries.push(sub);
                proof {
                    let s1 = self.entries@;
                    lemma_entry_pos_frame(s0, s1, publisher, stream_id, s0.len());
                    assert(entry_pos(s1, publisher, stream_id, s1.len()) == s0.len());
                    assert forall|p: u64, id: StreamId| !(p == publisher && id == stream_id)
                        implies subscription_in(s1, p, id) == subscription_in(s0, p, id) by {
                        lemma_entry_pos_frame(s0, s1, p, id, s0.len());
                        lemma_entry_pos_range(s0, p, id, s0.len());
                    }
                }
            },
        }
    }

    /// Unsubscribes from `stream_id` of `publisher`: no event of it is taken any more.
    pub fn unsubscribe(&mut self, publisher: u64, stream_id: StreamId)
        ensures
            final(self).lookup(publisher, stream_id) == after_unsubscribe(old(self).lookup(publisher, stream_id)),
            forall|p: u64, id: StreamId| !(p == publisher && id == stream_id)
                ==> final(self).lookup(p, id) == old(self).lookup(p, id),
    {
        if let Some(k) = self.find(publisher, stream_id) {
            let s = self.entries[k];
            self.replace(k, Subscription { active: false, ..s });
        }
    }

    /// Receives `events` of `publisher` and returns those of `stream_id` that
    /// the subscription takes, in order.
    pub fn receive(&mut self, publisher: u64, stream_id: StreamId, events: &Vec<Event>) -> (r: Vec<Event>)
        ensures
            r@ == delivered(old(self).lookup(publisher, stream_id), stream_id, events@),
            final(self).lookup(publisher, stream_id) == after_receive(old(self).lookup(publisher, stream_id), stream_id, events@),
            forall|p: u64, id: StreamId| !(p == publisher && id == stream_id)
                ==> final(self).lookup(p, id) == old(self).lookup(p, id),
    {
        let mut taken: Vec<Event> = Vec::new();
        let k = match self.find(publisher, stream_id) {
            Some(k) => k,
            None => return taken,
        };
        let s = self.entries[k];
        if !s.active {
            return taken;
        }
        let mut next = s.next_index;
        let mut i: usize = 0;
        while i < events.len()
            invariant
                i <= events@.len(),
                next == take_events(stream_id, s.next_index as nat, events@, i as nat).0,
                taken@ == take_events(stream_id, s.next_index as nat, events@, i as nat).1,
            decreases events@.len() - i,
        {
            proof {
                lemma_take_events(stream_id, s.next_index as nat, events@, i as nat);
            }
            let e = events[i];
            if e.stream_id == stream_id && e.index == next && next < u32::MAX {
                taken.push(e);
                next = next + 1;
            }
            i = i + 1;
        }
        self.replace(k, Subscription { next_index: next, ..s });
        taken
    }
}

/// The number of the first `n` events that are on `id`.
pub open spec fn count_on(raw: Seq<EmittedEvent>, id: StreamId, n: nat) -> nat
    decreases n,
{
    if n == 0 {
        0
    } else {
        count_on(raw, id, (n - 1) as nat) + if raw[n - 1].stream_id == id { 1nat } else { 0nat }
    }
}

/// Whether every event of `raw`, emitted in order on a log, gets an index that fits.
pub open spec fn events_fit(log: EventLog, raw: Seq<EmittedEvent>) -> bool {
    forall|i: int| 0 <= i < raw.len() ==> #[trigger] log.next_index(raw[i].stream_id) + count_on(raw, raw[i].stream_id, i as nat) < u32::MAX
}

/// The events of `raw` as a log indexes them when they are emitted in order:
/// each gets its stream's next index plus the number of earlier events of
/// `raw` on the same stream.
pub open spec fn indexed(log: EventLog, raw: Seq<EmittedEvent>) -> Seq<Event> {
    Seq::new(raw.len(), |i: int| Event {
        stream_id: raw[i].stream_id,
        index: (log.next_index(raw[i].stream_id) + count_on(raw, raw[i].stream_id, i as nat)) as u32,
        value: raw[i].value,
    })
}

impl EventLog {
    /// Emits the events of `raw` in order, all or none: fails, changing
    /// nothing, where some index would not fit.
    pub fn emit_all(&mut self, raw: &Vec<EmittedEvent>) -> (r: Result<Vec<Event>, ExecutionError>)
        ensures
            events_fit(*old(self), raw@) ==> {
                &&& r is Ok
                &&& r->Ok_0@ == indexed(*old(self), raw@)
                &&& final(self).events@ == old(self).events@ + r->Ok_0@
                &&& forall|id: StreamId| #[trigger] final(self).next_index(id) == old(self).next_index(id) + count_on(raw@, id, raw@.len())
            },
            !events_fit(*old(self), raw@) ==> r == Err::<Vec<Event>, ExecutionError>(ExecutionError::ArithmeticOverflow)
                && *final(self) == *old(self),
    {
        let mut counters: Vec<StreamCounter> = Vec::new();
        append_all(&mut counters, &self.counters);
        let mut temp = EventLog { counters, events: Vec::new() };
        let mut i: usize = 0;
        assert(temp.counters@ =~= self.counters@);
        while i < raw.len()
            invariant
                *self == *old(self),
                i <= raw@.len(),
                forall|id: StreamId| #[trigger] temp.next_index(id) == self.next_index(id) + count_on(raw@, id, i as nat),
                forall|j: int| 0 <= j < i ==> #[trigger] self.next_index(raw@[j].stream_id) + count_on(raw@, raw@[j].stream_id, j as nat) < u32::MAX,
                temp.events@ == indexed(*self, raw@).subrange(0, i as int),
            decreases raw@.len() - i,
        {
            let ghost before = temp;
            let e = raw[i];
            match temp.emit(e) {
                Err(x) => {
                    assert(!events_fit(*self, raw@)) by {
                        assert(self.next_index(raw@[i as int].stream_id) + count_on(raw@, raw@[i as int].stream_id, i as nat) >= u32::MAX);
                    }
                    return Err(x);
                },
                Ok(_) => {},
            }
            proof {
                assert forall|id: StreamId| #[trigger] temp.next_index(id) == self.next_index(id) + count_on(raw@, id, (i + 1) as nat) by {
                    if id != e.stream_id {
                        assert(temp.next_index(id) == before.next_index(id));
                    }
                }
                assert(temp.events@ =~= indexed(*self, raw@).subrange(0, i + 1));
            }
            i = i + 1;
        }
        assert(indexed(*self, raw@).subrange(0, raw@.len() as int) =~= indexed(*self, raw@));
        let ghost done = temp;
        self.counters = temp.counters;
        append_all(&mut self.events, &temp.events);
        assert forall|id: StreamId| #[trigger] self.next_index(id) == old(self).next_index(id) + count_on(raw@, id, raw@.len()) by {
            assert(done.next_index(id) == old(self).next_index(id) + count_on(raw@, id, raw@.len()));
        }
        Ok(temp.events)
    }
}

proof fn lemma_counter_pos_stable(s: Seq<StreamCounter>, id: StreamId, m: nat, n: nat)
    requires
        m <= n <= s.len(),
        counter_pos(s, id, m) >= 0,
    ensures
        counter_pos(s, id, n) == counter_pos(s, id, m),
    decreases n - m,
{
    if n > m {
        lemma_counter_pos_stable(s, id, m, (n - 1) as nat);
    }
}

proof fn lemma_entry_pos_stable(s: Seq<Subscription>, publisher: u64, id: StreamId, m: nat, n: nat)
    requires
        m <= n <= s.len(),
        entry_pos(s, publisher, id, m) >= 0,
    ensures
        entry_pos(s, publisher, id, n) == entry_pos(s, publisher, id, m),
    decreases n - m,
{
    if n > m {
        lemma_entry_pos_stable(s, publisher, id, m, (n - 1) as nat);
    }
}

} // verus!
