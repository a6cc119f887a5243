use linera_messaging::chain::{ChainState, Operation};
use linera_messaging::message::{Effects, EmittedEvent, Outcome, StreamId};
use linera_messaging::policy::{ExecutionError, ResourceControlPolicy};
use linera_messaging::stream::{Event, EventLog, Subscription, Subscriptions};

fn posts() -> StreamId {
    StreamId { application_id: 4, stream_name: 1 }
}

fn post(value: u64) -> Outcome {
    Outcome::Success(Effects {
        fuel: 0,
        messages: vec![],
        events: vec![EmittedEvent { stream_id: posts(), value }],
    })
}

#[test]
fn emit_gives_consecutive_indices_per_stream() {
    let mut log = EventLog::new();
    let other = StreamId { application_id: 4, stream_name: 2 };
    let a = log.emit(EmittedEvent { stream_id: posts(), value: 10 }).unwrap();
    let b = log.emit(EmittedEvent { stream_id: other, value: 11 }).unwrap();
    let c = log.emit(EmittedEvent { stream_id: posts(), value: 12 }).unwrap();
    assert_eq!((a.index, b.index, c.index), (0, 0, 1));
    assert_eq!(log.next_index_of(posts()), 2);
    assert_eq!(log.next_index_of(other), 1);
    assert_eq!(log.events, vec![a, b, c]);
}

#[test]
fn emit_refuses_index_overflow() {
    let mut log = EventLog::new();
    log.emit(EmittedEvent { stream_id: posts(), value: 1 }).unwrap();
    log.counters[0].next_index = u32::MAX;
    assert_eq!(log.emit(EmittedEvent { stream_id: posts(), value: 2 }), Err(ExecutionError::ArithmeticOverflow));
    assert_eq!(log.events.len(), 1);
}

#[test]
fn receive_takes_contiguous_indices_only() {
    let mut subs = Subscriptions::new();
    subs.subscribe(9, posts(), 1);
    let e = |index: u32| Event { stream_id: posts(), index, value: index as u64 };
    let other = Event { stream_id: StreamId { application_id: 4, stream_name: 7 }, index: 1, value: 0 };
    let taken = subs.receive(9, posts(), &vec![e(0), e(1), other, e(3), e(2), e(3)]);
    let indices: Vec<u32> = taken.iter().map(|x| x.index).collect();
    assert_eq!(indices, vec![1, 2, 3]);
    assert_eq!(subs.get(9, posts()).unwrap().next_index, 4);
    // Receiving the same events again takes nothing twice.
    assert!(subs.receive(9, posts(), &vec![e(1), e(2), e(3)]).is_empty());
}

#[test]
fn unsubscribed_chain_takes_nothing() {
    let mut subs = Subscriptions::new();
    subs.subscribe(9, posts(), 0);
    subs.unsubscribe(9, posts());
    let events = vec![Event { stream_id: posts(), index: 0, value: 1 }];
    assert!(subs.receive(9, posts(), &events).is_empty());
    assert_eq!(
        subs.get(9, posts()),
        Some(Subscription { publisher: 9, stream_id: posts(), next_index: 0, active: false })
    );
    assert!(Subscriptions::new().receive(9, posts(), &events).is_empty());
}

#[test]
fn subscribing_again_keeps_place() {
    let mut subs = Subscriptions::new();
    subs.subscribe(9, posts(), 3);
    subs.subscribe(9, posts(), 0);
    assert_eq!(subs.get(9, posts()).unwrap().next_index, 3);
    subs.unsubscribe(9, posts());
    subs.subscribe(9, posts(), 5);
    assert_eq!(subs.get(9, posts()).unwrap().next_index, 5);
    assert!(subs.get(8, posts()).is_none());
}

#[test]
fn posts_reach_subscriber_until_unsubscribed() {
    let policy = ResourceControlPolicy::free();
    let op = Operation::User { application_id: 4, payload: 0 };
    let mut sender = ChainState::new(1, 0);
    let mut receiver = ChainState::new(2, 0);
    receiver.subscriptions.subscribe(1, posts(), sender.log.next_index_of(posts()));

    let block = sender.execute_block(&policy, &vec![], &vec![], &vec![op], &vec![post(100)]).unwrap();
    let taken = receiver.subscriptions.receive(1, posts(), &block.events);
    assert_eq!(taken.len(), 1);
    assert_eq!(taken[0].index, 0);
    assert_eq!(taken[0].value, 100);

    receiver.subscriptions.unsubscribe(1, posts());
    let block = sender.execute_block(&policy, &vec![], &vec![], &vec![op], &vec![post(200)]).unwrap();
    assert_eq!(block.events[0].index, 1);
    assert!(receiver.subscriptions.receive(1, posts(), &block.events).is_empty());
}
