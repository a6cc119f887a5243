use linera_messaging::chain::{
    outgoing_bundle, ApplicationId, ChainError, ChainExecutionContext, ChainState, ModuleId, Operation,
    SystemOperation,
};
use linera_messaging::message::{
    Effects, EmittedEvent, Message, MessageAction, MessageKind, OutgoingMessage, Outcome,
    StreamId, SystemMessage,
};
use linera_messaging::policy::{ExecutionError, ResourceControlPolicy};

fn policy() -> ResourceControlPolicy {
    ResourceControlPolicy {
        wasm_fuel_unit: 2,
        blob_read: 10,
        blob_published: 100,
        blob_byte_read: 10,
        blob_byte_published: 1,
        maximum_wasm_fuel_per_block: 30_000,
        maximum_bytecode_size: 100,
        maximum_blob_size: 100,
    }
}

fn success(fuel: u64, messages: Vec<OutgoingMessage>, events: Vec<EmittedEvent>) -> Outcome {
    Outcome::Success(Effects { fuel, messages, events })
}

fn user_op() -> Operation {
    Operation::User { application_id: 7, payload: 5 }
}

#[test]
fn publishing_oversized_bytecode_keeps_balance() {
    let mut chain = ChainState::new(1, 3_000);
    let large = vec![0u8; 101];
    let small: Vec<u8> = vec![];
    assert_eq!(
        chain.publish_module(&policy(), &large, &small),
        Err(ChainError::ExecutionError(ExecutionError::BytecodeTooLarge, ChainExecutionContext::Block))
    );
    assert_eq!(
        chain.publish_module(&policy(), &small, &large),
        Err(ChainError::ExecutionError(ExecutionError::BytecodeTooLarge, ChainExecutionContext::Block))
    );
    assert_eq!(chain.balance, 3_000);
    assert_eq!(chain.next_height, 0);
    assert!(chain.modules.is_empty());
}

#[test]
fn publishing_charges_blob_fees() {
    let mut chain = ChainState::new(1, 3_000);
    let contract = vec![1u8; 40];
    let service = vec![2u8; 60];
    let id = chain.publish_module(&policy(), &contract, &service);
    assert_eq!(id, Ok(ModuleId { publisher: 1, height: 0 }));
    assert_eq!(chain.balance, 3_000 - 2 * 100 - (40 + 60));
    assert_eq!(chain.next_height, 1);
    assert_eq!(chain.modules, vec![ModuleId { publisher: 1, height: 0 }]);
}

#[test]
fn publishing_needs_the_fee() {
    let mut chain = ChainState::new(1, 150);
    let contract = vec![1u8; 10];
    assert_eq!(
        chain.publish_module(&policy(), &contract, &contract),
        Err(ChainError::ExecutionError(ExecutionError::InsufficientBalance, ChainExecutionContext::Block))
    );
    assert_eq!(chain.balance, 150);
}

#[test]
fn publishing_blob_too_large() {
    let mut p = policy();
    p.maximum_blob_size = 50;
    let mut chain = ChainState::new(1, 3_000);
    let contract = vec![1u8; 60];
    assert_eq!(
        chain.publish_module(&p, &contract, &vec![]),
        Err(ChainError::ExecutionError(ExecutionError::BlobTooLarge, ChainExecutionContext::Block))
    );
    assert_eq!(chain.balance, 3_000);
}

#[test]
fn fuel_cap_allows_one_increment_but_not_ten() {
    let mut chain = ChainState::new(1, 1_000_000);
    let one = chain.execute_block(&policy(), &vec![], &vec![], &vec![user_op()], &vec![success(4_000, vec![], vec![])]);
    let one = one.expect("one increment fits");
    assert_eq!(one.fuel, 4_000);
    assert_eq!(chain.balance, 1_000_000 - 4_000 * 2);
    assert_eq!(chain.next_height, 1);

    let ops = vec![user_op(); 10];
    let outcomes: Vec<Outcome> = (0..10).map(|_| success(4_000, vec![], vec![])).collect();
    let ten = chain.execute_block(&policy(), &vec![], &vec![], &ops, &outcomes);
    assert_eq!(
        ten.err(),
        Some(ChainError::ExecutionError(ExecutionError::MaximumFuelExceeded, ChainExecutionContext::Operation(7)))
    );
    assert_eq!(chain.balance, 1_000_000 - 4_000 * 2);
    assert_eq!(chain.next_height, 1);
}

#[test]
fn zero_fuel_operation_keeps_balance() {
    let mut chain = ChainState::new(1, 500);
    let r = chain.execute_block(&policy(), &vec![], &vec![], &vec![user_op()], &vec![success(0, vec![], vec![])]);
    assert!(r.is_ok());
    assert_eq!(chain.balance, 500);
}

#[test]
fn trapping_operation_refuses_block() {
    let mut chain = ChainState::new(1, 500);
    let r = chain.execute_block(&policy(), &vec![], &vec![], &vec![user_op()], &vec![Outcome::Trap]);
    assert_eq!(
        r.err(),
        Some(ChainError::ExecutionError(ExecutionError::UserApplicationTrap, ChainExecutionContext::Operation(0)))
    );
    assert_eq!(chain.next_height, 0);
}

#[test]
fn mismatched_outcomes_are_malformed() {
    let mut chain = ChainState::new(1, 500);
    let r = chain.execute_block(&policy(), &vec![], &vec![], &vec![user_op()], &vec![]);
    assert_eq!(r.err(), Some(ChainError::MalformedBlock));
}

#[test]
fn last_height_cannot_grow() {
    let mut chain = ChainState::new(1, 500);
    chain.next_height = u64::MAX;
    let r = chain.execute_block(&policy(), &vec![], &vec![], &vec![], &vec![]);
    assert_eq!(r.err(), Some(ChainError::HeightOverflow));
}

#[test]
fn transfer_beyond_balance_fails() {
    let mut chain = ChainState::new(1, 50);
    let op = Operation::System(SystemOperation::Transfer { recipient: 2, amount: 51 });
    let r = chain.execute_block(&policy(), &vec![], &vec![], &vec![op], &vec![Outcome::Trap]);
    assert_eq!(
        r.err(),
        Some(ChainError::ExecutionError(ExecutionError::InsufficientBalance, ChainExecutionContext::Operation(0)))
    );
    assert_eq!(chain.balance, 50);
}

#[test]
fn grants_are_paid_by_the_sender() {
    let mut chain = ChainState::new(1, 1_000);
    let sent = OutgoingMessage {
        destination: 2,
        kind: MessageKind::Tracking,
        grant: 300,
        message: Message::User { application_id: 7, payload: 1 },
    };
    let r = chain.execute_block(&policy(), &vec![], &vec![], &vec![user_op()], &vec![success(10, vec![sent], vec![])]);
    assert_eq!(r.unwrap().messages, vec![sent]);
    assert_eq!(chain.balance, 1_000 - 20 - 300);
}

#[test]
fn transfer_credits_recipient() {
    let mut sender = ChainState::new(1, 1_000);
    let mut receiver = ChainState::new(2, 10);
    let op = Operation::System(SystemOperation::Transfer { recipient: 2, amount: 100 });
    let block = sender.execute_block(&policy(), &vec![], &vec![], &vec![op], &vec![Outcome::Trap]).unwrap();
    assert_eq!(sender.balance, 900);
    let bundle = outgoing_bundle(&block.messages, 1, block.height, 2);
    assert_eq!(bundle.messages.len(), 1);
    assert!(receiver.receive_bundle(bundle));
    let processed = receiver.process_inbox(&policy(), &vec![vec![Outcome::Trap]]).unwrap();
    assert_eq!(processed.incoming_bundles.len(), 1);
    assert_eq!(processed.incoming_bundles[0].action, MessageAction::Accept);
    assert!(matches!(
        processed.incoming_bundles[0].bundle.messages[0].message,
        Message::System(SystemMessage::Credit { amount: 100 })
    ));
    assert_eq!(receiver.balance, 110);
    assert!(receiver.inbox.is_empty());
}

#[test]
fn bundles_are_taken_once_in_height_order() {
    let mut chain = ChainState::new(2, 0);
    let messages: Vec<OutgoingMessage> = vec![];
    assert!(chain.receive_bundle(outgoing_bundle(&messages, 1, 3, 2)));
    assert!(!chain.receive_bundle(outgoing_bundle(&messages, 1, 3, 2)));
    assert!(!chain.receive_bundle(outgoing_bundle(&messages, 1, 2, 2)));
    assert!(chain.receive_bundle(outgoing_bundle(&messages, 5, 0, 2)));
    assert!(chain.receive_bundle(outgoing_bundle(&messages, 1, 4, 2)));
    assert_eq!(chain.inbox.len(), 3);
}

#[test]
fn outgoing_bundle_keeps_recipient_messages_in_order() {
    let m = |destination: u64, payload: u64| OutgoingMessage {
        destination,
        kind: MessageKind::Simple,
        grant: 0,
        message: Message::User { application_id: 1, payload },
    };
    let messages = vec![m(2, 1), m(3, 2), m(2, 3)];
    let bundle = outgoing_bundle(&messages, 9, 4, 2);
    assert_eq!(bundle.origin, 9);
    assert_eq!(bundle.height, 4);
    let payloads: Vec<Message> = bundle.messages.iter().map(|p| p.message).collect();
    assert_eq!(
        payloads,
        vec![Message::User { application_id: 1, payload: 1 }, Message::User { application_id: 1, payload: 3 }]
    );
}

#[test]
fn same_block_twice_gives_same_results() {
    let run = || {
        let mut chain = ChainState::new(1, 10_000);
        let sent = OutgoingMessage {
            destination: 2,
            kind: MessageKind::Simple,
            grant: 5,
            message: Message::User { application_id: 7, payload: 3 },
        };
        let event = EmittedEvent { stream_id: StreamId { application_id: 7, stream_name: 1 }, value: 42 };
        let block = chain
            .execute_block(&policy(), &vec![], &vec![], &vec![user_op(), user_op()], &vec![
                success(100, vec![sent], vec![event]),
                success(50, vec![], vec![event]),
            ])
            .unwrap();
        (block.messages, block.events, block.fuel, chain.balance)
    };
    let first = run();
    let second = run();
    assert_eq!(first, second);
    assert_eq!(first.1[0].index, 0);
    assert_eq!(first.1[1].index, 1);
    assert_eq!(first.3, 10_000 - 150 * 2 - 5);
}

#[test]
fn tracked_failure_bounces_back_with_refund() {
    let p = policy();
    let mut creator = ChainState::new(1, 1_000_000_000);
    let mut receiver = ChainState::new(2, 1_000);

    // A tracking message with a grant that succeeds at the receiver.
    let first = OutgoingMessage {
        destination: 2,
        kind: MessageKind::Tracking,
        grant: 1_000_000,
        message: Message::User { application_id: 7, payload: 5 },
    };
    let block = creator.execute_block(&p, &vec![], &vec![], &vec![user_op()], &vec![success(100, vec![first], vec![])]).unwrap();
    assert!(receiver.receive_bundle(outgoing_bundle(&block.messages, 1, block.height, 2)));
    let done = receiver.process_inbox(&p, &vec![vec![success(10, vec![], vec![])]]).unwrap();
    assert_eq!(done.incoming_bundles[0].action, MessageAction::Accept);
    assert_eq!(receiver.balance, 1_000);
    let refund_block = done;

    // A tracking message that fails at the receiver.
    let second = OutgoingMessage {
        destination: 2,
        kind: MessageKind::Tracking,
        grant: 500,
        message: Message::User { application_id: 7, payload: 99 },
    };
    let block = creator.execute_block(&p, &vec![], &vec![], &vec![user_op()], &vec![success(100, vec![second], vec![])]).unwrap();
    assert!(receiver.receive_bundle(outgoing_bundle(&block.messages, 1, block.height, 2)));
    let rejected = receiver.process_inbox(&p, &vec![vec![Outcome::Trap]]).unwrap();
    assert_eq!(rejected.incoming_bundles.len(), 1);
    assert_eq!(rejected.incoming_bundles[0].action, MessageAction::Reject);
    assert_eq!(rejected.incoming_bundles[0].bundle.messages[0].kind, MessageKind::Tracking);
    assert_eq!(rejected.messages.len(), 1);
    assert_eq!(rejected.messages[0].kind, MessageKind::Bouncing);
    assert_eq!(rejected.messages[0].destination, 1);
    assert_eq!(rejected.messages[0].grant, 500);

    // The creator takes both bundles and accepts them.
    let balance_before = creator.balance;
    assert!(creator.receive_bundle(outgoing_bundle(&refund_block.messages, 2, refund_block.height, 1)));
    assert!(creator.receive_bundle(outgoing_bundle(&rejected.messages, 2, rejected.height, 1)));
    let back = creator.process_inbox(&p, &vec![vec![Outcome::Trap], vec![success(0, vec![], vec![])]]).unwrap();
    assert_eq!(back.incoming_bundles.len(), 2);
    assert_eq!(back.incoming_bundles[0].action, MessageAction::Accept);
    assert_eq!(back.incoming_bundles[0].bundle.messages[0].kind, MessageKind::Tracking);
    assert!(matches!(
        back.incoming_bundles[0].bundle.messages[0].message,
        Message::System(SystemMessage::Credit { .. })
    ));
    assert_eq!(back.incoming_bundles[1].action, MessageAction::Accept);
    assert_eq!(back.incoming_bundles[1].bundle.messages[0].kind, MessageKind::Bouncing);
    assert_eq!(
        back.incoming_bundles[1].bundle.messages[0].message,
        Message::User { application_id: 7, payload: 99 }
    );
    assert_eq!(creator.balance, balance_before + (1_000_000 - 20) + 500);
}

#[test]
fn simple_failure_sends_nothing_back() {
    let p = policy();
    let mut sender = ChainState::new(1, 10_000);
    let mut receiver = ChainState::new(2, 1_000);
    let simple = OutgoingMessage {
        destination: 2,
        kind: MessageKind::Simple,
        grant: 0,
        message: Message::User { application_id: 7, payload: 13 },
    };
    let block = sender.execute_block(&p, &vec![], &vec![], &vec![user_op()], &vec![success(0, vec![simple], vec![])]).unwrap();
    assert!(receiver.receive_bundle(outgoing_bundle(&block.messages, 1, block.height, 2)));
    let done = receiver.process_inbox(&p, &vec![vec![Outcome::Trap]]).unwrap();
    assert_eq!(done.incoming_bundles[0].action, MessageAction::Accept);
    assert_eq!(done.incoming_bundles[0].bundle.messages[0].kind, MessageKind::Simple);
    assert!(done.messages.is_empty());
}

#[test]
fn refused_inbox_block_keeps_inbox() {
    let mut receiver = ChainState::new(2, 1_000);
    let messages: Vec<OutgoingMessage> = vec![];
    assert!(receiver.receive_bundle(outgoing_bundle(&messages, 1, 0, 2)));
    let r = receiver.process_inbox(&policy(), &vec![]);
    assert_eq!(r.err(), Some(ChainError::MalformedBlock));
    assert_eq!(receiver.inbox.len(), 1);
}

#[test]
fn creating_an_application_uses_fuel() {
    let mut chain = ChainState::new(1, 1_000_000);
    let module_id = chain.publish_module(&policy(), &vec![1u8; 10], &vec![2u8; 10]).unwrap();
    let balance_after_publish = chain.balance;
    let create = Operation::System(SystemOperation::CreateApplication { module_id });
    let block = chain.execute_block(&policy(), &vec![], &vec![], &vec![user_op(), create], &vec![
        success(0, vec![], vec![]),
        success(1_000, vec![], vec![]),
    ]).unwrap();
    let expected = ApplicationId { module_id, creator: 1, height: 1, index: 1 };
    assert_eq!(block.applications, vec![expected]);
    assert_eq!(chain.applications, vec![expected]);
    assert!(chain.balance < balance_after_publish);
    assert_eq!(chain.balance, balance_after_publish - 2_000);
}

#[test]
fn failed_instantiation_creates_nothing() {
    let mut chain = ChainState::new(1, 1_000_000);
    let module_id = ModuleId { publisher: 5, height: 0 };
    let create = Operation::System(SystemOperation::CreateApplication { module_id });
    let r = chain.execute_block(&policy(), &vec![], &vec![], &vec![create], &vec![Outcome::Trap]);
    assert_eq!(
        r.err(),
        Some(ChainError::ExecutionError(ExecutionError::UserApplicationTrap, ChainExecutionContext::Operation(0)))
    );
    assert!(chain.applications.is_empty());
}
