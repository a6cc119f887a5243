//! Cross-chain messaging and resource-metered block execution.
//!
//! Chains execute blocks of operations and incoming message bundles under a
//! resource policy, send messages to each other through outboxes and inboxes,
//! and bounce failed tracked messages back to their senders.

pub mod network;
pub mod policy;
pub mod message;
pub mod stream;
pub mod chain;
pub mod dual;
pub mod mock;
pub mod registry;
