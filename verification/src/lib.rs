//! Flood-style publish/subscribe: message identity, duplicate suppression,
//! per-peer subscription bookkeeping and the relay decision, as a
//! single-threaded state machine driven by a host session manager.
//!
//! The host delivers connection notifications and inbound envelopes to a
//! [`ProtocolEngine`], asks it to subscribe and publish on behalf of the
//! local application, and drains the envelopes and events it queues. Time
//! is a number of clock ticks that the host passes in; the cache of seen
//! messages shrinks only when the host asks the engine to prune it.

pub mod assoc;
pub mod cache;
pub mod config;
pub mod engine;
pub mod event;
pub mod laws;
pub mod message;
pub mod message_id;
pub mod model;
pub mod peer;
pub mod rpc;
pub mod table;
pub mod topic;

pub use crate::cache::MessageCache;
pub use crate::config::Config;
pub use crate::engine::ProtocolEngine;
pub use crate::event::{Event, OutboundAction};
pub use crate::message::Message;
pub use crate::message_id::{default_message_id_fn, DefaultMessageIdFn, MessageId, MessageIdFn};
pub use crate::model::{PrivacyMode, PublishError};
pub use crate::peer::PeerIdentity;
pub use crate::rpc::{MalformedMessage, Rpc, SubscriptionChange, WireMessage};
pub use crate::table::PeerSubscriptionTable;
pub use crate::topic::{IdentTopic, Topic, TopicHash};
