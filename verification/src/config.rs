//! What is fixed when an engine is made.

use crate::message_id::{DefaultMessageIdFn, MessageIdFn};
use crate::model::PrivacyMode;
use vstd::prelude::*;

verus! {

/// The retention window of the default configuration, in clock ticks.
pub const DEFAULT_RETENTION: u64 = 120_000;

/// The payload limit of the default configuration, in bytes.
pub const DEFAULT_MAX_PAYLOAD_SIZE: usize = 65_536;

/// The configuration of an engine. It cannot be changed once the engine is
/// made.
#[derive(Debug)]
pub struct Config<F: MessageIdFn> {
    /// How the identity of a message is derived.
    pub identity: F,
    /// How much older than the present a cache entry may be before it is
    /// pruned, in the host's clock ticks.
    pub retention: u64,
    /// The largest payload that may be published, in bytes.
    pub max_payload_size: usize,
    /// Whether published messages carry their publisher and a sequence
    /// number.
    pub privacy: PrivacyMode,
}

impl<F: MessageIdFn> Config<F> {
    /// A configuration with the given values.
    pub fn new(identity: F, retention: u64, max_payload_size: usize, privacy: PrivacyMode) -> (c: Self)
        ensures
            c.identity == identity,
            c.retention == retention,
            c.max_payload_size == max_payload_size,
            c.privacy == privacy,
    {
        Config { identity, retention, max_payload_size, privacy }
    }
}

impl Default for Config<DefaultMessageIdFn> {
    /// The default identity function, the default retention window and
    /// payload limit, and full privacy.
    fn default() -> (c: Self)
        ensures
            c.identity == DefaultMessageIdFn,
            c.retention == DEFAULT_RETENTION,
            c.max_payload_size == DEFAULT_MAX_PAYLOAD_SIZE,
            c.privacy == PrivacyMode::Full,
    {
        Config {
            identity: DefaultMessageIdFn,
            retention: DEFAULT_RETENTION,
            max_payload_size: DEFAULT_MAX_PAYLOAD_SIZE,
            privacy: PrivacyMode::Full,
        }
    }
}

} // verus!
