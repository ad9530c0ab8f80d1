//! The protocol state machine as mathematics: the state, each transition as
//! a function from state to state, and what follows from them.

use crate::cache::retained;
use crate::message::MessageView;
use crate::message_id::MessageIdFn;
use crate::rpc::{parse_message, wire_form, ChangeView, MalformedMessage, RpcView, WireMessageView};
use crate::table::{changed, connected, interested, Subscriptions};
use crate::topic::overlaps;
use vstd::prelude::*;

verus! {

/// Whether a message is published with its publisher and a sequence number.
#[derive(Clone, Copy, Debug, PartialEq, Eq, Structural)]
pub enum PrivacyMode {
    /// The publisher's identity and a sequence number are attached.
    Full,
    /// Neither is attached.
    Anonymous,
}

/// Why a message was not published.
#[derive(Clone, Copy, Debug, PartialEq, Eq, Structural)]
pub enum PublishError {
    /// No topic was given.
    EmptyTopicSet,
    /// The payload is larger than the configured limit.
    PayloadTooLarge,
}

/// Something the application is told.
pub enum EventView {
    /// A connected peer subscribed to a topic.
    Subscribed { peer: Seq<u8>, topic: Seq<char> },
    /// A connected peer unsubscribed from a topic.
    Unsubscribed { peer: Seq<u8>, topic: Seq<char> },
    /// A message on a locally subscribed topic arrived from `source`.
    Message { source: Seq<u8>, message: MessageView },
    /// A peer sent an envelope with a message that cannot be read.
    MalformedRpc { peer: Seq<u8>, reason: MalformedMessage },
}

/// An envelope to transmit, and the peers to transmit it to.
pub struct ActionView {
    pub destinations: Set<Seq<u8>>,
    pub rpc: RpcView,
}

/// The state of the protocol engine.
pub struct EngineState {
    /// The topics the local node is subscribed to, oldest first.
    pub subscriptions: Seq<Seq<char>>,
    /// The connected peers, each with the topics it is subscribed to.
    pub peers: Subscriptions,
    /// The identities of the messages seen, each with the time it was seen.
    pub cache: Map<Seq<u8>, u64>,
    /// The sequence number of the next message published.
    pub next_sequence_number: u64,
    /// The envelopes waiting to be transmitted, oldest first.
    pub outbound: Seq<ActionView>,
    /// The events waiting to be handed to the application, oldest first.
    pub events: Seq<EventView>,
}

/// The state of an engine that has just been made.
pub open spec fn initial(first_sequence_number: u64) -> EngineState {
    EngineState {
        subscriptions: Seq::empty(),
        peers: Map::empty(),
        cache: Map::empty(),
        next_sequence_number: first_sequence_number,
        outbound: Seq::empty(),
        events: Seq::empty(),
    }
}

/// The queue after an envelope for `destinations` was added to it. An
/// envelope for nobody is not queued.
pub open spec fn enqueue(
    outbound: Seq<ActionView>,
    destinations: Set<Seq<u8>>,
    rpc: RpcView,
) -> Seq<ActionView> {
    if destinations =~= Set::empty() {
        outbound
    } else {
        outbound.push(ActionView { destinations, rpc })
    }
}

/// The envelope that announces one subscription change.
pub open spec fn announcement(topic: Seq<char>, subscribe: bool) -> RpcView {
    RpcView { subscriptions: seq![ChangeView { subscribe, topic }], publish: Seq::empty() }
}

/// The envelope that announces a subscription to each of `topics`.
pub open spec fn announcement_of_all(topics: Seq<Seq<char>>) -> RpcView {
    RpcView {
        subscriptions: Seq::new(
            topics.len(),
            |i: int| ChangeView { subscribe: true, topic: topics[i] },
        ),
        publish: Seq::empty(),
    }
}

/// The envelope that carries one message.
pub open spec fn relay(msg: MessageView) -> RpcView {
    RpcView { subscriptions: Seq::empty(), publish: seq![wire_form(msg)] }
}

/// The local node subscribes to `topic`: where it is not subscribed yet, the
/// topic is added and announced to every connected peer.
pub open spec fn subscribe(s: EngineState, topic: Seq<char>) -> EngineState {
    if s.subscriptions.contains(topic) {
        s
    } else {
        EngineState {
            subscriptions: s.subscriptions.push(topic),
            outbound: enqueue(s.outbound, s.peers.dom(), announcement(topic, true)),
            ..s
        }
    }
}

/// The local node unsubscribes from `topic`: where it is subscribed, the
/// topic is removed and the withdrawal announced to every connected peer.
pub open spec fn unsubscribe(s: EngineState, topic: Seq<char>) -> EngineState {
    if s.subscriptions.contains(topic) {
        EngineState {
            subscriptions: s.subscriptions.remove(s.subscriptions.index_of(topic)),
            outbound: enqueue(s.outbound, s.peers.dom(), announcement(topic, false)),
            ..s
        }
    } else {
        s
    }
}

/// A connection to `peer` is established: a new peer is recorded with no
/// subscription and is told every local subscription. For a peer that is
/// already connected nothing changes.
pub open spec fn connect(s: EngineState, peer: Seq<u8>) -> EngineState {
    if s.peers.contains_key(peer) {
        s
    } else {
        EngineState {
            peers: connected(s.peers, peer),
            outbound: if s.subscriptions.len() == 0 {
                s.outbound
            } else {
                s.outbound.push(
                    ActionView {
                        destinations: set![peer],
                        rpc: announcement_of_all(s.subscriptions),
                    },
                )
            },
            ..s
        }
    }
}

/// The connection to `peer` is closed: the peer is forgotten.
pub open spec fn disconnect(s: EngineState, peer: Seq<u8>) -> EngineState {
    EngineState { peers: s.peers.remove(peer), ..s }
}

/// One subscription change sent by `from` is applied. A change from a peer
/// that is not connected is ignored.
pub open spec fn apply_change(s: EngineState, from: Seq<u8>, change: ChangeView) -> EngineState {
    if s.peers.contains_key(from) {
        EngineState {
            peers: changed(s.peers, from, change.topic, change.subscribe),
            events: s.events.push(
                if change.subscribe {
                    EventView::Subscribed { peer: from, topic: change.topic }
                } else {
                    EventView::Unsubscribed { peer: from, topic: change.topic }
                },
            ),
            ..s
        }
    } else {
        s
    }
}

/// The subscription changes sent by `from` are applied, first to last.
pub open spec fn apply_changes(s: EngineState, from: Seq<u8>, changes: Seq<ChangeView>) -> EngineState
    decreases changes.len(),
{
    if changes.len() == 0 {
        s
    } else {
        apply_change(apply_changes(s, from, changes.drop_last()), from, changes.last())
    }
}

/// Whether a message to `topics` is handed to the local application.
pub open spec fn delivers(subscriptions: Seq<Seq<char>>, topics: Seq<Seq<char>>) -> bool {
    overlaps(subscriptions.to_set(), topics)
}

/// A message with identity `id` arrives from `from` at time `now`. One that
/// was seen before is dropped. A new one is recorded, handed to the
/// application where a local subscription matches, and relayed to every
/// interested peer but `from`.
pub open spec fn receive(
    s: EngineState,
    from: Seq<u8>,
    msg: MessageView,
    id: Seq<u8>,
    now: u64,
) -> EngineState {
    if s.cache.contains_key(id) {
        s
    } else {
        EngineState {
            cache: s.cache.insert(id, now),
            events: if delivers(s.subscriptions, msg.topics) {
                s.events.push(EventView::Message { source: from, message: msg })
            } else {
                s.events
            },
            outbound: enqueue(s.outbound, interested(s.peers, msg.topics, Some(from)), relay(msg)),
            ..s
        }
    }
}

/// The messages sent by `from` arrive, first to last.
pub open spec fn receive_all<F: MessageIdFn>(
    s: EngineState,
    identity: F,
    from: Seq<u8>,
    msgs: Seq<MessageView>,
    now: u64,
) -> EngineState
    decreases msgs.len(),
{
    if msgs.len() == 0 {
        s
    } else {
        receive(
            receive_all(s, identity, from, msgs.drop_last(), now),
            from,
            msgs.last(),
            identity.spec_message_id(msgs.last()),
            now,
        )
    }
}

/// The first message of `wires` that cannot be read, if there is one.
pub open spec fn first_malformed(wires: Seq<WireMessageView>) -> Option<MalformedMessage>
    decreases wires.len(),
{
    if wires.len() == 0 {
        None
    } else {
        match first_malformed(wires.drop_last()) {
            Some(e) => Some(e),
            None => match parse_message(wires.last()) {
                Ok(_) => None,
                Err(e) => Some(e),
            },
        }
    }
}

/// The messages that `wires` carry, where each can be read.
pub open spec fn parse_all(wires: Seq<WireMessageView>) -> Seq<MessageView> {
    Seq::new(wires.len(), |i: int| parse_message(wires[i])->Ok_0)
}

/// An envelope arrives from `from` at time `now`. Where one of its messages
/// cannot be read, that is reported and nothing else happens. Otherwise its
/// subscription changes are applied, then its messages received.
pub open spec fn inbound<F: MessageIdFn>(
    s: EngineState,
    identity: F,
    from: Seq<u8>,
    rpc: RpcView,
    now: u64,
) -> EngineState {
    match first_malformed(rpc.publish) {
        Some(reason) => EngineState {
            events: s.events.push(EventView::MalformedRpc { peer: from, reason }),
            ..s
        },
        None => receive_all(
            apply_changes(s, from, rpc.subscriptions),
            identity,
            from,
            parse_all(rpc.publish),
            now,
        ),
    }
}

/// Why a message to `topics` with a payload of `payload_len` bytes is not
/// published, if it is not.
pub open spec fn publish_error(
    topics: Seq<Seq<char>>,
    payload_len: nat,
    max_payload_size: nat,
) -> Option<PublishError> {
    if topics.len() == 0 {
        Some(PublishError::EmptyTopicSet)
    } else if payload_len > max_payload_size {
        Some(PublishError::PayloadTooLarge)
    } else {
        None
    }
}

/// The message that the local node publishes.
pub open spec fn outgoing(
    local_peer: Seq<u8>,
    privacy: PrivacyMode,
    sequence_number: u64,
    topics: Seq<Seq<char>>,
    payload: Seq<u8>,
) -> MessageView {
    MessageView {
        source: if privacy is Full {
            Some(local_peer)
        } else {
            None
        },
        sequence_number: if privacy is Full {
            Some(sequence_number)
        } else {
            None
        },
        topics,
        payload,
    }
}

/// The local node publishes `msg`, whose identity is `id`, at time `now`:
/// the identity is recorded as seen and the message relayed to every
/// interested peer, whether it was seen before or not. The local application
/// gets no event for its own message.
pub open spec fn publish(
    s: EngineState,
    privacy: PrivacyMode,
    msg: MessageView,
    id: Seq<u8>,
    now: u64,
) -> EngineState {
    EngineState {
        cache: if s.cache.contains_key(id) {
            s.cache
        } else {
            s.cache.insert(id, now)
        },
        next_sequence_number: if privacy is Full {
            (s.next_sequence_number + 1) as u64
        } else {
            s.next_sequence_number
        },
        outbound: enqueue(s.outbound, interested(s.peers, msg.topics, None), relay(msg)),
        ..s
    }
}

/// The entries older than the retention window are dropped from the cache.
pub open spec fn prune(s: EngineState, now: u64, retention: u64) -> EngineState {
    EngineState { cache: retained(s.cache, now, retention), ..s }
}

} // verus!
