//! The protocol engine: the state machine, run on real data.

use crate::cache::MessageCache;
use crate::config::Config;
use crate::event::{action_views, event_views, well_addressed, Event, OutboundAction};
use crate::laws::lemma_unsubscribe_is_idempotent;
use crate::message::{Message, MessageView};
use crate::message_id::{MessageId, MessageIdFn};
use crate::model::{announcement, announcement_of_all, enqueue, first_malformed, inbound, initial, outgoing, parse_all, publish_error, relay, EngineState, PrivacyMode, PublishError};
use crate::peer::PeerIdentity;
use crate::rpc::{change_views, decode_message, encode_message, parse_message, wire_views, ChangeView, MalformedMessage, Rpc, SubscriptionChange, WireMessage, WireMessageView};
use crate::table::{peer_views, PeerSubscriptionTable};
use crate::topic::{contains_topic, intersects, topic_position, topic_views, Topic, TopicHash};
use vstd::prelude::*;

verus! {

/// The views of a list of messages, in order.
pub open spec fn message_views(msgs: Seq<Message>) -> Seq<MessageView> {
    Seq::new(msgs.len(), |i: int| msgs[i]@)
}

proof fn lemma_first_malformed_step(wires: Seq<WireMessageView>, k: int)
    requires
        0 <= k < wires.len(),
        first_malformed(wires.take(k)) is None,
    ensures
        first_malformed(wires.take(k + 1)) == (match parse_message(wires[k]) {
            Ok(_) => None::<MalformedMessage>,
            Err(e) => Some(e),
        }),
{
    assert(wires.take(k + 1).drop_last() =~= wires.take(k));
}

proof fn lemma_first_malformed_stays(wires: Seq<WireMessageView>, k: int, e: MalformedMessage)
    requires
        0 <= k <= wires.len(),
        first_malformed(wires.take(k)) == Some(e),
    ensures
        first_malformed(wires) == Some(e),
    decreases wires.len() - k,
{
    if k < wires.len() {
        assert(wires.take(k + 1).drop_last() =~= wires.take(k));
        lemma_first_malformed_stays(wires, k + 1, e);
    } else {
        assert(wires.take(k) =~= wires);
    }
}

/// Reads every message of an envelope, or reports the first that cannot be
/// read.
pub fn decode_all(wires: &Vec<WireMessage>) -> (r: Result<Vec<Message>, MalformedMessage>)
    ensures
        match r {
            Ok(msgs) => first_malformed(wire_views(wires@)) is None && message_views(msgs@)
                == parse_all(wire_views(wires@)),
            Err(e) => first_malformed(wire_views(wires@)) == Some(e),
        },
{
    let ghost w = wire_views(wires@);
    let mut msgs: Vec<Message> = Vec::new();
    let mut i: usize = 0;
    while i < wires.len()
        invariant
            w == wire_views(wires@),
            i <= wires.len(),
            msgs.len() == i,
            first_malformed(w.take(i as int)) is None,
            forall|j: int| 0 <= j < i ==> (#[trigger] msgs[j])@ == parse_message(w[j])->Ok_0,
        decreases wires.len() - i,
    {
        proof {
            lemma_first_malformed_step(w, i as int);
        }
        match decode_message(&wires[i]) {
            Ok(m) => {
                msgs.push(m);
            },
            Err(e) => {
                proof {
                    lemma_first_malformed_stays(w, i + 1, e);
                }
                return Err(e);
            },
        }
        i += 1;
    }
    proof {
        assert(w.take(i as int) =~= w);
        assert(message_views(msgs@) =~= parse_all(w));
    }
    Ok(msgs)
}

/// Queues an envelope, unless it is for nobody.
fn enqueue_action(queue: &mut Vec<OutboundAction>, destinations: Vec<PeerIdentity>, rpc: Rpc)
    requires
        well_addressed(old(queue)@),
        peer_views(destinations@).no_duplicates(),
    ensures
        well_addressed(final(queue)@),
        action_views(final(queue)@) == enqueue(
            action_views(old(queue)@),
            peer_views(destinations@).to_set(),
            rpc@,
        ),
{
    if destinations.len() > 0 {
        proof {
            let v = peer_views(destinations@);
            assert(v[0] == destinations[0]@);
            assert(v.contains(v[0]));
            assert(v.to_set().contains(v[0]));
        }
        let action = OutboundAction { destinations, rpc };
        let ghost before = queue@;
        queue.push(action);
        proof {
            assert(action_views(queue@) =~= action_views(before).push(action@));
        }
    } else {
        proof {
            assert(peer_views(destinations@) =~= Seq::empty());
            assert(peer_views(destinations@).to_set() =~= Set::empty());
        }
    }
}

/// The envelope that announces one subscription change.
fn announcement_rpc(topic: &TopicHash, subscribe: bool) -> (rpc: Rpc)
    ensures
        rpc@ == announcement(topic@, subscribe),
{
    let mut subscriptions: Vec<SubscriptionChange> = Vec::new();
    subscriptions.push(SubscriptionChange { subscribe, topic_id: topic.clone().into_string() });
    let publish: Vec<WireMessage> = Vec::new();
    let rpc = Rpc { subscriptions, publish };
    proof {
        assert(rpc@.subscriptions =~= announcement(topic@, subscribe).subscriptions);
        assert(rpc@.publish =~= announcement(topic@, subscribe).publish);
    }
    rpc
}

/// The envelope that announces a subscription to each of `topics`.
fn announcement_of_all_rpc(topics: &Vec<TopicHash>) -> (rpc: Rpc)
    ensures
        rpc@ == announcement_of_all(topic_views(topics@)),
{
    let mut subscriptions: Vec<SubscriptionChange> = Vec::new();
    let mut i: usize = 0;
    while i < topics.len()
        invariant
            i <= topics.len(),
            subscriptions.len() == i,
            forall|j: int|
                0 <= j < i ==> (#[trigger] subscriptions[j])@ == (ChangeView {
                    subscribe: true,
                    topic: topics[j]@,
                }),
        decreases topics.len() - i,
    {
        subscriptions.push(
            SubscriptionChange { subscribe: true, topic_id: topics[i].clone().into_string() },
        );
        i += 1;
    }
    let publish: Vec<WireMessage> = Vec::new();
    let rpc = Rpc { subscriptions, publish };
    proof {
        let goal = announcement_of_all(topic_views(topics@));
        assert(rpc@.subscriptions =~= goal.subscriptions);
        assert(rpc@.publish =~= goal.publish);
    }
    rpc
}

/// The envelope that carries one message.
fn relay_rpc(message: &Message) -> (rpc: Rpc)
    ensures
        rpc@ == relay(message@),
{
    let subscriptions: Vec<SubscriptionChange> = Vec::new();
    let mut publish: Vec<WireMessage> = Vec::new();
    publish.push(encode_message(message));
    let rpc = Rpc { subscriptions, publish };
    proof {
        assert(rpc@.subscriptions =~= relay(message@).subscriptions);
        assert(rpc@.publish =~= relay(message@).publish);
    }
    rpc
}

/// The protocol engine. It owns the local subscriptions, the table of
/// connected peers and the cache of seen messages; the host drives it one
/// call at a time and drains what it queues.
pub struct ProtocolEngine<F: MessageIdFn> {
    config: Config<F>,
    local_peer: PeerIdentity,
    subscriptions: Vec<TopicHash>,
    peers: PeerSubscriptionTable,
    cache: MessageCache,
    next_sequence_number: u64,
    outbound: Vec<OutboundAction>,
    events: Vec<Event>,
}

impl<F: MessageIdFn> View for ProtocolEngine<F> {
    type V = EngineState;

    closed spec fn view(&self) -> EngineState {
        EngineState {
            subscriptions: topic_views(self.subscriptions@),
            peers: self.peers@,
            cache: self.cache@,
            next_sequence_number: self.next_sequence_number,
            outbound: action_views(self.outbound@),
            events: event_views(self.events@),
        }
    }
}

impl<F: MessageIdFn> ProtocolEngine<F> {
    /// The engine's invariant: no local subscription, no connected peer and
    /// no seen identity is recorded twice; every queued envelope is for
    /// somebody and names no peer twice.
    pub closed spec fn wf(&self) -> bool {
        &&& self.cache.wf()
        &&& self.peers.wf()
        &&& self.cache.retention() == self.config.retention
        &&& topic_views(self.subscriptions@).no_duplicates()
        &&& well_addressed(self.outbound@)
    }

    /// The identity function the engine was made with.
    pub closed spec fn identity(&self) -> F {
        self.config.identity
    }

    /// The identity of the local node.
    pub closed spec fn local_peer(&self) -> Seq<u8> {
        self.local_peer@
    }

    /// Whether published messages carry their publisher and a sequence
    /// number.
    pub closed spec fn privacy(&self) -> PrivacyMode {
        self.config.privacy
    }

    /// The largest payload that may be published, in bytes.
    pub closed spec fn max_payload_size(&self) -> usize {
        self.config.max_payload_size
    }

    /// The retention window of the cache.
    pub closed spec fn retention(&self) -> u64 {
        self.config.retention
    }

    /// The two engines were made with the same configuration for the same
    /// local node.
    pub open spec fn same_settings(&self, other: &Self) -> bool {
        &&& self.identity() == other.identity()
        &&& self.local_peer() == other.local_peer()
        &&& self.privacy() == other.privacy()
        &&& self.max_payload_size() == other.max_payload_size()
        &&& self.retention() == other.retention()
    }

    /// An engine for the local node `local_peer`, with no subscription, no
    /// peer and nothing seen. The first message it publishes gets the
    /// sequence number `first_sequence_number`.
    pub fn new(local_peer: PeerIdentity, config: Config<F>, first_sequence_number: u64) -> (engine:
        Self)
        ensures
            engine.wf(),
            engine@ == initial(first_sequence_number),
            engine.identity() == config.identity,
            engine.local_peer() == local_peer@,
            engine.privacy() == config.privacy,
            engine.max_payload_size() == config.max_payload_size,
            engine.retention() == config.retention,
    {
        let cache = MessageCache::new(config.retention);
        let engine = ProtocolEngine {
            config,
            local_peer,
            subscriptions: Vec::new(),
            peers: PeerSubscriptionTable::new(),
            cache,
            next_sequence_number: first_sequence_number,
            outbound: Vec::new(),
            events: Vec::new(),
        };
        proof {
            let s = initial(first_sequence_number);
            assert(engine@.subscriptions =~= s.subscriptions);
            assert(engine@.outbound =~= s.outbound);
            assert(engine@.events =~= s.events);
        }
        engine
    }

    /// The topics the local node is subscribed to, oldest first.
    pub fn subscriptions(&self) -> (topics: &Vec<TopicHash>)
        ensures
            topic_views(topics@) == self@.subscriptions,
    {
        &self.subscriptions
    }

    /// Whether the local node is subscribed to `topic`.
    pub fn is_subscribed(&self, topic: &Topic) -> (b: bool)
        ensures
            b == self@.subscriptions.contains(topic@),
    {
        let hash = topic.hash();
        contains_topic(&self.subscriptions, &hash)
    }

    /// The table of connected peers.
    pub fn peers(&self) -> (table: &PeerSubscriptionTable)
        requires
            self.wf(),
        ensures
            table.wf(),
            table@ == self@.peers,
    {
        &self.peers
    }

    /// The cache of seen message identities.
    pub fn cache(&self) -> (cache: &MessageCache)
        requires
            self.wf(),
        ensures
            cache.wf(),
            cache@ == self@.cache,
            cache.retention() == self.retention(),
    {
        &self.cache
    }

    /// The configuration the engine was made with.
    pub fn config(&self) -> (config: &Config<F>)
        ensures
            config.identity == self.identity(),
            config.privacy == self.privacy(),
            config.max_payload_size == self.max_payload_size(),
            config.retention == self.retention(),
    {
        &self.config
    }

    /// The identity of the local node.
    pub fn local_peer_id(&self) -> (peer: &PeerIdentity)
        ensures
            peer@ == self.local_peer(),
    {
        &self.local_peer
    }

    /// The sequence number that the next published message gets.
    pub fn next_sequence_number(&self) -> (n: u64)
        ensures
            n == self@.next_sequence_number,
    {
        self.next_sequence_number
    }

    /// Subscribes the local node to `topic` and announces it to every
    /// connected peer. Returns whether the topic is new.
    pub fn subscribe(&mut self, topic: &Topic) -> (fresh: bool)
        requires
            old(self).wf(),
        ensures
            final(self).wf(),
            final(self).same_settings(old(self)),
            fresh == !old(self)@.subscriptions.contains(topic@),
            final(self)@ == crate::model::subscribe(old(self)@, topic@),
    {
        let hash = topic.hash();
        if contains_topic(&self.subscriptions, &hash) {
            return false;
        }
        let destinations = self.peers.peers();
        let rpc = announcement_rpc(&hash, true);
        enqueue_action(&mut self.outbound, destinations, rpc);
        let ghost before = self.subscriptions@;
        self.subscriptions.push(hash);
        proof {
            let v = topic_views(self.subscriptions@);
            let w = topic_views(before);
            assert(v =~= w.push(topic@));
            assert forall|a: int, b: int| 0 <= a < v.len() && 0 <= b < v.len() && a != b implies v[a]
                != v[b] by {
                if a < w.len() && b < w.len() {
                    assert(w[a] != w[b]);
                } else if a < w.len() {
                    assert(w.contains(w[a]));
                } else {
                    assert(w.contains(w[b]));
                }
            }
        }
        true
    }

    /// Unsubscribes the local node from `topic` and announces it to every
    /// connected peer. Returns whether the node was subscribed.
    pub fn unsubscribe(&mut self, topic: &Topic) -> (was_subscribed: bool)
        requires
            old(self).wf(),
        ensures
            final(self).wf(),
            final(self).same_settings(old(self)),
            was_subscribed == old(self)@.subscriptions.contains(topic@),
            final(self)@ == crate::model::unsubscribe(old(self)@, topic@),
    {
        let hash = topic.hash();
        match topic_position(&self.subscriptions, &hash) {
            None => false,
            Some(i) => {
                let ghost before = self.subscriptions@;
                proof {
                    let w = topic_views(before);
                    assert(w[i as int] == topic@);
                    let j = w.index_of(topic@);
                    assert(0 <= j < w.len() && w[j] == topic@);
                    assert(j == i);
                    lemma_unsubscribe_is_idempotent(self@, topic@);
                }
                let destinations = self.peers.peers();
                let rpc = announcement_rpc(&hash, false);
                enqueue_action(&mut self.outbound, destinations, rpc);
                self.subscriptions.remove(i);
                proof {
                    assert(topic_views(self.subscriptions@) =~= topic_views(before).remove(i as int));
                }
                true
            },
        }
    }

    /// Publishes `payload` to `topics` at time `now`, and returns the
    /// identity of the message. The message is recorded as seen and queued
    /// for every connected peer that is subscribed to one of the topics,
    /// whether the local node is subscribed or not; the local application
    /// gets no event for it. Nothing changes where the message is refused.
    pub fn publish(&mut self, topics: Vec<TopicHash>, payload: Vec<u8>, now: u64) -> (r: Result<
        MessageId,
        PublishError,
    >)
        requires
            old(self).wf(),
            old(self).privacy() is Full ==> old(self)@.next_sequence_number < u64::MAX,
        ensures
            final(self).wf(),
            final(self).same_settings(old(self)),
            match publish_error(
                topic_views(topics@),
                payload@.len(),
                old(self).max_payload_size() as nat,
            ) {
                Some(e) => r == Err::<MessageId, PublishError>(e) && final(self)@ == old(self)@,
                None => {
                    let msg = outgoing(
                        old(self).local_peer(),
                        old(self).privacy(),
                        old(self)@.next_sequence_number,
                        topic_views(topics@),
                        payload@,
                    );
                    let id = old(self).identity().spec_message_id(msg);
                    &&& r matches Ok(got)
                    &&& got@ == id
                    &&& final(self)@ == crate::model::publish(
                        old(self)@,
                        old(self).privacy(),
                        msg,
                        id,
                        now,
                    )
                },
            },
    {
        if topics.len() == 0 {
            return Err(PublishError::EmptyTopicSet);
        }
        if payload.len() > self.config.max_payload_size {
            return Err(PublishError::PayloadTooLarge);
        }
        let message = match self.config.privacy {
            PrivacyMode::Full => {
                let number = self.next_sequence_number;
                self.next_sequence_number = number + 1;
                Message::from_parts(Some(self.local_peer.clone()), Some(number), topics, payload)
            },
            PrivacyMode::Anonymous => Message::from_parts(None, None, topics, payload),
        };
        let id = self.config.identity.message_id(&message);
        self.cache.insert(id.clone(), now);
        let destinations = self.peers.interested_peers(message.topics(), None);
        let rpc = relay_rpc(&message);
        enqueue_action(&mut self.outbound, destinations, rpc);
        Ok(id)
    }

    /// Records a new connection and tells the peer every local
    /// subscription. For a peer that is already connected nothing changes.
    pub fn on_connection_established(&mut self, peer: PeerIdentity)
        requires
            old(self).wf(),
        ensures
            final(self).wf(),
            final(self).same_settings(old(self)),
            final(self)@ == crate::model::connect(old(self)@, peer@),
    {
        if self.peers.is_connected(&peer) {
            return ;
        }
        if self.subscriptions.len() > 0 {
            let rpc = announcement_of_all_rpc(&self.subscriptions);
            let mut destinations: Vec<PeerIdentity> = Vec::new();
            destinations.push(peer.clone());
            let action = OutboundAction { destinations, rpc };
            let ghost before = self.outbound@;
            proof {
                let v = peer_views(action.destinations@);
                assert(v =~= seq![peer@]);
                assert(v[0] == peer@);
                assert forall|x: Seq<u8>| v.contains(x) <==> x == peer@ by {
                    if v.contains(x) {
                        let j = choose|j: int| 0 <= j < v.len() && v[j] == x;
                        assert(j == 0);
                    }
                }
                assert(v.to_set() =~= set![peer@]);
            }
            self.outbound.push(action);
            proof {
                assert(action_views(self.outbound@) =~= action_views(before).push(action@));
            }
        }
        self.peers.on_connected(peer);
    }

    /// Forgets a peer whose connection has closed. What is already queued
    /// for it stays queued.
    pub fn on_connection_closed(&mut self, peer: &PeerIdentity)
        requires
            old(self).wf(),
        ensures
            final(self).wf(),
            final(self).same_settings(old(self)),
            final(self)@ == crate::model::disconnect(old(self)@, peer@),
    {
        self.peers.on_disconnected(peer);
    }

    /// Applies one subscription change sent by `from`.
    fn apply_change(&mut self, from: &PeerIdentity, change: &SubscriptionChange)
        requires
            old(self).wf(),
        ensures
            final(self).wf(),
            final(self).same_settings(old(self)),
            final(self)@ == crate::model::apply_change(old(self)@, from@, change@),
    {
        let topic = TopicHash::from_raw(change.topic_id.clone());
        let known = self.peers.apply_subscription_change(from, topic.clone(), change.subscribe);
        if known {
            let event = if change.subscribe {
                Event::Subscribed { peer: from.clone(), topic }
            } else {
                Event::Unsubscribed { peer: from.clone(), topic }
            };
            let ghost before = self.events@;
            self.events.push(event);
            proof {
                assert(event_views(self.events@) =~= event_views(before).push(event@));
            }
        }
    }

    /// Receives one message sent by `from` at time `now`.
    fn receive(&mut self, from: &PeerIdentity, message: &Message, now: u64)
        requires
            old(self).wf(),
        ensures
            final(self).wf(),
            final(self).same_settings(old(self)),
            final(self)@ == crate::model::receive(
                old(self)@,
                from@,
                message@,
                old(self).identity().spec_message_id(message@),
                now,
            ),
    {
        let id = self.config.identity.message_id(message);
        if !self.cache.insert(id, now) {
            return ;
        }
        if intersects(&self.subscriptions, message.topics()) {
            let event = Event::Message { source: from.clone(), message: message.clone() };
            let ghost before = self.events@;
            self.events.push(event);
            proof {
                assert(event_views(self.events@) =~= event_views(before).push(event@));
            }
        }
        let destinations = self.peers.interested_peers(message.topics(), Some(from));
        let rpc = relay_rpc(message);
        enqueue_action(&mut self.outbound, destinations, rpc);
    }

    /// Handles an envelope that `from` has sent, at time `now`. Where one
    /// of its messages cannot be read, that is reported as an event and
    /// nothing else happens. Otherwise its subscription changes are applied,
    /// then each message is received: one seen before is dropped; a new one
    /// is recorded, handed to the application where a local subscription
    /// matches, and queued for every interested peer but `from`.
    pub fn on_inbound_rpc(&mut self, from: &PeerIdentity, rpc: &Rpc, now: u64)
        requires
            old(self).wf(),
        ensures
            final(self).wf(),
            final(self).same_settings(old(self)),
            final(self)@ == inbound(old(self)@, old(self).identity(), from@, rpc@, now),
    {
        let messages = match decode_all(&rpc.publish) {
            Ok(messages) => messages,
            Err(reason) => {
                let event = Event::MalformedRpc { peer: from.clone(), reason };
                let ghost before = self.events@;
                self.events.push(event);
                proof {
                    assert(event_views(self.events@) =~= event_views(before).push(event@));
                }
                return ;
            },
        };
        let ghost start = self@;
        let ghost identity = self.identity();
        let ghost changes = rpc@.subscriptions;
        let mut i: usize = 0;
        while i < rpc.subscriptions.len()
            invariant
                self.wf(),
                self.same_settings(old(self)),
                identity == self.identity(),
                changes == change_views(rpc.subscriptions@),
                i <= rpc.subscriptions.len(),
                self@ == crate::model::apply_changes(start, from@, changes.take(i as int)),
            decreases rpc.subscriptions.len() - i,
        {
            proof {
                assert(changes.take(i + 1).drop_last() =~= changes.take(i as int));
                assert(changes.take(i + 1).last() == rpc.subscriptions[i as int]@);
            }
            self.apply_change(from, &rpc.subscriptions[i]);
            i += 1;
        }
        proof {
            assert(changes.take(i as int) =~= changes);
        }
        let ghost middle = self@;
        let ghost msgs = message_views(messages@);
        let mut k: usize = 0;
        while k < messages.len()
            invariant
                self.wf(),
                self.same_settings(old(self)),
                identity == self.identity(),
                msgs == message_views(messages@),
                k <= messages.len(),
                self@ == crate::model::receive_all(middle, identity, from@, msgs.take(k as int), now),
            decreases messages.len() - k,
        {
            proof {
                assert(msgs.take(k + 1).drop_last() =~= msgs.take(k as int));
                assert(msgs.take(k + 1).last() == messages[k as int]@);
            }
            self.receive(from, &messages[k], now);
            k += 1;
        }
        proof {
            assert(msgs.take(k as int) =~= msgs);
        }
    }

    /// Drops every cache entry that is older than the retention window at
    /// time `now`.
    pub fn prune(&mut self, now: u64)
        requires
            old(self).wf(),
        ensures
            final(self).wf(),
            final(self).same_settings(old(self)),
            final(self)@ == crate::model::prune(old(self)@, now, old(self).retention()),
    {
        self.cache.prune(now);
    }

    /// Hands over the envelopes queued so far, oldest first, and empties the
    /// queue. Every envelope is for somebody, and none names a peer twice.
    pub fn take_outbound(&mut self) -> (actions: Vec<OutboundAction>)
        requires
            old(self).wf(),
        ensures
            final(self).wf(),
            final(self).same_settings(old(self)),
            action_views(actions@) == old(self)@.outbound,
            well_addressed(actions@),
            final(self)@ == (EngineState { outbound: Seq::empty(), ..old(self)@ }),
    {
        let mut actions: Vec<OutboundAction> = Vec::new();
        core::mem::swap(&mut self.outbound, &mut actions);
        proof {
            assert(action_views(self.outbound@) =~= Seq::empty());
        }
        actions
    }

    /// Hands over the events queued so far, oldest first, and empties the
    /// queue.
    pub fn take_events(&mut self) -> (events: Vec<Event>)
        requires
            old(self).wf(),
        ensures
            final(self).wf(),
            final(self).same_settings(old(self)),
            event_views(events@) == old(self)@.events,
            final(self)@ == (EngineState { events: Seq::empty(), ..old(self)@ }),
    {
        let mut events: Vec<Event> = Vec::new();
        core::mem::swap(&mut self.events, &mut events);
        proof {
            assert(event_views(self.events@) =~= Seq::empty());
        }
        events
    }
}

} // verus!
