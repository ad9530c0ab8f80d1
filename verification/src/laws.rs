//! What holds of the state machine, whatever the state and the inputs.

use crate::cache::{expired, retained};
use crate::message::{Message, MessageView};
use crate::message_id::{default_message_id, MessageId, MessageIdFn};
use crate::model::{apply_change, apply_changes, disconnect, first_malformed, inbound, outgoing, parse_all, publish, receive, receive_all, subscribe, unsubscribe, EngineState, EventView, PrivacyMode};
use crate::rpc::{ChangeView, RpcView};
use crate::table::interested;
use crate::topic::overlaps;
use vstd::prelude::*;

verus! {

/// An identity function gives one message one identity: two results for the
/// same message are the same bytes.
pub proof fn lemma_identity_is_deterministic<F: MessageIdFn>(
    identity: F,
    msg: Message,
    first: MessageId,
    second: MessageId,
)
    requires
        first@ == identity.spec_message_id(msg@),
        second@ == identity.spec_message_id(msg@),
    ensures
        first@ == second@,
{
}

/// The default identity reads nothing of a message but its publisher and
/// its sequence number.
pub proof fn lemma_default_identity_reads_source_and_number(a: MessageView, b: MessageView)
    requires
        a.source == b.source,
        a.sequence_number == b.sequence_number,
    ensures
        default_message_id(a) == default_message_id(b),
{
}

/// Any two messages without publisher and without sequence number have the
/// same default identity, whatever their topics and payloads.
pub proof fn lemma_anonymous_messages_collide(a: MessageView, b: MessageView)
    requires
        a.source is None,
        a.sequence_number is None,
        b.source is None,
        b.sequence_number is None,
    ensures
        default_message_id(a) == default_message_id(b),
{
}

/// A message that is new is recorded, yields exactly the one event that its
/// topics call for, and at most one envelope; what was queued before stays.
pub proof fn lemma_first_receipt(s: EngineState, from: Seq<u8>, msg: MessageView, id: Seq<u8>, now: u64)
    requires
        !s.cache.contains_key(id),
    ensures
        ({
            let r = receive(s, from, msg, id, now);
            &&& r.cache.contains_key(id)
            &&& r.events == if overlaps(s.subscriptions.to_set(), msg.topics) {
                s.events.push(EventView::Message { source: from, message: msg })
            } else {
                s.events
            }
            &&& s.outbound.len() <= r.outbound.len() <= s.outbound.len() + 1
            &&& r.outbound.take(s.outbound.len() as int) == s.outbound
        }),
{
    let r = receive(s, from, msg, id, now);
    assert(r.outbound.take(s.outbound.len() as int) =~= s.outbound);
}

/// A message whose identity was received before is dropped, whichever peer
/// sends it and whatever it holds: no event, no relay, no change at all.
pub proof fn lemma_second_receipt_is_dropped(
    s: EngineState,
    first_from: Seq<u8>,
    first: MessageView,
    first_time: u64,
    second_from: Seq<u8>,
    second: MessageView,
    second_time: u64,
    id: Seq<u8>,
)
    ensures
        receive(receive(s, first_from, first, id, first_time), second_from, second, id, second_time)
            == receive(s, first_from, first, id, first_time),
{
}

/// A message that the local node published is dropped when a peer sends it
/// back.
pub proof fn lemma_own_message_is_dropped(
    s: EngineState,
    privacy: PrivacyMode,
    msg: MessageView,
    time: u64,
    from: Seq<u8>,
    echo: MessageView,
    echo_time: u64,
    id: Seq<u8>,
)
    ensures
        receive(publish(s, privacy, msg, id, time), from, echo, id, echo_time) == publish(
            s,
            privacy,
            msg,
            id,
            time,
        ),
{
}

/// Every envelope that the receipt of a message queues goes only to
/// connected peers that are subscribed to one of its topics, and never to
/// the peer that sent the message.
pub proof fn lemma_relay_is_topic_scoped(
    s: EngineState,
    from: Seq<u8>,
    msg: MessageView,
    id: Seq<u8>,
    now: u64,
)
    ensures
        ({
            let r = receive(s, from, msg, id, now);
            forall|k: int, p: Seq<u8>|
                s.outbound.len() <= k < r.outbound.len() && #[trigger] r.outbound[k].destinations.contains(
                    p,
                ) ==> p != from && s.peers.contains_key(p) && overlaps(s.peers[p], msg.topics)
        }),
{
}

/// Received messages leave what was queued before in place, and whatever
/// they queue goes only to connected peers other than the sender.
pub proof fn lemma_messages_never_relay_back<F: MessageIdFn>(
    s: EngineState,
    identity: F,
    from: Seq<u8>,
    msgs: Seq<MessageView>,
    now: u64,
)
    ensures
        ({
            let r = receive_all(s, identity, from, msgs, now);
            &&& s.outbound.len() <= r.outbound.len()
            &&& forall|k: int| 0 <= k < s.outbound.len() ==> #[trigger] r.outbound[k] == s.outbound[k]
            &&& forall|k: int, p: Seq<u8>|
                s.outbound.len() <= k < r.outbound.len() && #[trigger] r.outbound[k].destinations.contains(
                    p,
                ) ==> p != from && s.peers.contains_key(p)
        }),
    decreases msgs.len(),
{
    if msgs.len() > 0 {
        lemma_messages_never_relay_back(s, identity, from, msgs.drop_last(), now);
        lemma_messages_keep_peers(s, identity, from, msgs.drop_last(), now);
        let before = receive_all(s, identity, from, msgs.drop_last(), now);
        lemma_relay_is_topic_scoped(
            before,
            from,
            msgs.last(),
            identity.spec_message_id(msgs.last()),
            now,
        );
    }
}

/// Subscription changes queue no envelope.
pub proof fn lemma_changes_queue_nothing(s: EngineState, from: Seq<u8>, changes: Seq<ChangeView>)
    ensures
        apply_changes(s, from, changes).outbound == s.outbound,
    decreases changes.len(),
{
    if changes.len() > 0 {
        lemma_changes_queue_nothing(s, from, changes.drop_last());
    }
}

/// An envelope leaves what was queued before in place, and whatever it
/// queues goes only to connected peers other than its sender: nothing is
/// ever relayed back to the peer it came from.
pub proof fn lemma_inbound_never_relays_back<F: MessageIdFn>(
    s: EngineState,
    identity: F,
    from: Seq<u8>,
    rpc: RpcView,
    now: u64,
)
    ensures
        ({
            let r = inbound(s, identity, from, rpc, now);
            &&& s.outbound.len() <= r.outbound.len()
            &&& forall|k: int| 0 <= k < s.outbound.len() ==> #[trigger] r.outbound[k] == s.outbound[k]
            &&& forall|k: int, p: Seq<u8>|
                s.outbound.len() <= k < r.outbound.len() && #[trigger] r.outbound[k].destinations.contains(
                    p,
                ) ==> p != from && s.peers.contains_key(p)
        }),
{
    if first_malformed(rpc.publish) is None {
        let middle = apply_changes(s, from, rpc.subscriptions);
        lemma_changes_queue_nothing(s, from, rpc.subscriptions);
        lemma_changes_keep_peers(s, from, rpc.subscriptions);
        lemma_messages_never_relay_back(middle, identity, from, parse_all(rpc.publish), now);
        assert forall|p: Seq<u8>| middle.peers.contains_key(p) implies s.peers.contains_key(p) by {
            assert(middle.peers.dom().contains(p));
        }
    }
}

/// Every envelope that publishing a message queues goes only to connected
/// peers that are subscribed to one of its topics.
pub proof fn lemma_publish_is_topic_scoped(
    s: EngineState,
    privacy: PrivacyMode,
    msg: MessageView,
    id: Seq<u8>,
    now: u64,
)
    ensures
        ({
            let r = publish(s, privacy, msg, id, now);
            forall|k: int, p: Seq<u8>|
                s.outbound.len() <= k < r.outbound.len() && #[trigger] r.outbound[k].destinations.contains(
                    p,
                ) ==> s.peers.contains_key(p) && overlaps(s.peers[p], msg.topics)
        }),
{
}

/// With no connected peer subscribed to any of its topics, publishing a
/// message queues no envelope and no event.
pub proof fn lemma_publish_to_nobody(
    s: EngineState,
    privacy: PrivacyMode,
    msg: MessageView,
    id: Seq<u8>,
    now: u64,
)
    requires
        forall|p: Seq<u8>| s.peers.contains_key(p) ==> !overlaps(#[trigger] s.peers[p], msg.topics),
    ensures
        publish(s, privacy, msg, id, now).outbound == s.outbound,
        publish(s, privacy, msg, id, now).events == s.events,
{
    assert(interested(s.peers, msg.topics, None) =~= Set::empty());
}

/// Subscription changes never connect or disconnect a peer.
pub proof fn lemma_changes_keep_peers(s: EngineState, from: Seq<u8>, changes: Seq<ChangeView>)
    ensures
        apply_changes(s, from, changes).peers.dom() == s.peers.dom(),
    decreases changes.len(),
{
    if changes.len() > 0 {
        lemma_changes_keep_peers(s, from, changes.drop_last());
        let before = apply_changes(s, from, changes.drop_last());
        assert(apply_change(before, from, changes.last()).peers.dom() =~= before.peers.dom());
    }
}

/// Received messages never connect or disconnect a peer, nor change a
/// subscription.
pub proof fn lemma_messages_keep_peers<F: MessageIdFn>(
    s: EngineState,
    identity: F,
    from: Seq<u8>,
    msgs: Seq<MessageView>,
    now: u64,
)
    ensures
        receive_all(s, identity, from, msgs, now).peers == s.peers,
        receive_all(s, identity, from, msgs, now).subscriptions == s.subscriptions,
    decreases msgs.len(),
{
    if msgs.len() > 0 {
        lemma_messages_keep_peers(s, identity, from, msgs.drop_last(), now);
    }
}

/// An envelope, whoever sends it and whatever it holds, never connects or
/// disconnects a peer.
pub proof fn lemma_inbound_keeps_peers<F: MessageIdFn>(
    s: EngineState,
    identity: F,
    from: Seq<u8>,
    rpc: RpcView,
    now: u64,
)
    ensures
        inbound(s, identity, from, rpc, now).peers.dom() == s.peers.dom(),
{
    if first_malformed(rpc.publish) is None {
        lemma_changes_keep_peers(s, from, rpc.subscriptions);
        lemma_messages_keep_peers(
            apply_changes(s, from, rpc.subscriptions),
            identity,
            from,
            parse_all(rpc.publish),
            now,
        );
    }
}

/// A peer whose connection was closed is not in the table, and no envelope
/// delivered in its name afterwards brings it back.
pub proof fn lemma_closed_peer_stays_closed<F: MessageIdFn>(
    s: EngineState,
    identity: F,
    peer: Seq<u8>,
    rpc: RpcView,
    now: u64,
)
    ensures
        !disconnect(s, peer).peers.contains_key(peer),
        !inbound(disconnect(s, peer), identity, peer, rpc, now).peers.contains_key(peer),
{
    lemma_inbound_keeps_peers(disconnect(s, peer), identity, peer, rpc, now);
}

/// A change sent in the name of a peer that is not connected changes
/// nothing.
pub proof fn lemma_changes_of_unknown_peer_are_ignored(
    s: EngineState,
    from: Seq<u8>,
    changes: Seq<ChangeView>,
)
    requires
        !s.peers.contains_key(from),
    ensures
        apply_changes(s, from, changes) == s,
    decreases changes.len(),
{
    if changes.len() > 0 {
        lemma_changes_of_unknown_peer_are_ignored(s, from, changes.drop_last());
    }
}

/// Subscribing queues at most one announcement, and exactly one where a
/// peer is connected and the topic is new; subscribing again to the same
/// topic changes nothing.
pub proof fn lemma_subscribe_is_idempotent(s: EngineState, topic: Seq<char>)
    ensures
        subscribe(subscribe(s, topic), topic) == subscribe(s, topic),
        s.outbound.len() <= subscribe(s, topic).outbound.len() <= s.outbound.len() + 1,
        !s.subscriptions.contains(topic) && (exists|p: Seq<u8>| s.peers.contains_key(p))
            ==> subscribe(s, topic).outbound.len() == s.outbound.len() + 1,
        subscribe(s, topic).subscriptions.contains(topic),
{
    let once = subscribe(s, topic);
    if !s.subscriptions.contains(topic) {
        assert(once.subscriptions[s.subscriptions.len() as int] == topic);
        if exists|p: Seq<u8>| s.peers.contains_key(p) {
            let p = choose|p: Seq<u8>| s.peers.contains_key(p);
            assert(s.peers.dom().contains(p));
        }
    }
}

/// Unsubscribing queues at most one announcement; unsubscribing again from
/// the same topic changes nothing.
pub proof fn lemma_unsubscribe_is_idempotent(s: EngineState, topic: Seq<char>)
    requires
        s.subscriptions.no_duplicates(),
    ensures
        unsubscribe(unsubscribe(s, topic), topic) == unsubscribe(s, topic),
        s.outbound.len() <= unsubscribe(s, topic).outbound.len() <= s.outbound.len() + 1,
        !unsubscribe(s, topic).subscriptions.contains(topic),
        unsubscribe(s, topic).subscriptions.no_duplicates(),
{
    if s.subscriptions.contains(topic) {
        let i = s.subscriptions.index_of(topic);
        let rest = s.subscriptions.remove(i);
        assert forall|j: int| 0 <= j < rest.len() implies #[trigger] rest[j] != topic by {
            if j < i {
                assert(rest[j] == s.subscriptions[j]);
            } else {
                assert(rest[j] == s.subscriptions[j + 1]);
            }
        }
        assert forall|a: int, b: int| 0 <= a < rest.len() && 0 <= b < rest.len() && a != b implies rest[a]
            != rest[b] by {
            let fa = if a < i { a } else { a + 1 };
            let fb = if b < i { b } else { b + 1 };
            assert(rest[a] == s.subscriptions[fa]);
            assert(rest[b] == s.subscriptions[fb]);
        }
    }
}

/// In full privacy each published message carries the publisher and the
/// next sequence number, and the number after it is one larger; an
/// anonymous message carries neither and uses no number up.
pub proof fn lemma_sequence_numbers_increase(
    s: EngineState,
    local_peer: Seq<u8>,
    privacy: PrivacyMode,
    topics: Seq<Seq<char>>,
    payload: Seq<u8>,
    id: Seq<u8>,
    now: u64,
)
    requires
        s.next_sequence_number < u64::MAX,
    ensures
        ({
            let msg = outgoing(local_peer, privacy, s.next_sequence_number, topics, payload);
            let r = publish(s, privacy, msg, id, now);
            &&& privacy is Full ==> msg.source == Some(local_peer) && msg.sequence_number == Some(
                s.next_sequence_number,
            ) && r.next_sequence_number == s.next_sequence_number + 1
            &&& privacy is Anonymous ==> msg.source is None && msg.sequence_number is None
                && r.next_sequence_number == s.next_sequence_number
            &&& r.cache.contains_key(id)
        }),
{
}

/// Pruning leaves no entry that is older than the retention window, and
/// keeps every other entry as it was.
pub proof fn lemma_prune_evicts_the_expired(cache: Map<Seq<u8>, u64>, now: u64, retention: u64)
    ensures
        forall|id: Seq<u8>|
            cache.contains_key(id) && expired(cache[id], now, retention) ==> !(#[trigger] retained(
                cache,
                now,
                retention,
            ).contains_key(id)),
        forall|id: Seq<u8>|
            cache.contains_key(id) && !expired(cache[id], now, retention) ==> (#[trigger] retained(
                cache,
                now,
                retention,
            ).contains_key(id)) && retained(cache, now, retention)[id] == cache[id],
        retained(cache, now, retention).dom().subset_of(cache.dom()),
{
}

/// Entries inserted at times that have fallen out of the retention window
/// are all gone after pruning, however many they are.
pub proof fn lemma_old_entries_are_pruned(
    cache: Map<Seq<u8>, u64>,
    ids: Seq<Seq<u8>>,
    now: u64,
    retention: u64,
)
    requires
        forall|i: int|
            0 <= i < ids.len() ==> cache.contains_key(#[trigger] ids[i]) && expired(
                cache[ids[i]],
                now,
                retention,
            ),
    ensures
        forall|i: int|
            0 <= i < ids.len() ==> !retained(cache, now, retention).contains_key(#[trigger] ids[i]),
{
}

} // verus!
