use floodsub::{
    Config, DefaultMessageIdFn, Event, OutboundAction, PeerIdentity, PrivacyMode, ProtocolEngine,
    Topic, TopicHash,
};
use libp2p::identity::PeerId;

fn peer() -> PeerIdentity {
    PeerIdentity::from_bytes(&PeerId::random().to_bytes()).expect("canonical")
}

fn node(id: &PeerIdentity, privacy: PrivacyMode) -> ProtocolEngine<DefaultMessageIdFn> {
    ProtocolEngine::new(id.clone(), Config::new(DefaultMessageIdFn, 1000, 1024, privacy), 1)
}

/// Hands what `from` has queued for `to` over to `to`.
fn deliver(
    from_id: &PeerIdentity,
    from: &mut ProtocolEngine<DefaultMessageIdFn>,
    to_id: &PeerIdentity,
    to: &mut ProtocolEngine<DefaultMessageIdFn>,
    now: u64,
) -> Vec<OutboundAction> {
    let actions = from.take_outbound();
    for action in &actions {
        if action.destinations.contains(to_id) {
            to.on_inbound_rpc(from_id, &action.rpc, now);
        }
    }
    actions
}

#[test]
fn subscriber_receives_what_its_neighbour_publishes() {
    let a_id = peer();
    let b_id = peer();
    let mut a = node(&a_id, PrivacyMode::Full);
    let mut b = node(&b_id, PrivacyMode::Anonymous);
    let news = Topic::new("news".to_string());

    // A subscribes, then B connects and learns of it.
    assert!(a.subscribe(&news));
    a.on_connection_established(b_id.clone());
    b.on_connection_established(a_id.clone());
    let announced = deliver(&a_id, &mut a, &b_id, &mut b, 1);
    assert_eq!(announced.len(), 1);
    assert_eq!(announced[0].destinations, vec![b_id.clone()]);
    assert!(b.peers().is_subscribed(&a_id, &news.hash()));
    let events = b.take_events();
    assert_eq!(events.len(), 1);
    assert!(matches!(
        &events[0],
        Event::Subscribed { peer, topic } if peer == &a_id && topic == &news.hash()
    ));
    assert!(b.take_outbound().is_empty());

    // B subscribes too, and A learns of it.
    assert!(b.subscribe(&news));
    let announced = deliver(&b_id, &mut b, &a_id, &mut a, 2);
    assert_eq!(announced.len(), 1);
    assert!(a.peers().is_subscribed(&b_id, &news.hash()));
    let events = a.take_events();
    assert_eq!(events.len(), 1);
    assert!(matches!(
        &events[0],
        Event::Subscribed { peer, topic } if peer == &b_id && topic == &news.hash()
    ));

    // B publishes without source and sequence number.
    b.publish(vec![news.hash()], b"hello".to_vec(), 3).expect("published");
    let sent = deliver(&b_id, &mut b, &a_id, &mut a, 3);
    assert_eq!(sent.len(), 1);
    assert_eq!(sent[0].rpc.publish[0].from, None);
    assert_eq!(sent[0].rpc.publish[0].seqno, None);

    // A gets one message event, and sends nothing back to B.
    let events = a.take_events();
    assert_eq!(events.len(), 1);
    match &events[0] {
        Event::Message { source, message } => {
            assert_eq!(source, &b_id);
            assert_eq!(message.payload(), &b"hello".to_vec());
            assert!(message.source().is_none());
            assert_eq!(message.sequence_number(), None);
        }
        other => panic!("unexpected event {:?}", other),
    }
    assert!(a.take_outbound().is_empty());
    assert!(b.take_events().is_empty());
}

#[test]
fn publish_with_no_subscribed_peer_queues_nothing() {
    let a_id = peer();
    let mut a = node(&a_id, PrivacyMode::Full);
    let x = TopicHash::from_raw("x".to_string());

    let id = a.publish(vec![x.clone()], b"hello".to_vec(), 1).expect("published");

    assert!(a.take_outbound().is_empty());
    assert!(a.take_events().is_empty());
    assert!(a.cache().seen(&id));
}

#[test]
fn publish_with_peers_subscribed_elsewhere_queues_nothing() {
    let a_id = peer();
    let b_id = peer();
    let mut a = node(&a_id, PrivacyMode::Full);
    let mut b = node(&b_id, PrivacyMode::Full);
    b.subscribe(&Topic::new("y".to_string()));
    a.on_connection_established(b_id.clone());
    b.on_connection_established(a_id.clone());
    deliver(&b_id, &mut b, &a_id, &mut a, 1);
    a.take_events();

    a.publish(vec![TopicHash::from_raw("x".to_string())], b"hello".to_vec(), 2)
        .expect("published");

    assert!(a.take_outbound().is_empty());
    assert!(a.take_events().is_empty());
}

#[test]
fn publisher_subscribed_to_its_own_topic_gets_no_event() {
    let a_id = peer();
    let mut a = node(&a_id, PrivacyMode::Full);
    a.subscribe(&Topic::new("x".to_string()));

    a.publish(vec![TopicHash::from_raw("x".to_string())], b"hello".to_vec(), 1)
        .expect("published");

    assert!(a.take_outbound().is_empty());
    assert!(a.take_events().is_empty());
}

#[test]
fn message_floods_along_a_line_and_stops() {
    // A - B - C, all subscribed; A publishes.
    let ids = [peer(), peer(), peer()];
    let mut a = node(&ids[0], PrivacyMode::Full);
    let mut b = node(&ids[1], PrivacyMode::Full);
    let mut c = node(&ids[2], PrivacyMode::Full);
    let news = Topic::new("news".to_string());
    a.subscribe(&news);
    b.subscribe(&news);
    c.subscribe(&news);
    a.on_connection_established(ids[1].clone());
    b.on_connection_established(ids[0].clone());
    b.on_connection_established(ids[2].clone());
    c.on_connection_established(ids[1].clone());
    deliver(&ids[0], &mut a, &ids[1], &mut b, 1);
    for action in b.take_outbound() {
        if action.destinations.contains(&ids[0]) {
            a.on_inbound_rpc(&ids[1], &action.rpc, 1);
        }
        if action.destinations.contains(&ids[2]) {
            c.on_inbound_rpc(&ids[1], &action.rpc, 1);
        }
    }
    deliver(&ids[2], &mut c, &ids[1], &mut b, 1);
    a.take_events();
    b.take_events();
    c.take_events();

    a.publish(vec![news.hash()], b"hello".to_vec(), 2).expect("published");
    let from_a = deliver(&ids[0], &mut a, &ids[1], &mut b, 2);
    assert_eq!(from_a.len(), 1);
    assert_eq!(b.take_events().len(), 1);

    let from_b = deliver(&ids[1], &mut b, &ids[2], &mut c, 3);
    assert_eq!(from_b.len(), 1);
    assert_eq!(from_b[0].destinations, vec![ids[2].clone()]);
    assert_eq!(c.take_events().len(), 1);

    // C has no neighbour but B, which sent the message: the flood stops.
    assert!(c.take_outbound().is_empty());
    assert!(a.take_events().is_empty());

    // An echo to A or B changes nothing.
    b.on_inbound_rpc(&ids[2], &from_b[0].rpc, 4);
    a.on_inbound_rpc(&ids[1], &from_a[0].rpc, 4);
    assert!(a.take_events().is_empty());
    assert!(b.take_events().is_empty());
    assert!(a.take_outbound().is_empty());
    assert!(b.take_outbound().is_empty());
}
