use floodsub::{PeerIdentity, PeerSubscriptionTable, TopicHash};
use libp2p::identity::PeerId;

fn peer() -> PeerIdentity {
    PeerIdentity::from_bytes(&PeerId::random().to_bytes()).expect("canonical")
}

fn topic(name: &str) -> TopicHash {
    TopicHash::from_raw(name.to_string())
}

fn sorted(mut peers: Vec<PeerIdentity>) -> Vec<PeerIdentity> {
    peers.sort();
    peers
}

#[test]
fn new_table_has_no_peer() {
    let table = PeerSubscriptionTable::new();
    assert_eq!(table.len(), 0);
    assert!(table.peers().is_empty());
    assert!(!table.is_connected(&peer()));
    assert!(table.subscribers_of(&topic("news")).is_empty());
}

#[test]
fn connected_peer_starts_without_subscription() {
    let mut table = PeerSubscriptionTable::new();
    let a = peer();
    table.on_connected(a.clone());

    assert!(table.is_connected(&a));
    assert_eq!(table.len(), 1);
    assert_eq!(table.topics_of(&a), Some(Vec::new()));
    assert!(!table.is_subscribed(&a, &topic("news")));
    assert!(table.subscribers_of(&topic("news")).is_empty());
}

#[test]
fn connecting_again_keeps_the_subscriptions() {
    let mut table = PeerSubscriptionTable::new();
    let a = peer();
    table.on_connected(a.clone());
    table.apply_subscription_change(&a, topic("news"), true);
    table.on_connected(a.clone());

    assert_eq!(table.len(), 1);
    assert!(table.is_subscribed(&a, &topic("news")));
}

#[test]
fn subscription_change_of_a_connected_peer_is_applied() {
    let mut table = PeerSubscriptionTable::new();
    let a = peer();
    table.on_connected(a.clone());

    assert!(table.apply_subscription_change(&a, topic("news"), true));
    assert!(table.is_subscribed(&a, &topic("news")));
    assert!(!table.is_subscribed(&a, &topic("sport")));
    assert_eq!(table.subscribers_of(&topic("news")), vec![a.clone()]);

    assert!(table.apply_subscription_change(&a, topic("news"), false));
    assert!(!table.is_subscribed(&a, &topic("news")));
    assert!(table.subscribers_of(&topic("news")).is_empty());
    assert!(table.is_connected(&a));
}

#[test]
fn subscribing_twice_is_subscribing_once() {
    let mut table = PeerSubscriptionTable::new();
    let a = peer();
    table.on_connected(a.clone());
    table.apply_subscription_change(&a, topic("news"), true);
    table.apply_subscription_change(&a, topic("news"), true);

    assert_eq!(table.topics_of(&a), Some(vec![topic("news")]));
    assert_eq!(table.subscribers_of(&topic("news")), vec![a.clone()]);

    table.apply_subscription_change(&a, topic("news"), false);
    assert_eq!(table.topics_of(&a), Some(Vec::new()));
}

#[test]
fn unsubscribing_from_an_unknown_topic_changes_nothing() {
    let mut table = PeerSubscriptionTable::new();
    let a = peer();
    table.on_connected(a.clone());
    table.apply_subscription_change(&a, topic("news"), true);

    assert!(table.apply_subscription_change(&a, topic("sport"), false));
    assert_eq!(table.topics_of(&a), Some(vec![topic("news")]));
}

#[test]
fn subscription_change_of_an_unknown_peer_is_ignored() {
    let mut table = PeerSubscriptionTable::new();
    let a = peer();
    let stranger = peer();
    table.on_connected(a.clone());

    assert!(!table.apply_subscription_change(&stranger, topic("news"), true));
    assert!(!table.is_connected(&stranger));
    assert_eq!(table.len(), 1);
    assert!(table.subscribers_of(&topic("news")).is_empty());
    assert_eq!(table.topics_of(&stranger), None);
}

#[test]
fn disconnected_peer_is_forgotten_with_its_subscriptions() {
    let mut table = PeerSubscriptionTable::new();
    let a = peer();
    let b = peer();
    table.on_connected(a.clone());
    table.on_connected(b.clone());
    table.apply_subscription_change(&a, topic("news"), true);
    table.apply_subscription_change(&b, topic("news"), true);

    table.on_disconnected(&a);

    assert!(!table.is_connected(&a));
    assert!(table.is_connected(&b));
    assert_eq!(table.subscribers_of(&topic("news")), vec![b.clone()]);
    assert!(!table.apply_subscription_change(&a, topic("sport"), true));
    assert!(!table.is_connected(&a));
    assert!(table.subscribers_of(&topic("sport")).is_empty());
}

#[test]
fn disconnecting_an_unknown_peer_changes_nothing() {
    let mut table = PeerSubscriptionTable::new();
    let a = peer();
    table.on_connected(a.clone());
    table.on_disconnected(&peer());
    assert_eq!(table.peers(), vec![a]);
}

#[test]
fn reconnected_peer_starts_without_subscription() {
    let mut table = PeerSubscriptionTable::new();
    let a = peer();
    table.on_connected(a.clone());
    table.apply_subscription_change(&a, topic("news"), true);
    table.on_disconnected(&a);
    table.on_connected(a.clone());

    assert!(table.is_connected(&a));
    assert!(!table.is_subscribed(&a, &topic("news")));
}

#[test]
fn subscribers_are_the_connected_peers_subscribed_to_the_topic() {
    let mut table = PeerSubscriptionTable::new();
    let a = peer();
    let b = peer();
    let c = peer();
    for p in [&a, &b, &c] {
        table.on_connected(p.clone());
    }
    table.apply_subscription_change(&a, topic("news"), true);
    table.apply_subscription_change(&b, topic("sport"), true);
    table.apply_subscription_change(&c, topic("news"), true);
    table.apply_subscription_change(&c, topic("sport"), true);

    assert_eq!(sorted(table.subscribers_of(&topic("news"))), sorted(vec![a.clone(), c.clone()]));
    assert_eq!(sorted(table.subscribers_of(&topic("sport"))), sorted(vec![b.clone(), c.clone()]));
    assert!(table.subscribers_of(&topic("music")).is_empty());
    assert_eq!(sorted(table.peers()), sorted(vec![a, b, c]));
}

#[test]
fn interested_peers_share_a_topic_and_are_not_the_sender() {
    let mut table = PeerSubscriptionTable::new();
    let a = peer();
    let b = peer();
    let c = peer();
    let d = peer();
    for p in [&a, &b, &c, &d] {
        table.on_connected(p.clone());
    }
    table.apply_subscription_change(&a, topic("news"), true);
    table.apply_subscription_change(&b, topic("sport"), true);
    table.apply_subscription_change(&c, topic("music"), true);
    table.apply_subscription_change(&d, topic("news"), true);
    table.apply_subscription_change(&d, topic("sport"), true);

    let topics = vec![topic("news"), topic("sport")];

    assert_eq!(
        sorted(table.interested_peers(&topics, None)),
        sorted(vec![a.clone(), b.clone(), d.clone()])
    );
    assert_eq!(
        sorted(table.interested_peers(&topics, Some(&a))),
        sorted(vec![b.clone(), d.clone()])
    );
    assert_eq!(
        sorted(table.interested_peers(&topics, Some(&c))),
        sorted(vec![a.clone(), b.clone(), d.clone()])
    );
    assert!(table.interested_peers(&Vec::new(), None).is_empty());
    assert!(table.interested_peers(&vec![topic("film")], None).is_empty());
}
