//! Which topics each connected peer has declared interest in.

use crate::assoc::{as_map, distinct_keys, has_key, key_index, lemma_empty, lemma_entry, lemma_lookup, lemma_push, lemma_size, lemma_swap_remove};
use crate::peer::PeerIdentity;
use crate::topic::{clone_topics, contains_topic, intersects, lemma_topic_set_push, overlaps, remove_topic, topic_set, topic_views, TopicHash};
use vstd::prelude::*;

verus! {

/// The subscriptions of the connected peers: peer identity to topic set.
pub type Subscriptions = Map<Seq<u8>, Set<Seq<char>>>;

/// The connected peers that are subscribed to `topic`.
pub open spec fn subscribers(table: Subscriptions, topic: Seq<char>) -> Set<Seq<u8>> {
    Set::new(|p: Seq<u8>| table.contains_key(p) && table[p].contains(topic))
}

/// The connected peers, other than `except`, that are subscribed to at
/// least one of `topics`.
pub open spec fn interested(
    table: Subscriptions,
    topics: Seq<Seq<char>>,
    except: Option<Seq<u8>>,
) -> Set<Seq<u8>> {
    Set::new(
        |p: Seq<u8>| table.contains_key(p) && except != Some(p) && overlaps(table[p], topics),
    )
}

/// The subscriptions after `peer` has subscribed to `topic` or unsubscribed
/// from it. A change for a peer that is not connected changes nothing.
pub open spec fn changed(
    table: Subscriptions,
    peer: Seq<u8>,
    topic: Seq<char>,
    subscribe: bool,
) -> Subscriptions {
    if table.contains_key(peer) {
        table.insert(
            peer,
            if subscribe {
                table[peer].insert(topic)
            } else {
                table[peer].remove(topic)
            },
        )
    } else {
        table
    }
}

/// The subscriptions after `peer` has connected: a new peer starts with no
/// topic, a peer that is already connected keeps what it has.
pub open spec fn connected(table: Subscriptions, peer: Seq<u8>) -> Subscriptions {
    if table.contains_key(peer) {
        table
    } else {
        table.insert(peer, Set::empty())
    }
}

/// The views of a list of peer identities, in order.
pub open spec fn peer_views(peers: Seq<PeerIdentity>) -> Seq<Seq<u8>> {
    Seq::new(peers.len(), |i: int| peers[i]@)
}

/// Whether the entry `e` is a peer to relay to.
spec fn wants(e: (Seq<u8>, Set<Seq<char>>), topics: Seq<Seq<char>>, except: Option<Seq<u8>>) -> bool {
    except != Some(e.0) && overlaps(e.1, topics)
}

/// Whether `x` is the peer of one of the first `i` entries, and one to
/// relay to.
spec fn chosen(
    p: Seq<(Seq<u8>, Set<Seq<char>>)>,
    i: int,
    x: Seq<u8>,
    topics: Seq<Seq<char>>,
    except: Option<Seq<u8>>,
) -> bool {
    exists|b: int| 0 <= b < i && (#[trigger] p[b]).0 == x && wants(p[b], topics, except)
}

struct PeerEntry {
    peer: PeerIdentity,
    topics: Vec<TopicHash>,
}

spec fn pairs(entries: Seq<PeerEntry>) -> Seq<(Seq<u8>, Set<Seq<char>>)> {
    Seq::new(entries.len(), |i: int| (entries[i].peer@, topic_set(entries[i].topics@)))
}

/// The record of the connected peers and of the topics each is subscribed
/// to. A peer has an entry exactly while it is connected.
pub struct PeerSubscriptionTable {
    entries: Vec<PeerEntry>,
}

impl View for PeerSubscriptionTable {
    type V = Subscriptions;

    closed spec fn view(&self) -> Subscriptions {
        as_map(pairs(self.entries@))
    }
}

impl PeerSubscriptionTable {
    /// No peer has two entries.
    pub closed spec fn wf(&self) -> bool {
        distinct_keys(pairs(self.entries@))
    }

    /// A table with no peer.
    pub fn new() -> (table: PeerSubscriptionTable)
        ensures
            table.wf(),
            table@ == Subscriptions::empty(),
    {
        let entries: Vec<PeerEntry> = Vec::new();
        proof {
            lemma_empty::<Seq<u8>, Set<Seq<char>>>();
            assert(pairs(entries@) =~= Seq::empty());
        }
        PeerSubscriptionTable { entries }
    }

    fn position(&self, peer: &PeerIdentity) -> (r: Option<usize>)
        ensures
            r matches Some(i) ==> i < self.entries.len() && self.entries[i as int].peer@ == peer@,
            r is None ==> !has_key(pairs(self.entries@), peer@),
    {
        let mut i: usize = 0;
        while i < self.entries.len()
            invariant
                i <= self.entries.len(),
                forall|j: int| 0 <= j < i ==> self.entries[j].peer@ != peer@,
            decreases self.entries.len() - i,
        {
            if self.entries[i].peer == *peer {
                return Some(i);
            }
            i += 1;
        }
        assert forall|j: int| 0 <= j < pairs(self.entries@).len() implies (#[trigger] pairs(
            self.entries@,
        )[j]).0 != peer@ by {}
        None
    }

    /// How many peers are connected.
    pub fn len(&self) -> (n: usize)
        requires
            self.wf(),
        ensures
            self@.dom().finite(),
            n == self@.dom().len(),
    {
        proof {
            lemma_size(pairs(self.entries@));
        }
        self.entries.len()
    }

    /// The topics that `peer` is subscribed to, each once, if it is
    /// connected.
    pub fn topics_of(&self, peer: &PeerIdentity) -> (r: Option<Vec<TopicHash>>)
        requires
            self.wf(),
        ensures
            r is Some == self@.contains_key(peer@),
            r matches Some(topics) ==> topic_set(topics@) == self@[peer@],
    {
        match self.position(peer) {
            Some(i) => {
                proof {
                    lemma_entry(pairs(self.entries@), i as int);
                }
                Some(clone_topics(&self.entries[i].topics))
            },
            None => None,
        }
    }

    /// Whether `peer` is connected.
    pub fn is_connected(&self, peer: &PeerIdentity) -> (b: bool)
        requires
            self.wf(),
        ensures
            b == self@.contains_key(peer@),
    {
        match self.position(peer) {
            Some(i) => {
                proof {
                    lemma_entry(pairs(self.entries@), i as int);
                }
                true
            },
            None => false,
        }
    }

    /// Whether `peer` is connected and subscribed to `topic`.
    pub fn is_subscribed(&self, peer: &PeerIdentity, topic: &TopicHash) -> (b: bool)
        requires
            self.wf(),
        ensures
            b == subscribers(self@, topic@).contains(peer@),
    {
        match self.position(peer) {
            Some(i) => {
                proof {
                    lemma_entry(pairs(self.entries@), i as int);
                }
                contains_topic(&self.entries[i].topics, topic)
            },
            None => false,
        }
    }

    /// Records a new connection.
    pub fn on_connected(&mut self, peer: PeerIdentity)
        requires
            old(self).wf(),
        ensures
            final(self).wf(),
            final(self)@ == connected(old(self)@, peer@),
    {
        match self.position(&peer) {
            Some(i) => {
                proof {
                    lemma_entry(pairs(self.entries@), i as int);
                }
            },
            None => {
                let topics: Vec<TopicHash> = Vec::new();
                let entry = PeerEntry { peer, topics };
                proof {
                    assert(topic_set(entry.topics@) =~= Set::empty());
                    lemma_push(pairs(self.entries@), entry.peer@, topic_set(entry.topics@));
                    assert(pairs(self.entries@.push(entry)) =~= pairs(self.entries@).push(
                        (entry.peer@, topic_set(entry.topics@)),
                    ));
                }
                self.entries.push(entry);
            },
        }
    }

    /// Forgets a peer whose connection has closed, with all its
    /// subscriptions.
    pub fn on_disconnected(&mut self, peer: &PeerIdentity)
        requires
            old(self).wf(),
        ensures
            final(self).wf(),
            final(self)@ == old(self)@.remove(peer@),
    {
        match self.position(peer) {
            Some(i) => {
                proof {
                    let s = self.entries@;
                    lemma_entry(pairs(s), i as int);
                    lemma_swap_remove(pairs(s), i as int);
                    assert(pairs(s.update(i as int, s.last()).drop_last()) =~= pairs(s).update(
                        i as int,
                        pairs(s).last(),
                    ).drop_last());
                }
                self.entries.swap_remove(i);
            },
            None => {
                assert(self@ =~= self@.remove(peer@));
            },
        }
    }

    /// Applies one subscription change that `peer` has sent. A change from a
    /// peer that is not connected is ignored. Returns whether the peer is
    /// connected.
    pub fn apply_subscription_change(
        &mut self,
        peer: &PeerIdentity,
        topic: TopicHash,
        subscribe: bool,
    ) -> (known: bool)
        requires
            old(self).wf(),
        ensures
            final(self).wf(),
            known == old(self)@.contains_key(peer@),
            final(self)@ == changed(old(self)@, peer@, topic@, subscribe),
    {
        match self.position(peer) {
            Some(i) => {
                let ghost s = self.entries@;
                proof {
                    lemma_entry(pairs(s), i as int);
                    lemma_swap_remove(pairs(s), i as int);
                    assert(pairs(s.update(i as int, s.last()).drop_last()) =~= pairs(s).update(
                        i as int,
                        pairs(s).last(),
                    ).drop_last());
                }
                let mut entry = self.entries.swap_remove(i);
                let ghost before = topic_set(entry.topics@);
                if subscribe {
                    if !contains_topic(&entry.topics, &topic) {
                        proof {
                            lemma_topic_set_push(entry.topics@, topic);
                        }
                        entry.topics.push(topic);
                    } else {
                        assert(before =~= before.insert(topic@));
                    }
                } else {
                    remove_topic(&mut entry.topics, &topic);
                }
                proof {
                    let rest = self.entries@;
                    assert(!as_map(pairs(rest)).contains_key(peer@));
                    lemma_push(pairs(rest), entry.peer@, topic_set(entry.topics@));
                    assert(pairs(rest.push(entry)) =~= pairs(rest).push(
                        (entry.peer@, topic_set(entry.topics@)),
                    ));
                    assert(as_map(pairs(s)).remove(peer@).insert(peer@, topic_set(entry.topics@))
                        =~= as_map(pairs(s)).insert(peer@, topic_set(entry.topics@)));
                }
                self.entries.push(entry);
                true
            },
            None => false,
        }
    }

    /// The connected peers that are subscribed to `topic`, each once.
    pub fn subscribers_of(&self, topic: &TopicHash) -> (peers: Vec<PeerIdentity>)
        requires
            self.wf(),
        ensures
            peer_views(peers@).no_duplicates(),
            peer_views(peers@).to_set() == subscribers(self@, topic@),
    {
        let mut topics: Vec<TopicHash> = Vec::new();
        topics.push(topic.clone());
        let peers = self.interested_peers(&topics, None);
        proof {
            let one = topic_views(topics@);
            assert(one =~= seq![topic@]);
            assert forall|set: Set<Seq<char>>| overlaps(set, one) <==> set.contains(topic@) by {
                if set.contains(topic@) {
                    assert(set.contains(one[0]));
                }
            }
            assert(interested(self@, one, None) =~= subscribers(self@, topic@));
        }
        peers
    }

    /// The connected peers, other than `except`, that are subscribed to at
    /// least one of `topics`, each once.
    pub fn interested_peers(&self, topics: &Vec<TopicHash>, except: Option<&PeerIdentity>) -> (peers:
        Vec<PeerIdentity>)
        requires
            self.wf(),
        ensures
            peer_views(peers@).no_duplicates(),
            peer_views(peers@).to_set() == interested(
                self@,
                topic_views(topics@),
                match except {
                    Some(e) => Some(e@),
                    None => None,
                },
            ),
    {
        let ghost skip: Option<Seq<u8>> = match except {
            Some(e) => Some(e@),
            None => None,
        };
        let ghost wanted = topic_views(topics@);
        let ghost p = pairs(self.entries@);
        let mut peers: Vec<PeerIdentity> = Vec::new();
        let mut i: usize = 0;
        while i < self.entries.len()
            invariant
                self.wf(),
                p == pairs(self.entries@),
                wanted == topic_views(topics@),
                skip == (match except {
                    Some(e) => Some(e@),
                    None => None,
                }),
                i <= self.entries.len(),
                forall|a: int|
                    0 <= a < peers.len() ==> #[trigger] chosen(p, i as int, peers[a]@, wanted, skip),
                forall|b: int|
                    0 <= b < i && wants(#[trigger] p[b], wanted, skip) ==> peer_views(
                        peers@,
                    ).contains(p[b].0),
                peer_views(peers@).no_duplicates(),
            decreases self.entries.len() - i,
        {
            let entry = &self.entries[i];
            let excluded = match except {
                Some(e) => entry.peer == *e,
                None => false,
            };
            let ghost old_peers = peers@;
            if !excluded && intersects(&entry.topics, topics) {
                proof {
                    assert(wants(p[i as int], wanted, skip));
                    assert forall|a: int| 0 <= a < old_peers.len() implies (#[trigger] old_peers[a])@
                        != p[i as int].0 by {
                        assert(chosen(p, i as int, old_peers[a]@, wanted, skip));
                        let b = choose|b: int|
                            0 <= b < i && (#[trigger] p[b]).0 == old_peers[a]@ && wants(
                                p[b],
                                wanted,
                                skip,
                            );
                        assert(p[b].0 != p[i as int].0);
                    }
                }
                peers.push(entry.peer.clone());
                proof {
                    assert(peer_views(peers@) =~= peer_views(old_peers).push(p[i as int].0));
                }
            }
            proof {
                let v = peer_views(peers@);
                let w = peer_views(old_peers);
                assert forall|a: int| 0 <= a < peers.len() implies #[trigger] chosen(
                    p,
                    i + 1,
                    peers[a]@,
                    wanted,
                    skip,
                ) by {
                    if a < old_peers.len() {
                        assert(chosen(p, i as int, old_peers[a]@, wanted, skip));
                        let b = choose|b: int|
                            0 <= b < i && (#[trigger] p[b]).0 == old_peers[a]@ && wants(
                                p[b],
                                wanted,
                                skip,
                            );
                        assert(0 <= b < i + 1 && p[b].0 == peers[a]@ && wants(p[b], wanted, skip));
                    } else {
                        assert(p[i as int].0 == peers[a]@ && wants(p[i as int], wanted, skip));
                    }
                }
                assert forall|b: int| 0 <= b < i + 1 && wants(#[trigger] p[b], wanted, skip) implies v.contains(
                    p[b].0,
                ) by {
                    if b < i {
                        assert(w.contains(p[b].0));
                        let a = choose|a: int| 0 <= a < w.len() && w[a] == p[b].0;
                        assert(v[a] == p[b].0);
                    } else {
                        assert(v[w.len() as int] == p[b].0);
                    }
                }
            }
            i += 1;
        }
        proof {
            let v = peer_views(peers@);
            assert forall|x: Seq<u8>| v.contains(x) <==> interested(self@, wanted, skip).contains(
                x,
            ) by {
                if v.contains(x) {
                    let a = choose|a: int| 0 <= a < v.len() && v[a] == x;
                    assert(chosen(p, i as int, peers[a]@, wanted, skip));
                    let b = choose|b: int|
                        0 <= b < i && (#[trigger] p[b]).0 == peers[a]@ && wants(p[b], wanted, skip);
                    lemma_entry(p, b);
                }
                if interested(self@, wanted, skip).contains(x) {
                    lemma_lookup(p, x);
                    let b = key_index(p, x);
                    assert(wants(p[b], wanted, skip));
                }
            }
            assert(v.to_set() =~= interested(self@, wanted, skip));
        }
        peers
    }

    /// The connected peers, each once.
    pub fn peers(&self) -> (peers: Vec<PeerIdentity>)
        requires
            self.wf(),
        ensures
            peer_views(peers@).no_duplicates(),
            peer_views(peers@).to_set() == self@.dom(),
    {
        let ghost p = pairs(self.entries@);
        let mut peers: Vec<PeerIdentity> = Vec::new();
        let mut i: usize = 0;
        while i < self.entries.len()
            invariant
                self.wf(),
                p == pairs(self.entries@),
                i <= self.entries.len(),
                peers.len() == i,
                forall|a: int| 0 <= a < i ==> (#[trigger] peers[a])@ == p[a].0,
            decreases self.entries.len() - i,
        {
            peers.push(self.entries[i].peer.clone());
            i += 1;
        }
        proof {
            let v = peer_views(peers@);
            assert forall|a: int, b: int| 0 <= a < v.len() && 0 <= b < v.len() && a != b implies v[a]
                != v[b] by {
                assert(peers[a]@ == p[a].0 && peers[b]@ == p[b].0);
                if a < b {
                    assert(p[a].0 != p[b].0);
                } else {
                    assert(p[b].0 != p[a].0);
                }
            }
            assert forall|x: Seq<u8>| v.contains(x) <==> self@.dom().contains(x) by {
                if v.contains(x) {
                    let a = choose|a: int| 0 <= a < v.len() && v[a] == x;
                    assert(peers[a]@ == p[a].0);
                    lemma_entry(p, a);
                }
                if self@.dom().contains(x) {
                    lemma_lookup(p, x);
                    let b = key_index(p, x);
                    assert(peers[b]@ == p[b].0);
                    assert(v[b] == x);
                }
            }
            assert(v.to_set() =~= self@.dom());
        }
        peers
    }
}

} // verus!
