//! Topics: named channels that messages are published to.

use vstd::prelude::*;

verus! {

/// The wire-level reference to a topic. It is the topic's name itself, so
/// two topics have the same hash exactly when they have the same name.
#[derive(Debug, Eq, Hash, PartialOrd, Ord)]
pub struct TopicHash {
    hash: String,
}

impl View for TopicHash {
    type V = Seq<char>;

    closed spec fn view(&self) -> Seq<char> {
        self.hash@
    }
}

impl TopicHash {
    /// The topic hash that is `hash`.
    pub fn from_raw(hash: String) -> (h: TopicHash)
        ensures
            h@ == hash@,
    {
        TopicHash { hash }
    }

    /// The hash as text.
    pub fn as_str(&self) -> (s: &str)
        ensures
            s@ == self@,
    {
        self.hash.as_str()
    }

    /// The hash as text.
    pub fn into_string(self) -> (s: String)
        ensures
            s@ == self@,
    {
        self.hash
    }
}

impl Clone for TopicHash {
    fn clone(&self) -> (r: Self)
        ensures
            r@ == self@,
    {
        TopicHash { hash: self.hash.clone() }
    }
}

impl PartialEq for TopicHash {
    fn eq(&self, other: &Self) -> (r: bool) {
        self.hash == other.hash
    }
}

impl vstd::std_specs::cmp::PartialEqSpecImpl for TopicHash {
    open spec fn obeys_eq_spec() -> bool {
        true
    }

    open spec fn eq_spec(&self, other: &Self) -> bool {
        self@ == other@
    }
}

/// A named channel.
#[derive(Debug, Eq, Hash, PartialOrd, Ord)]
pub struct Topic {
    name: String,
}

/// A topic whose hash is its name.
pub type IdentTopic = Topic;

impl View for Topic {
    type V = Seq<char>;

    closed spec fn view(&self) -> Seq<char> {
        self.name@
    }
}

impl Topic {
    /// The topic called `name`.
    pub fn new(name: String) -> (t: Topic)
        ensures
            t@ == name@,
    {
        Topic { name }
    }

    /// The wire-level reference to this topic.
    pub fn hash(&self) -> (h: TopicHash)
        ensures
            h@ == self@,
    {
        TopicHash { hash: self.name.clone() }
    }

    /// The name of the topic.
    pub fn name(&self) -> (s: &str)
        ensures
            s@ == self@,
    {
        self.name.as_str()
    }
}

impl Clone for Topic {
    fn clone(&self) -> (r: Self)
        ensures
            r@ == self@,
    {
        Topic { name: self.name.clone() }
    }
}

impl PartialEq for Topic {
    fn eq(&self, other: &Self) -> (r: bool) {
        self.name == other.name
    }
}

impl vstd::std_specs::cmp::PartialEqSpecImpl for Topic {
    open spec fn obeys_eq_spec() -> bool {
        true
    }

    open spec fn eq_spec(&self, other: &Self) -> bool {
        self@ == other@
    }
}

/// The views of a sequence of topic hashes, in order.
pub open spec fn topic_views(topics: Seq<TopicHash>) -> Seq<Seq<char>> {
    Seq::new(topics.len(), |i: int| topics[i]@)
}

/// Clones a list of topic hashes.
pub fn clone_topics(topics: &Vec<TopicHash>) -> (r: Vec<TopicHash>)
    ensures
        topic_views(r@) == topic_views(topics@),
{
    let mut r: Vec<TopicHash> = Vec::new();
    let mut i: usize = 0;
    while i < topics.len()
        invariant
            i <= topics.len(),
            r.len() == i,
            forall|j: int| 0 <= j < i ==> r[j]@ == topics[j]@,
        decreases topics.len() - i,
    {
        r.push(topics[i].clone());
        i += 1;
    }
    assert(topic_views(r@) =~= topic_views(topics@));
    r
}

/// The set of the views of a list of topic hashes.
pub open spec fn topic_set(topics: Seq<TopicHash>) -> Set<Seq<char>> {
    topic_views(topics).to_set()
}

/// Whether a set of topics and a list of topics have a topic in common.
pub open spec fn overlaps(subscribed: Set<Seq<char>>, topics: Seq<Seq<char>>) -> bool {
    exists|j: int| 0 <= j < topics.len() && subscribed.contains(#[trigger] topics[j])
}

/// Whether `topic` occurs among `topics`.
pub fn contains_topic(topics: &Vec<TopicHash>, topic: &TopicHash) -> (b: bool)
    ensures
        b == topic_views(topics@).contains(topic@),
        b == topic_set(topics@).contains(topic@),
{
    let mut i: usize = 0;
    while i < topics.len()
        invariant
            i <= topics.len(),
            forall|j: int| 0 <= j < i ==> topics[j]@ != topic@,
        decreases topics.len() - i,
    {
        if topics[i] == *topic {
            assert(topic_views(topics@)[i as int] == topic@);
            return true;
        }
        i += 1;
    }
    assert forall|j: int| 0 <= j < topic_views(topics@).len() implies #[trigger] topic_views(
        topics@,
    )[j] != topic@ by {
        assert(topics[j]@ != topic@);
    }
    false
}

/// Where `topic` first occurs among `topics`, if it does.
pub fn topic_position(topics: &Vec<TopicHash>, topic: &TopicHash) -> (r: Option<usize>)
    ensures
        r matches Some(i) ==> i < topics.len() && topics[i as int]@ == topic@,
        r is None ==> !topic_views(topics@).contains(topic@),
{
    let mut i: usize = 0;
    while i < topics.len()
        invariant
            i <= topics.len(),
            forall|j: int| 0 <= j < i ==> topics[j]@ != topic@,
        decreases topics.len() - i,
    {
        if topics[i] == *topic {
            return Some(i);
        }
        i += 1;
    }
    assert forall|j: int| 0 <= j < topic_views(topics@).len() implies #[trigger] topic_views(
        topics@,
    )[j] != topic@ by {
        assert(topics[j]@ != topic@);
    }
    None
}

/// Whether some topic of `topics` occurs among `subscribed`.
pub fn intersects(subscribed: &Vec<TopicHash>, topics: &Vec<TopicHash>) -> (b: bool)
    ensures
        b == overlaps(topic_set(subscribed@), topic_views(topics@)),
{
    let mut j: usize = 0;
    while j < topics.len()
        invariant
            j <= topics.len(),
            forall|k: int|
                0 <= k < j ==> !topic_set(subscribed@).contains(#[trigger] topic_views(topics@)[k]),
        decreases topics.len() - j,
    {
        if contains_topic(subscribed, &topics[j]) {
            assert(topic_views(topics@)[j as int] == topics[j as int]@);
            return true;
        }
        j += 1;
    }
    false
}

/// Appending a topic adds it to the set.
pub proof fn lemma_topic_set_push(topics: Seq<TopicHash>, topic: TopicHash)
    ensures
        topic_set(topics.push(topic)) == topic_set(topics).insert(topic@),
{
    let a = topic_views(topics.push(topic));
    let b = topic_views(topics);
    assert(a =~= b.push(topic@));
    assert forall|t: Seq<char>| a.contains(t) <==> (b.contains(t) || t == topic@) by {
        if a.contains(t) {
            let i = choose|i: int| 0 <= i < a.len() && a[i] == t;
            if i < b.len() {
                assert(b[i] == t);
            }
        }
        if b.contains(t) {
            let i = choose|i: int| 0 <= i < b.len() && b[i] == t;
            assert(a[i] == t);
        }
        if t == topic@ {
            assert(a[b.len() as int] == t);
        }
    }
    assert(topic_set(topics.push(topic)) =~= topic_set(topics).insert(topic@));
}

/// Removes every occurrence of `topic` from `topics`. The order of the
/// others may change.
pub fn remove_topic(topics: &mut Vec<TopicHash>, topic: &TopicHash)
    ensures
        topic_set(final(topics)@) == topic_set(old(topics)@).remove(topic@),
{
    let ghost goal = topic_set(topics@).remove(topic@);
    let mut i: usize = 0;
    while i < topics.len()
        invariant
            i <= topics.len(),
            forall|j: int| 0 <= j < i ==> topics[j]@ != topic@,
            topic_set(topics@).remove(topic@) == goal,
        decreases topics.len() - i,
    {
        if topics[i] == *topic {
            let ghost s = topics@;
            topics.swap_remove(i);
            proof {
                let t = topics@;
                let a = topic_views(s);
                let b = topic_views(t);
                assert forall|x: Seq<char>| x != topic@ implies (a.contains(x) <==> b.contains(x)) by {
                    if a.contains(x) {
                        let k = choose|k: int| 0 <= k < a.len() && a[k] == x;
                        assert(k != i);
                        if k == s.len() - 1 {
                            assert(b[i as int] == x);
                        } else {
                            assert(b[k] == x);
                        }
                    }
                    if b.contains(x) {
                        let k = choose|k: int| 0 <= k < b.len() && b[k] == x;
                        if k == i {
                            assert(a[s.len() - 1] == x);
                        } else {
                            assert(a[k] == x);
                        }
                    }
                }
                assert(topic_set(t).remove(topic@) =~= topic_set(s).remove(topic@));
            }
        } else {
            i += 1;
        }
    }
    proof {
        let a = topic_views(topics@);
        assert forall|j: int| 0 <= j < a.len() implies #[trigger] a[j] != topic@ by {
            assert(topics[j]@ != topic@);
        }
        assert(topic_set(topics@) =~= topic_set(topics@).remove(topic@));
    }
}

} // verus!
