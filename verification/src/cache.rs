//! The duplicate-suppression cache: which message identities were seen, and
//! when.

use crate::assoc::{as_map, distinct_keys, has_key, key_index, lemma_empty, lemma_entry, lemma_lookup, lemma_push, lemma_size, lemma_swap_remove};
use crate::message_id::MessageId;
use vstd::prelude::*;

verus! {

/// Whether an entry inserted at `inserted_at` is older than the retention
/// window at time `now`. An entry stamped later than `now` is not.
pub open spec fn expired(inserted_at: u64, now: u64, retention: u64) -> bool {
    now - inserted_at > retention
}

/// The entries of `m` that are not older than the retention window.
pub open spec fn retained(m: Map<Seq<u8>, u64>, now: u64, retention: u64) -> Map<Seq<u8>, u64> {
    Map::new(
        |id: Seq<u8>| m.contains_key(id) && !expired(m[id], now, retention),
        |id: Seq<u8>| m[id],
    )
}

struct CacheEntry {
    id: MessageId,
    inserted_at: u64,
}

spec fn pairs(entries: Seq<CacheEntry>) -> Seq<(Seq<u8>, u64)> {
    Seq::new(entries.len(), |i: int| (entries[i].id@, entries[i].inserted_at))
}

/// A time-windowed set of message identities. Its view maps each identity it
/// holds to the time at which it was inserted.
pub struct MessageCache {
    entries: Vec<CacheEntry>,
    retention: u64,
}

impl View for MessageCache {
    type V = Map<Seq<u8>, u64>;

    closed spec fn view(&self) -> Map<Seq<u8>, u64> {
        as_map(pairs(self.entries@))
    }
}

impl MessageCache {
    /// No identity is held twice.
    pub closed spec fn wf(&self) -> bool {
        distinct_keys(pairs(self.entries@))
    }

    /// The retention window: how much older than the present an entry may be
    /// before it is pruned.
    pub closed spec fn retention(&self) -> u64 {
        self.retention
    }

    /// An empty cache with the given retention window.
    pub fn new(retention: u64) -> (cache: MessageCache)
        ensures
            cache.wf(),
            cache@ == Map::<Seq<u8>, u64>::empty(),
            cache.retention() == retention,
    {
        let entries: Vec<CacheEntry> = Vec::new();
        proof {
            lemma_empty::<Seq<u8>, u64>();
            assert(pairs(entries@) =~= Seq::empty());
        }
        MessageCache { entries, retention }
    }

    /// How many identities the cache holds.
    pub fn len(&self) -> (n: usize)
        requires
            self.wf(),
        ensures
            self@.dom().finite(),
            n == self@.dom().len(),
    {
        proof {
            lemma_size(pairs(self.entries@));
        }
        self.entries.len()
    }

    /// Whether the cache holds no identity.
    pub fn is_empty(&self) -> (b: bool)
        requires
            self.wf(),
        ensures
            b == (self@ == Map::<Seq<u8>, u64>::empty()),
    {
        proof {
            lemma_size(pairs(self.entries@));
            if self.entries.len() == 0 {
                assert(self@ =~= Map::<Seq<u8>, u64>::empty());
            }
        }
        self.entries.len() == 0
    }

    /// The retention window.
    pub fn retention_window(&self) -> (r: u64)
        ensures
            r == self.retention(),
    {
        self.retention
    }

    fn position(&self, id: &MessageId) -> (r: Option<usize>)
        ensures
            r matches Some(i) ==> i < self.entries.len() && self.entries[i as int].id@ == id@,
            r is None ==> !has_key(pairs(self.entries@), id@),
    {
        let mut i: usize = 0;
        while i < self.entries.len()
            invariant
                i <= self.entries.len(),
                forall|j: int| 0 <= j < i ==> self.entries[j].id@ != id@,
            decreases self.entries.len() - i,
        {
            if self.entries[i].id == *id {
                return Some(i);
            }
            i += 1;
        }
        assert forall|j: int| 0 <= j < pairs(self.entries@).len() implies (#[trigger] pairs(
            self.entries@,
        )[j]).0 != id@ by {}
        None
    }

    /// Whether `id` is in the cache.
    pub fn seen(&self, id: &MessageId) -> (b: bool)
        requires
            self.wf(),
        ensures
            b == self@.contains_key(id@),
    {
        match self.position(id) {
            Some(i) => {
                proof {
                    lemma_entry(pairs(self.entries@), i as int);
                }
                true
            },
            None => false,
        }
    }

    /// When `id` was inserted, if it is in the cache.
    pub fn inserted_at(&self, id: &MessageId) -> (r: Option<u64>)
        requires
            self.wf(),
        ensures
            r == (if self@.contains_key(id@) {
                Some(self@[id@])
            } else {
                None
            }),
    {
        match self.position(id) {
            Some(i) => {
                proof {
                    lemma_entry(pairs(self.entries@), i as int);
                }
                Some(self.entries[i].inserted_at)
            },
            None => None,
        }
    }

    /// Records `id` as seen at time `now`, unless it is already in the cache:
    /// an entry is never updated. Returns whether `id` was new.
    pub fn insert(&mut self, id: MessageId, now: u64) -> (fresh: bool)
        requires
            old(self).wf(),
        ensures
            final(self).wf(),
            fresh == !old(self)@.contains_key(id@),
            final(self)@ == (if fresh {
                old(self)@.insert(id@, now)
            } else {
                old(self)@
            }),
            final(self).retention() == old(self).retention(),
    {
        match self.position(&id) {
            Some(i) => {
                proof {
                    lemma_entry(pairs(self.entries@), i as int);
                }
                false
            },
            None => {
                proof {
                    lemma_push(pairs(self.entries@), id@, now);
                    assert(pairs(self.entries@.push(CacheEntry { id, inserted_at: now }))
                        =~= pairs(self.entries@).push((id@, now)));
                }
                self.entries.push(CacheEntry { id, inserted_at: now });
                true
            },
        }
    }

    /// Removes every entry that is older than the retention window at time
    /// `now`, and no other.
    pub fn prune(&mut self, now: u64)
        requires
            old(self).wf(),
        ensures
            final(self).wf(),
            final(self)@ == retained(old(self)@, now, old(self).retention()),
            final(self).retention() == old(self).retention(),
    {
        let ghost before = self@;
        let mut i: usize = 0;
        while i < self.entries.len()
            invariant
                self.retention == old(self).retention,
                distinct_keys(pairs(self.entries@)),
                i <= self.entries.len(),
                forall|j: int|
                    0 <= j < i ==> !expired(
                        (#[trigger] self.entries[j]).inserted_at,
                        now,
                        self.retention,
                    ),
                forall|k: Seq<u8>| #[trigger]
                    self@.contains_key(k) ==> before.contains_key(k) && self@[k] == before[k],
                forall|k: Seq<u8>|
                    #[trigger] before.contains_key(k) && !expired(before[k], now, self.retention)
                        ==> self@.contains_key(k),
            decreases self.entries.len() - i,
        {
            let stamp = self.entries[i].inserted_at;
            if now > stamp && now - stamp > self.retention {
                let ghost s = self.entries@;
                let ghost m = self@;
                proof {
                    lemma_entry(pairs(s), i as int);
                    lemma_swap_remove(pairs(s), i as int);
                    assert(pairs(s.update(i as int, s.last()).drop_last()) =~= pairs(s).update(
                        i as int,
                        pairs(s).last(),
                    ).drop_last());
                }
                self.entries.swap_remove(i);
                proof {
                    assert(self@ == m.remove(pairs(s)[i as int].0));
                    assert forall|k: Seq<u8>| #[trigger] self@.contains_key(k) implies before.contains_key(k)
                        && self@[k] == before[k] by {
                        assert(m.contains_key(k));
                    }
                }
            } else {
                i += 1;
            }
        }
        proof {
            let p = pairs(self.entries@);
            assert forall|k: Seq<u8>| self@.contains_key(k) implies !expired(
                self@[k],
                now,
                self.retention,
            ) by {
                lemma_lookup(p, k);
                assert(self.entries[key_index(p, k)].inserted_at == self@[k]);
            }
            assert(self@ =~= retained(before, now, self.retention));
        }
    }
}

} // verus!
