//! Bounded, time-limited statistics cache.
//!
//! A mapping from cache keys to statistics entries, holding at most
//! [`CACHE_CAPACITY`] entries, each for at most [`TTL_SECONDS`] seconds.
//! Slots are kept in least-recently-used order: the front of the slot list is
//! the eviction candidate, the back is the most recently used. A lookup of a
//! live entry refreshes its position; a lookup that finds an expired entry
//! removes it and reports a miss. Inserting into a full cache evicts exactly
//! the least-recently-used slot. The caller supplies the clock as a seconds
//! value, so every contract here is exact in the time argument.

use vstd::prelude::*;
use crate::stats::{clone_entries, LangEntry};
use crate::strutil::str_eq;

verus! {

/// Most entries the cache will hold at any time.
pub const CACHE_CAPACITY: usize = 1000;

/// Seconds an entry stays live: 24 hours.
pub const TTL_SECONDS: u64 = 86400;

/// One stored entry: its key, its value and the time it was inserted.
pub struct CacheSlot {
    pub key: String,
    pub value: Vec<LangEntry>,
    pub inserted_at: u64,
}

/// Whether a slot is still live at time `now`: younger than the time-to-live.
pub open spec fn slot_live(slot: CacheSlot, now: u64) -> bool {
    (now as int) < (slot.inserted_at as int) + (TTL_SECONDS as int)
}

/// Whether some slot carries the key.
pub open spec fn has_key(s: Seq<CacheSlot>, k: Seq<char>) -> bool {
    exists|i: int| 0 <= i < s.len() && s[i].key@ == k
}

/// The index of the slot carrying the key (unique under [`StatsCache::wf`]).
pub open spec fn key_index(s: Seq<CacheSlot>, k: Seq<char>) -> int {
    choose|i: int| 0 <= i < s.len() && s[i].key@ == k
}

/// The slot list after a lookup of `k` at time `now`: a live hit moves its
/// slot to the most-recently-used end, an expired hit drops it, a miss
/// changes nothing.
pub open spec fn spec_lookup_state(s: Seq<CacheSlot>, k: Seq<char>, now: u64) -> Seq<CacheSlot> {
    if !has_key(s, k) {
        s
    } else {
        let i = key_index(s, k);
        if slot_live(s[i], now) {
            s.remove(i).push(s[i])
        } else {
            s.remove(i)
        }
    }
}

/// The value a lookup of `k` at time `now` returns: the stored entry on a
/// live hit, nothing on a miss or an expired entry.
pub open spec fn spec_lookup_result(s: Seq<CacheSlot>, k: Seq<char>, now: u64) -> Option<
    Seq<LangEntry>,
> {
    if has_key(s, k) && slot_live(s[key_index(s, k)], now) {
        Some(s[key_index(s, k)].value@)
    } else {
        None
    }
}

/// The slot list after inserting `slot`: an old slot with the same key is
/// replaced; the new slot becomes most recently used; if the cache would then
/// exceed its capacity, the least-recently-used slot (the front) is evicted.
pub open spec fn spec_insert_state(s: Seq<CacheSlot>, slot: CacheSlot) -> Seq<CacheSlot> {
    let cleared = if has_key(s, slot.key@) {
        s.remove(key_index(s, slot.key@))
    } else {
        s
    };
    let grown = cleared.push(slot);
    if grown.len() > CACHE_CAPACITY {
        grown.drop_first()
    } else {
        grown
    }
}

/// The in-memory statistics cache. Created once at process startup; entries
/// leave only by eviction. All access goes through [`StatsCache::lookup`] and
/// [`StatsCache::insert`]; the caller serializes them behind one lock, so at
/// most one computation is in flight process-wide.
pub struct StatsCache {
    slots: Vec<CacheSlot>,
}

impl View for StatsCache {
    type V = Seq<CacheSlot>;

    /// The slots in least-recently-used order (front is evicted first).
    closed spec fn view(&self) -> Seq<CacheSlot> {
        self.slots@
    }
}

impl StatsCache {
    /// Well-formed: within capacity and no key appears twice.
    pub closed spec fn wf(&self) -> bool {
        &&& self.slots@.len() <= CACHE_CAPACITY
        &&& forall|i: int, j: int|
            0 <= i < j < self.slots@.len() ==> self.slots@[i].key@ != self.slots@[j].key@
    }

    /// Well-formedness seen through the view: within capacity, distinct keys.
    pub proof fn lemma_wf_facts(&self)
        requires
            self.wf(),
        ensures
            self@.len() <= CACHE_CAPACITY,
            forall|i: int, j: int| 0 <= i < j < self@.len() ==> self@[i].key@ != self@[j].key@,
    {
    }

    /// An empty cache.
    pub fn new() -> (r: StatsCache)
        ensures
            r.wf(),
            r@ == Seq::<CacheSlot>::empty(),
    {
        let r = StatsCache { slots: Vec::new() };
        proof {
            assert(r.slots@ =~= Seq::<CacheSlot>::empty());
        }
        r
    }

    /// How many entries the cache holds.
    pub fn len(&self) -> (r: usize)
        ensures
            r == self@.len(),
    {
        self.slots.len()
    }

    fn find(&self, key: &str) -> (r: Option<usize>)
        requires
            self.wf(),
        ensures
            match r {
                Some(i) => i < self@.len() && self@[i as int].key@ == key@ && i == key_index(
                    self@,
                    key@,
                ),
                None => !has_key(self@, key@),
            },
    {
        let mut i: usize = 0;
        while i < self.slots.len()
            invariant
                self.wf(),
                i <= self.slots@.len(),
                forall|j: int| 0 <= j < i ==> self.slots@[j].key@ != key@,
            decreases self.slots@.len() - i,
        {
            if str_eq(self.slots[i].key.as_str(), key) {
                proof {
                    assert(self@[i as int].key@ == key@);
                    let w = key_index(self@, key@);
                    assert(0 <= w < self@.len() && self@[w].key@ == key@);
                    if w < i {
                        assert(self.slots@[w].key@ != self.slots@[i as int].key@);
                    } else if w > i {
                        assert(self.slots@[i as int].key@ != self.slots@[w].key@);
                    }
                }
                return Some(i);
            }
            i += 1;
        }
        None
    }

    /// Looks the key up at time `now`. A live hit returns an exact copy of
    /// the stored entry (it was served from the cache) and refreshes the
    /// slot's recency; an entry older than the time-to-live is dropped and
    /// reported as a miss, so the caller recomputes it.
    pub fn lookup(&mut self, key: &str, now: u64) -> (r: Option<Vec<LangEntry>>)
        requires
            old(self).wf(),
        ensures
            final(self).wf(),
            final(self)@ == spec_lookup_state(old(self)@, key@, now),
            match r {
                Some(v) => spec_lookup_result(old(self)@, key@, now) == Some(v@),
                None => spec_lookup_result(old(self)@, key@, now) is None,
            },
    {
        let ghost before = self.slots@;
        match self.find(key) {
            None => None,
            Some(i) => {
                let slot = self.slots.remove(i);
                proof {
                    assert(self.slots@ =~= before.remove(i as int));
                }
                let live = now < slot.inserted_at || now - slot.inserted_at < TTL_SECONDS;
                if live {
                    let out = clone_entries(&slot.value);
                    self.slots.push(slot);
                    proof {
                        assert(self.slots@ =~= before.remove(i as int).push(before[i as int]));
                        lemma_remove_keeps_distinct(before, i as int);
                        let rm = before.remove(i as int);
                        assert forall|a: int, b: int|
                            0 <= a < b < self.slots@.len() implies self.slots@[a].key@
                            != self.slots@[b].key@ by {
                            if b < rm.len() {
                                assert(self.slots@[a] == rm[a]);
                                assert(self.slots@[b] == rm[b]);
                            } else {
                                let ra = if a < i {
                                    a
                                } else {
                                    a + 1
                                };
                                assert(self.slots@[a] == rm[a]);
                                assert(rm[a] == before[ra]);
                                assert(self.slots@[b] == before[i as int]);
                                assert(before[ra].key@ != before[i as int].key@);
                            }
                        }
                    }
                    Some(out)
                } else {
                    proof {
                        lemma_remove_keeps_distinct(before, i as int);
                    }
                    None
                }
            },
        }
    }

    /// Stores a value under a key at time `now`. An old entry with the same
    /// key is replaced, the new entry becomes most recently used, and when
    /// the cache is full the least-recently-used entry is evicted, so the
    /// bound on the cache's size always holds.
    pub fn insert(&mut self, key: String, value: Vec<LangEntry>, now: u64)
        requires
            old(self).wf(),
        ensures
            final(self).wf(),
            final(self)@ == spec_insert_state(
                old(self)@,
                (CacheSlot { key: key, value: value, inserted_at: now }),
            ),
    {
        let ghost before = self.slots@;
        let ghost slot_g = CacheSlot { key: key, value: value, inserted_at: now };
        let cleared_idx = self.find(key.as_str());
        match cleared_idx {
            Some(i) => {
                let _ = self.slots.remove(i);
                proof {
                    assert(self.slots@ =~= before.remove(i as int));
                }
            },
            None => {},
        }
        self.slots.push(CacheSlot { key, value, inserted_at: now });
        if self.slots.len() > CACHE_CAPACITY {
            let _ = self.slots.remove(0);
            proof {
                assert(self.slots@ =~= spec_insert_state(before, slot_g));
            }
        } else {
            proof {
                assert(self.slots@ =~= spec_insert_state(before, slot_g));
            }
        }
        proof {
            lemma_insert_state_wf(before, slot_g);
        }
    }
}

/// Removing one slot keeps the remaining keys distinct and in order.
proof fn lemma_remove_keeps_distinct(s: Seq<CacheSlot>, i: int)
    requires
        0 <= i < s.len(),
        forall|a: int, b: int| 0 <= a < b < s.len() ==> s[a].key@ != s[b].key@,
    ensures
        forall|a: int, b: int|
            0 <= a < b < s.remove(i).len() ==> s.remove(i)[a].key@ != s.remove(i)[b].key@,
        forall|a: int|
            0 <= a < s.remove(i).len() ==> (#[trigger] s.remove(i)[a] == if a < i {
                s[a]
            } else {
                s[a + 1]
            }),
{
    assert forall|a: int, b: int|
        0 <= a < b < s.remove(i).len() implies s.remove(i)[a].key@ != s.remove(i)[b].key@ by {
        let ra = if a < i {
            a
        } else {
            a + 1
        };
        let rb = if b < i {
            b
        } else {
            b + 1
        };
        assert(s.remove(i)[a] == s[ra]);
        assert(s.remove(i)[b] == s[rb]);
    }
}

/// The cache never holds more than its capacity of entries; this is part of
/// the well-formedness that every operation preserves.
pub proof fn lemma_capacity_bound(c: StatsCache)
    requires
        c.wf(),
    ensures
        c@.len() <= 1000,
{
}

/// Inserting a fresh key into a full cache evicts exactly the
/// least-recently-used entry: the front slot leaves, every other slot stays
/// in order, and the size stays at the capacity.
pub proof fn lemma_full_insert_evicts_lru(s: Seq<CacheSlot>, slot: CacheSlot)
    requires
        s.len() == CACHE_CAPACITY,
        !has_key(s, slot.key@),
    ensures
        spec_insert_state(s, slot) == s.drop_first().push(slot),
        spec_insert_state(s, slot).len() == CACHE_CAPACITY,
{
    assert(spec_insert_state(s, slot) =~= s.drop_first().push(slot));
}

/// Inserting while under capacity evicts nothing: every slot stays, the new
/// entry goes to the most-recently-used end.
pub proof fn lemma_insert_no_eviction(s: Seq<CacheSlot>, slot: CacheSlot)
    requires
        s.len() < CACHE_CAPACITY,
        !has_key(s, slot.key@),
    ensures
        spec_insert_state(s, slot) == s.push(slot),
{
}

/// A lookup within the time-to-live window, right after an insert of the
/// same key, is a hit and returns exactly the inserted value: repeated
/// requests for the same resolved reference inside the window are served
/// from the cache with an identical statistics entry.
pub proof fn lemma_hit_within_ttl(s: Seq<CacheSlot>, slot: CacheSlot, later: u64)
    requires
        forall|a: int, b: int| 0 <= a < b < s.len() ==> s[a].key@ != s[b].key@,
        s.len() <= CACHE_CAPACITY,
        (later as int) < (slot.inserted_at as int) + (TTL_SECONDS as int),
    ensures
        spec_lookup_result(spec_insert_state(s, slot), slot.key@, later) == Some(slot.value@),
{
    let t = spec_insert_state(s, slot);
    lemma_insert_state_wf(s, slot);
    assert(t[t.len() - 1] == slot);
    assert(has_key(t, slot.key@));
    let i = key_index(t, slot.key@);
    assert(0 <= i < t.len() && t[i].key@ == slot.key@);
    if i != t.len() - 1 {
        assert(t[i].key@ != t[t.len() - 1].key@);
    }
}

/// A hit does not consume the entry: a second and any further lookup of the
/// same key, still inside the time-to-live window, is again served from the
/// cache and returns the identical value.
pub proof fn lemma_hit_again(s: Seq<CacheSlot>, k: Seq<char>, t1: u64, t2: u64)
    requires
        forall|a: int, b: int| 0 <= a < b < s.len() ==> s[a].key@ != s[b].key@,
        spec_lookup_result(s, k, t1) is Some,
        slot_live(s[key_index(s, k)], t2),
    ensures
        spec_lookup_result(spec_lookup_state(s, k, t1), k, t2) == spec_lookup_result(s, k, t1),
{
    let i = key_index(s, k);
    assert(0 <= i < s.len() && s[i].key@ == k);
    let u = spec_lookup_state(s, k, t1);
    assert(u == s.remove(i).push(s[i]));
    lemma_remove_keeps_distinct(s, i);
    assert(u[u.len() - 1] == s[i]);
    assert(has_key(u, k));
    let j = key_index(u, k);
    assert(0 <= j < u.len() && u[j].key@ == k);
    if j != u.len() - 1 {
        let rj = if j < i {
            j
        } else {
            j + 1
        };
        assert(u[j] == s.remove(i)[j]);
        assert(s.remove(i)[j] == s[rj]);
        if rj < i {
            assert(s[rj].key@ != s[i].key@);
        } else if rj > i {
            assert(s[i].key@ != s[rj].key@);
        }
    }
}

/// An entry older than the time-to-live is treated as a miss on lookup, and
/// the lookup removes it, so the caller recomputes and reinserts it.
pub proof fn lemma_expired_is_miss(s: Seq<CacheSlot>, slot: CacheSlot, later: u64)
    requires
        forall|a: int, b: int| 0 <= a < b < s.len() ==> s[a].key@ != s[b].key@,
        s.len() <= CACHE_CAPACITY,
        (later as int) >= (slot.inserted_at as int) + (TTL_SECONDS as int),
    ensures
        spec_lookup_result(spec_insert_state(s, slot), slot.key@, later) is None,
        !has_key(spec_lookup_state(spec_insert_state(s, slot), slot.key@, later), slot.key@),
{
    let t = spec_insert_state(s, slot);
    lemma_insert_state_wf(s, slot);
    assert(t[t.len() - 1] == slot);
    assert(has_key(t, slot.key@));
    let i = key_index(t, slot.key@);
    assert(0 <= i < t.len() && t[i].key@ == slot.key@);
    if i != t.len() - 1 {
        assert(t[i].key@ != t[t.len() - 1].key@);
    }
    assert(!slot_live(t[i], later));
    let u = spec_lookup_state(t, slot.key@, later);
    assert(u =~= t.remove(i));
    assert forall|j: int| 0 <= j < u.len() implies u[j].key@ != slot.key@ by {
        let rj = if j < i {
            j
        } else {
            j + 1
        };
        assert(u[j] == t[rj]);
        if rj != i {
            assert(t[rj].key@ != t[i].key@);
        }
    }
}

/// Inserting into a well-formed slot list gives a well-formed slot list.
pub proof fn lemma_insert_state_wf(s: Seq<CacheSlot>, slot: CacheSlot)
    requires
        forall|a: int, b: int| 0 <= a < b < s.len() ==> s[a].key@ != s[b].key@,
        s.len() <= CACHE_CAPACITY,
    ensures
        spec_insert_state(s, slot).len() <= CACHE_CAPACITY,
        forall|a: int, b: int|
            0 <= a < b < spec_insert_state(s, slot).len() ==> spec_insert_state(s, slot)[a].key@
                != spec_insert_state(s, slot)[b].key@,
        spec_insert_state(s, slot).len() > 0,
        spec_insert_state(s, slot)[spec_insert_state(s, slot).len() - 1] == slot,
{
    let cleared = if has_key(s, slot.key@) {
        s.remove(key_index(s, slot.key@))
    } else {
        s
    };
    if has_key(s, slot.key@) {
        let i = key_index(s, slot.key@);
        assert(0 <= i < s.len() && s[i].key@ == slot.key@);
        lemma_remove_keeps_distinct(s, i);
        assert forall|j: int| 0 <= j < cleared.len() implies cleared[j].key@ != slot.key@ by {
            let rj = if j < i {
                j
            } else {
                j + 1
            };
            assert(cleared[j] == s[rj]);
            if rj != i {
                assert(s[rj].key@ != s[i].key@);
            }
        }
    } else {
        assert(forall|j: int| 0 <= j < cleared.len() ==> cleared[j].key@ != slot.key@);
    }
    let grown = cleared.push(slot);
    assert(forall|a: int, b: int| 0 <= a < b < grown.len() ==> grown[a].key@ != grown[b].key@);
    if grown.len() > CACHE_CAPACITY {
        let out = grown.drop_first();
        assert forall|a: int, b: int|
            0 <= a < b < out.len() implies out[a].key@ != out[b].key@ by {
            assert(out[a] == grown[a + 1]);
            assert(out[b] == grown[b + 1]);
        }
        assert(out[out.len() - 1] == grown[grown.len() - 1]);
    }
}

} // verus!
