//! An in-memory cache of vectors with least-recently-used eviction and an
//! optional time to live, and a two-level cache built from two of them.
//!
//! Times are nanoseconds on the cache's own monotonic clock, counted from the
//! moment the cache was created. Every operation that reads the clock has a
//! counterpart ending in `_at` that takes the time as an argument; the
//! clock-reading operation behaves as its counterpart does at a time no
//! earlier than the latest time at which the cache was used.

use crate::clock::{instant_now, nanos_since};
use std::collections::HashMap;
use std::time::Instant;
use vstd::prelude::*;
use vstd::std_specs::iter::IteratorSpec;

verus! {

broadcast use vstd::std_specs::hash::group_hash_axioms;

/// One cached value with its access bookkeeping.
#[derive(Debug, Clone)]
pub struct CacheEntry<T> {
    pub data: T,
    /// Time of the last access, in nanoseconds on the owning cache's clock.
    pub last_access: u64,
    pub access_count: u64,
}

/// The access count after one more access; it stays at `u64::MAX` once there.
pub open spec fn next_count(c: u64) -> u64 {
    if c < u64::MAX {
        (c + 1) as u64
    } else {
        u64::MAX
    }
}

/// A new entry holding `data`, accessed once, at `now`.
pub open spec fn fresh_entry<T>(data: T, now: u64) -> CacheEntry<T> {
    CacheEntry { data, last_access: now, access_count: 1 }
}

/// `e` after an access at `now`.
pub open spec fn touched<T>(e: CacheEntry<T>, now: u64) -> CacheEntry<T> {
    CacheEntry { data: e.data, last_access: now, access_count: next_count(e.access_count) }
}

impl<T> CacheEntry<T> {
    pub fn new(data: T, now: u64) -> (r: Self)
        ensures
            r == fresh_entry(data, now),
    {
        CacheEntry { data, last_access: now, access_count: 1 }
    }

    /// Records an access at `now`.
    pub fn touch(&mut self, now: u64)
        ensures
            *final(self) == touched(*old(self), now),
    {
        self.last_access = now;
        if self.access_count < u64::MAX {
            self.access_count = self.access_count + 1;
        }
    }
}

/// The size limit and the time to live of a cache.
#[derive(Debug, Clone)]
pub struct CacheConfig {
    pub max_size: usize,
    /// How long an entry lives after its last access, in nanoseconds; `None`
    /// keeps entries until they are evicted or removed.
    pub ttl: Option<u64>,
}

impl Default for CacheConfig {
    /// 10 000 entries, one hour (3.6e12 ns) to live.
    fn default() -> (r: Self)
        ensures
            r == (CacheConfig { max_size: 10_000, ttl: Some(3_600_000_000_000) }),
    {
        CacheConfig { max_size: 10_000, ttl: Some(3_600_000_000_000) }
    }
}

/// Nanoseconds from `then` to `now`, or 0 when `then` is later.
pub open spec fn elapsed_since(now: u64, then: u64) -> int {
    if now >= then {
        now - then
    } else {
        0
    }
}

/// Whether `e` has outlived the time to live `ttl` at `now`.
pub open spec fn is_expired<T>(e: CacheEntry<T>, ttl: Option<u64>, now: u64) -> bool {
    match ttl {
        Some(t) => elapsed_since(now, e.last_access) > t,
        None => false,
    }
}

/// `k` is an entry that least-recent-use eviction at `now` may remove: it
/// was last used before `now`, and no entry was last used earlier.
pub open spec fn is_lru_victim<T>(m: Map<u64, CacheEntry<T>>, now: u64, k: u64) -> bool {
    &&& m.contains_key(k)
    &&& m[k].last_access < now
    &&& forall|j: u64| #[trigger] m.contains_key(j) ==> m[k].last_access <= m[j].last_access
}

/// Some entry was last used before `now`.
pub open spec fn has_evictable<T>(m: Map<u64, CacheEntry<T>>, now: u64) -> bool {
    exists|k: u64| #[trigger] m.contains_key(k) && m[k].last_access < now
}

/// `after` is `before` with one least-recently-used entry removed, or
/// `before` itself when every entry was used at `now` or later.
pub open spec fn lru_evicted<T>(
    before: Map<u64, CacheEntry<T>>,
    now: u64,
    after: Map<u64, CacheEntry<T>>,
) -> bool {
    if has_evictable(before, now) {
        exists|k: u64| #[trigger] is_lru_victim(before, now, k) && after == before.remove(k)
    } else {
        after == before
    }
}

/// What a lookup of `id` at `now` does: a missing id gives `None`; an expired
/// entry is dropped and gives `None`; a live entry is touched and a clone of
/// its data is returned.
pub open spec fn get_outcome<T: Clone>(
    before: Map<u64, CacheEntry<T>>,
    after: Map<u64, CacheEntry<T>>,
    ttl: Option<u64>,
    id: u64,
    now: u64,
    r: Option<T>,
) -> bool {
    if !before.contains_key(id) {
        r is None && after == before
    } else if is_expired(before[id], ttl, now) {
        r is None && after == before.remove(id)
    } else {
        &&& r matches Some(d) && cloned(before[id].data, d)
        &&& after == before.insert(id, touched(before[id], now))
    }
}

/// What storing `data` under `id` at `now` does: a cache holding `max_size`
/// entries or more first evicts its least recently used one, then the new
/// entry is inserted, replacing any entry under `id`.
pub open spec fn put_outcome<T>(
    before: Map<u64, CacheEntry<T>>,
    after: Map<u64, CacheEntry<T>>,
    max_size: usize,
    id: u64,
    data: T,
    now: u64,
) -> bool {
    if before.len() >= max_size {
        exists|mid: Map<u64, CacheEntry<T>>|
            #[trigger] lru_evicted(before, now, mid) && after == mid.insert(id, fresh_entry(data, now))
    } else {
        after == before.insert(id, fresh_entry(data, now))
    }
}

/// What a lookup of `id` at `now` that falls back on `f` does, the value
/// computed being stored at `now2`: a live entry answers as `get_outcome`
/// says; otherwise any expired entry is dropped, `r` is what `f` returned,
/// and a clone of it is stored.
pub open spec fn get_or_insert_outcome<T: Clone, F: FnOnce() -> T>(
    before: Map<u64, CacheEntry<T>>,
    after: Map<u64, CacheEntry<T>>,
    ttl: Option<u64>,
    max_size: usize,
    id: u64,
    now: u64,
    now2: u64,
    f: F,
    r: T,
) -> bool {
    if live_in(before, ttl, id, now) {
        get_outcome(before, after, ttl, id, now, Some(r))
    } else {
        &&& f.ensures((), r)
        &&& exists|c: T| #[trigger]
            cloned(r, c) && put_outcome(before.remove(id), after, max_size, id, c, now2)
    }
}

/// The larger of `a` and `b`.
pub open spec fn max_u64(a: u64, b: u64) -> u64 {
    if a >= b {
        a
    } else {
        b
    }
}

/// A bounded cache of values keyed by vector id.
pub struct VectorCache<T> {
    cache: HashMap<u64, CacheEntry<T>>,
    max_size: usize,
    ttl_nanos: Option<u64>,
    clock: Instant,
    /// The latest time at which the cache was used, in nanoseconds on
    /// `clock`.
    latest: u64,
}

impl<T> View for VectorCache<T> {
    type V = Map<u64, CacheEntry<T>>;

    closed spec fn view(&self) -> Map<u64, CacheEntry<T>> {
        self.cache@
    }
}

impl<T> VectorCache<T> {
    /// The number of entries at which a store evicts first.
    pub closed spec fn max_size(&self) -> usize {
        self.max_size
    }

    /// The time to live in nanoseconds, if entries expire.
    pub closed spec fn ttl(&self) -> Option<u64> {
        self.ttl_nanos
    }

    /// The clock this cache reads, shared by caches built together.
    pub closed spec fn clock(&self) -> Instant {
        self.clock
    }

    /// The latest time at which the cache was used: the largest time of any
    /// lookup or store so far, or 0 for a new cache.
    pub closed spec fn latest(&self) -> u64 {
        self.latest
    }
}

impl<T: Clone> VectorCache<T> {
    pub fn new(config: CacheConfig) -> (r: Self)
        ensures
            r@ == Map::<u64, CacheEntry<T>>::empty(),
            r.max_size() == config.max_size,
            r.ttl() == config.ttl,
            r.latest() == 0,
    {
        let clock = instant_now();
        Self::with_clock(config, clock)
    }

    /// A cache that reads the given clock.
    pub(crate) fn with_clock(config: CacheConfig, clock: Instant) -> (r: Self)
        ensures
            r@ == Map::<u64, CacheEntry<T>>::empty(),
            r.max_size() == config.max_size,
            r.ttl() == config.ttl,
            r.clock() == clock,
            r.latest() == 0,
    {
        VectorCache {
            cache: HashMap::new(),
            max_size: config.max_size,
            ttl_nanos: config.ttl,
            clock,
            latest: 0,
        }
    }

    /// The current time on this cache's clock, in nanoseconds; never
    /// earlier than the cache's latest use.
    pub fn now(&self) -> (r: u64)
        ensures
            r >= self.latest(),
    {
        let t = nanos_since(&self.clock);
        if t >= self.latest {
            t
        } else {
            self.latest
        }
    }

    /// Records a use of the cache at `now`.
    fn advance(&mut self, now: u64)
        ensures
            final(self)@ == old(self)@,
            final(self).latest() == max_u64(old(self).latest(), now),
            final(self).max_size() == old(self).max_size(),
            final(self).ttl() == old(self).ttl(),
            final(self).clock() == old(self).clock(),
    {
        if now > self.latest {
            self.latest = now;
        }
    }

    /// Looks `id` up at time `now`.
    pub fn get_at(&mut self, id: u64, now: u64) -> (r: Option<T>)
        ensures
            get_outcome(old(self)@, final(self)@, old(self).ttl(), id, now, r),
            final(self).max_size() == old(self).max_size(),
            final(self).ttl() == old(self).ttl(),
            final(self).clock() == old(self).clock(),
            final(self).latest() == max_u64(old(self).latest(), now),
    {
        self.advance(now);
        match self.cache.remove(&id) {
            None => {
                assert(self@ =~= old(self)@);
                None
            },
            Some(entry) => {
                if let Some(ttl) = self.ttl_nanos {
                    let elapsed: u64 = if now >= entry.last_access {
                        now - entry.last_access
                    } else {
                        0
                    };
                    if elapsed > ttl {
                        return None;
                    }
                }
                let mut e = entry;
                e.touch(now);
                let d = e.data.clone();
                assert(cloned(e.data, d));
                assert(e == touched(old(self)@[id], now));
                self.cache.insert(id, e);
                assert(self@ =~= old(self)@.insert(id, touched(old(self)@[id], now)));
                Some(d)
            },
        }
    }

    /// Looks `id` up now: a live entry is touched and its data cloned out, an
    /// expired one is dropped.
    pub fn get(&mut self, id: u64) -> (r: Option<T>)
        ensures
            exists|now: u64|
                {
                    &&& now >= old(self).latest()
                    &&& final(self).latest() == now
                    &&& get_outcome(old(self)@, final(self)@, old(self).ttl(), id, now, r)
                },
            final(self).max_size() == old(self).max_size(),
            final(self).ttl() == old(self).ttl(),
            final(self).clock() == old(self).clock(),
    {
        let now = self.now();
        self.get_at(id, now)
    }

    /// Removes one least recently used entry, if one was used before `now`.
    fn evict_lru(&mut self, now: u64)
        ensures
            lru_evicted(old(self)@, now, final(self)@),
            final(self).max_size() == old(self).max_size(),
            final(self).ttl() == old(self).ttl(),
            final(self).clock() == old(self).clock(),
            final(self).latest() == old(self).latest(),
    {
        if self.cache.is_empty() {
            return;
        }
        let mut oldest_key: Option<u64> = None;
        let mut oldest_time: u64 = now;
        let ghost s = self.cache.iter().remaining();
        for (key, entry) in it: self.cache.iter()
            invariant
                s == self.cache.iter().remaining(),
                oldest_time <= now,
                oldest_key matches Some(k) ==> self.cache@.contains_key(k)
                    && self.cache@[k].last_access == oldest_time && oldest_time < now,
                oldest_key is None ==> oldest_time == now,
                forall|i: int| 0 <= i < it.index() ==> oldest_time <= (#[trigger] s[i]).1.last_access,
        {
            assert(it.seq() == s);
            if entry.last_access < oldest_time {
                oldest_time = entry.last_access;
                oldest_key = Some(*key);
            }
        }
        proof {
            assert forall|j: u64| #[trigger] self.cache@.contains_key(j) implies oldest_time
                <= self.cache@[j].last_access by {
                assert(s.contains((&j, &self.cache@[j])));
                let i = choose|i: int| 0 <= i < s.len() && s[i] == (&j, &self.cache@[j]);
                assert(oldest_time <= s[i].1.last_access);
            }
        }
        if let Some(k) = oldest_key {
            self.cache.remove(&k);
            assert(is_lru_victim(old(self)@, now, k));
        }
    }

    /// Stores `data` under `id` at time `now`, evicting first when full.
    pub fn put_at(&mut self, id: u64, data: T, now: u64)
        ensures
            put_outcome(old(self)@, final(self)@, old(self).max_size(), id, data, now),
            final(self).max_size() == old(self).max_size(),
            final(self).ttl() == old(self).ttl(),
            final(self).clock() == old(self).clock(),
            final(self).latest() == max_u64(old(self).latest(), now),
    {
        self.advance(now);
        if self.cache.len() >= self.max_size {
            self.evict_lru(now);
            let ghost mid = self@;
            self.cache.insert(id, CacheEntry::new(data, now));
            assert(lru_evicted(old(self)@, now, mid) && self@ == mid.insert(id, fresh_entry(data, now)));
        } else {
            self.cache.insert(id, CacheEntry::new(data, now));
        }
    }

    /// Stores `data` under `id` now.
    pub fn put(&mut self, id: u64, data: T)
        ensures
            exists|now: u64|
                {
                    &&& now >= old(self).latest()
                    &&& final(self).latest() == now
                    &&& put_outcome(old(self)@, final(self)@, old(self).max_size(), id, data, now)
                },
            final(self).max_size() == old(self).max_size(),
            final(self).ttl() == old(self).ttl(),
            final(self).clock() == old(self).clock(),
    {
        let now = self.now();
        self.put_at(id, data, now)
    }

    /// Looks `id` up at time `now`; on a miss computes the value with `f`,
    /// stores a clone of it at time `now2`, and returns it.
    pub fn get_or_insert_at<F: FnOnce() -> T>(&mut self, id: u64, f: F, now: u64, now2: u64) -> (r: T)
        requires
            f.requires(()),
        ensures
            get_or_insert_outcome(
                old(self)@,
                final(self)@,
                old(self).ttl(),
                old(self).max_size(),
                id,
                now,
                now2,
                f,
                r,
            ),
            final(self).max_size() == old(self).max_size(),
            final(self).ttl() == old(self).ttl(),
            final(self).clock() == old(self).clock(),
            final(self).latest() == if live_in(old(self)@, old(self).ttl(), id, now) {
                max_u64(old(self).latest(), now)
            } else {
                max_u64(max_u64(old(self).latest(), now), now2)
            },
    {
        let got = self.get_at(id, now);
        if let Some(data) = got {
            return data;
        }
        assert(self@ =~= old(self)@.remove(id));
        let data = f();
        let c = data.clone();
        self.put_at(id, c, now2);
        assert(cloned(data, c));
        data
    }

    /// Returns the cached value for `id`, or computes it with `f`, stores a
    /// clone of it, and returns it. The lookup and the store each read the
    /// clock.
    pub fn get_or_insert<F: FnOnce() -> T>(&mut self, id: u64, f: F) -> (r: T)
        requires
            f.requires(()),
        ensures
            exists|now: u64, now2: u64|
                old(self).latest() <= now <= now2 && final(self).latest() == now2 && #[trigger] get_or_insert_outcome(
                    old(self)@,
                    final(self)@,
                    old(self).ttl(),
                    old(self).max_size(),
                    id,
                    now,
                    now2,
                    f,
                    r,
                ),
            final(self).max_size() == old(self).max_size(),
            final(self).ttl() == old(self).ttl(),
            final(self).clock() == old(self).clock(),
    {
        let now = self.now();
        let got = self.get_at(id, now);
        if let Some(data) = got {
            assert(get_or_insert_outcome(old(self)@, self@, old(self).ttl(), old(self).max_size(), id, now, now, f, data));
            return data;
        }
        assert(self@ =~= old(self)@.remove(id));
        let data = f();
        let c = data.clone();
        let now2 = self.now();
        self.put_at(id, c, now2);
        assert(cloned(data, c));
        assert(get_or_insert_outcome(old(self)@, self@, old(self).ttl(), old(self).max_size(), id, now, now2, f, data));
        data
    }

    /// Removes the entry for `id` and returns its data.
    pub fn remove(&mut self, id: u64) -> (r: Option<T>)
        ensures
            final(self)@ == old(self)@.remove(id),
            old(self)@.contains_key(id) ==> r == Some(old(self)@[id].data),
            !old(self)@.contains_key(id) ==> r is None,
            final(self).max_size() == old(self).max_size(),
            final(self).ttl() == old(self).ttl(),
            final(self).clock() == old(self).clock(),
            final(self).latest() == old(self).latest(),
    {
        match self.cache.remove(&id) {
            Some(e) => Some(e.data),
            None => None,
        }
    }

    pub fn clear(&mut self)
        ensures
            final(self)@ == Map::<u64, CacheEntry<T>>::empty(),
            final(self).max_size() == old(self).max_size(),
            final(self).ttl() == old(self).ttl(),
            final(self).clock() == old(self).clock(),
            final(self).latest() == old(self).latest(),
    {
        self.cache.clear();
    }

    pub fn len(&self) -> (r: usize)
        ensures
            self@.dom().finite(),
            r == self@.len(),
    {
        self.cache.len()
    }

    pub fn is_empty(&self) -> (r: bool)
        ensures
            r == (self@.len() == 0),
    {
        self.len() == 0
    }

    /// The access counts of all entries, one per entry, in no particular
    /// order.
    pub fn access_counts(&self) -> (r: Vec<u64>)
        ensures
            exists|keys: Seq<u64>|
                {
                    &&& keys.no_duplicates()
                    &&& keys.to_set() == self@.dom()
                    &&& r@ == keys.map_values(|k: u64| self@[k].access_count)
                },
    {
        let mut counts: Vec<u64> = Vec::new();
        let ghost s = self.cache.iter().remaining();
        let ghost mut keys: Seq<u64> = Seq::empty();
        for (key, entry) in it: self.cache.iter()
            invariant
                s == self.cache.iter().remaining(),
                s.no_duplicates(),
                keys.len() == it.index(),
                forall|i: int| 0 <= i < it.index() ==> keys[i] == *(#[trigger] s[i]).0,
                counts@ == keys.map_values(|k: u64| self@[k].access_count),
        {
            assert(it.seq() == s);
            counts.push(entry.access_count);
            proof {
                keys = keys.push(*key);
            }
            assert(counts@ =~= keys.map_values(|k: u64| self@[k].access_count));
        }
        proof {
            assert(keys.no_duplicates()) by {
                assert forall|i: int, j: int| 0 <= i < keys.len() && 0 <= j < keys.len() && i != j
                    implies keys[i] != keys[j] by {
                    if keys[i] == keys[j] {
                        assert(*s[i].1 == self@[keys[i]]);
                        assert(*s[j].1 == self@[keys[j]]);
                        assert(s[i] == s[j]);
                    }
                }
            }
            assert(keys.to_set() =~= self@.dom()) by {
                assert forall|k: u64| keys.to_set().contains(k) <==> self@.dom().contains(k) by {
                    if self@.dom().contains(k) {
                        assert(s.contains((&k, &self@[k])));
                        let i = choose|i: int| 0 <= i < s.len() && s[i] == (&k, &self@[k]);
                        assert(keys[i] == k);
                    }
                    if keys.to_set().contains(k) {
                        let i = choose|i: int| 0 <= i < keys.len() && keys[i] == k;
                        assert(keys[i] == *s[i].0);
                    }
                }
            }
        }
        counts
    }
}


/// Storing `data` and then looking it up before it expires gives back a
/// clone of `data`, whatever the eviction in between did.
pub proof fn lemma_put_then_get<T: Clone>(
    before: Map<u64, CacheEntry<T>>,
    mid: Map<u64, CacheEntry<T>>,
    after: Map<u64, CacheEntry<T>>,
    max_size: usize,
    ttl: Option<u64>,
    id: u64,
    data: T,
    t1: u64,
    t2: u64,
    r: Option<T>,
)
    requires
        put_outcome(before, mid, max_size, id, data, t1),
        get_outcome(mid, after, ttl, id, t2, r),
        !is_expired(fresh_entry(data, t1), ttl, t2),
    ensures
        r matches Some(d) && cloned(data, d),
        after.contains_key(id),
{
    if before.len() >= max_size {
        let m = choose|m: Map<u64, CacheEntry<T>>|
            #[trigger] lru_evicted(before, t1, m) && mid == m.insert(id, fresh_entry(data, t1));
        assert(mid[id] == fresh_entry(data, t1));
    }
}

/// A cache holds finitely many entries.
pub proof fn lemma_entries_finite<T>(c: &VectorCache<T>)
    ensures
        c@.dom().finite(),
{
    assert(c.cache@.dom().finite());
}

/// A store leaves `id` holding a fresh entry of `data`, accessed once at the
/// time of the store, whatever was evicted first.
pub proof fn lemma_put_stores<T>(
    before: Map<u64, CacheEntry<T>>,
    after: Map<u64, CacheEntry<T>>,
    max_size: usize,
    id: u64,
    data: T,
    now: u64,
)
    requires
        put_outcome(before, after, max_size, id, data, now),
    ensures
        after.contains_key(id),
        after[id] == fresh_entry(data, now),
{
    if before.len() >= max_size {
        let m = choose|m: Map<u64, CacheEntry<T>>|
            #[trigger] lru_evicted(before, now, m) && after == m.insert(id, fresh_entry(data, now));
    }
}

/// The most entries a cache with size limit `max_size` holds after a store:
/// the limit, or one when the limit is zero.
pub open spec fn capacity(max_size: usize) -> int {
    if max_size >= 1 {
        max_size as int
    } else {
        1
    }
}

/// A store never lets a cache of at most `capacity(max_size)` entries grow
/// beyond that when some entry was last used before the time of the store
/// (or the cache has room, or `id` is already there): an entry can then be
/// evicted to make room. The new entry holds `data`.
pub proof fn lemma_put_keeps_capacity<T>(
    before: Map<u64, CacheEntry<T>>,
    after: Map<u64, CacheEntry<T>>,
    max_size: usize,
    id: u64,
    data: T,
    now: u64,
)
    requires
        before.dom().finite(),
        before.len() <= capacity(max_size),
        put_outcome(before, after, max_size, id, data, now),
        before.len() < capacity(max_size) || before.contains_key(id) || has_evictable(before, now),
    ensures
        after.len() <= capacity(max_size),
        after.contains_key(id),
        after[id] == fresh_entry(data, now),
{
    lemma_put_stores(before, after, max_size, id, data, now);
    if before.len() >= max_size {
        let m = choose|m: Map<u64, CacheEntry<T>>|
            #[trigger] lru_evicted(before, now, m) && after == m.insert(id, fresh_entry(data, now));
        if has_evictable(before, now) {
            let k = choose|k: u64| #[trigger] is_lru_victim(before, now, k) && m == before.remove(k);
            assert(m.len() == before.len() - 1);
        } else {
            assert(m == before);
        }
    }
}

/// Reading an entry makes it recently used: after a hit on `id` at `t1`,
/// a store of another id at a time not before `t1` does not evict `id`
/// while some other entry was last used before `t1`.
pub proof fn lemma_read_entry_outlives_older<T: Clone>(
    before: Map<u64, CacheEntry<T>>,
    mid: Map<u64, CacheEntry<T>>,
    after: Map<u64, CacheEntry<T>>,
    ttl: Option<u64>,
    max_size: usize,
    id: u64,
    other: u64,
    id2: u64,
    t1: u64,
    t2: u64,
    d: T,
    data: T,
)
    requires
        get_outcome(before, mid, ttl, id, t1, Some(d)),
        mid.contains_key(other),
        other != id,
        mid[other].last_access < t1,
        t1 <= t2,
        put_outcome(mid, after, max_size, id2, data, t2),
    ensures
        after.contains_key(id),
        after.contains_key(id2),
{
    assert(mid.contains_key(id) && mid[id].last_access == t1);
    lemma_put_stores(mid, after, max_size, id2, data, t2);
    if mid.len() >= max_size {
        let m = choose|m: Map<u64, CacheEntry<T>>|
            #[trigger] lru_evicted(mid, t2, m) && after == m.insert(id2, fresh_entry(data, t2));
        if has_evictable(mid, t2) {
            let k = choose|k: u64| #[trigger] is_lru_victim(mid, t2, k) && m == mid.remove(k);
            assert(mid[k].last_access <= mid[other].last_access);
            assert(k != id);
        }
    }
}

/// A lookup never adds an entry.
pub proof fn lemma_get_never_grows<T: Clone>(
    before: Map<u64, CacheEntry<T>>,
    after: Map<u64, CacheEntry<T>>,
    ttl: Option<u64>,
    id: u64,
    now: u64,
    r: Option<T>,
)
    requires
        before.dom().finite(),
        get_outcome(before, after, ttl, id, now, r),
    ensures
        after.dom() == before.dom() || after.dom() == before.dom().remove(id),
        after.len() <= before.len(),
{
    if before.contains_key(id) && !is_expired(before[id], ttl, now) {
        assert(after.dom() =~= before.dom());
    }
}

/// After an entry is removed, looking it up finds nothing and changes
/// nothing.
pub proof fn lemma_remove_then_get<T: Clone>(
    before: Map<u64, CacheEntry<T>>,
    after: Map<u64, CacheEntry<T>>,
    ttl: Option<u64>,
    id: u64,
    now: u64,
    r: Option<T>,
)
    requires
        get_outcome(before.remove(id), after, ttl, id, now, r),
    ensures
        r is None,
        after == before.remove(id),
{
}

/// `id` holds an entry that has not expired at `now`.
pub open spec fn live_in<T>(m: Map<u64, CacheEntry<T>>, ttl: Option<u64>, id: u64, now: u64) -> bool {
    m.contains_key(id) && !is_expired(m[id], ttl, now)
}

/// What a two-level lookup of `id` at `now` does: a live first-level entry
/// answers; otherwise the first level drops any expired entry, the second
/// level is asked, and a value found there is stored, as a clone, in the
/// first level too.
pub open spec fn multi_get_outcome<T: Clone>(
    b1: Map<u64, CacheEntry<T>>,
    b2: Map<u64, CacheEntry<T>>,
    a1: Map<u64, CacheEntry<T>>,
    a2: Map<u64, CacheEntry<T>>,
    ttl1: Option<u64>,
    ttl2: Option<u64>,
    max1: usize,
    id: u64,
    now: u64,
    r: Option<T>,
) -> bool {
    if live_in(b1, ttl1, id, now) {
        get_outcome(b1, a1, ttl1, id, now, r) && a2 == b2
    } else {
        &&& get_outcome(b1, b1.remove(id), ttl1, id, now, None)
        &&& get_outcome(b2, a2, ttl2, id, now, r)
        &&& match r {
            Some(d) => exists|c: T| cloned(d, c) && #[trigger] put_outcome(b1.remove(id), a1, max1, id, c, now),
            None => a1 == b1.remove(id),
        }
    }
}

/// What a two-level lookup of `id` at `now` that falls back on `f` does,
/// the value computed being stored at `now2`: when either level holds a live
/// entry, the lookup answers as `multi_get_outcome` says; otherwise both
/// levels drop any expired entry, `r` is what `f` returned, the second level
/// stores a clone of it and the first level a clone of that clone.
pub open spec fn multi_get_or_insert_outcome<T: Clone, F: FnOnce() -> T>(
    b1: Map<u64, CacheEntry<T>>,
    b2: Map<u64, CacheEntry<T>>,
    a1: Map<u64, CacheEntry<T>>,
    a2: Map<u64, CacheEntry<T>>,
    ttl1: Option<u64>,
    ttl2: Option<u64>,
    max1: usize,
    max2: usize,
    id: u64,
    now: u64,
    now2: u64,
    f: F,
    r: T,
) -> bool {
    if live_in(b1, ttl1, id, now) || live_in(b2, ttl2, id, now) {
        multi_get_outcome(b1, b2, a1, a2, ttl1, ttl2, max1, id, now, Some(r))
    } else {
        &&& f.ensures((), r)
        &&& exists|c: T, c1: T|
            #![trigger cloned(r, c), cloned(c, c1)]
            {
                &&& cloned(r, c)
                &&& cloned(c, c1)
                &&& put_outcome(b1.remove(id), a1, max1, id, c1, now2)
                &&& put_outcome(b2.remove(id), a2, max2, id, c, now2)
            }
    }
}

/// A cache in two levels: a small first level with a short time to live in
/// front of a larger second level with a long one.
pub struct MultiLevelCache<T> {
    l1: VectorCache<T>,
    l2: VectorCache<T>,
}

impl<T> MultiLevelCache<T> {
    pub closed spec fn level1(&self) -> VectorCache<T> {
        self.l1
    }

    pub closed spec fn level2(&self) -> VectorCache<T> {
        self.l2
    }

    /// Both levels keep their sizes, times to live and clock from `other`.
    pub open spec fn same_settings(&self, other: &Self) -> bool {
        &&& self.level1().max_size() == other.level1().max_size()
        &&& self.level1().ttl() == other.level1().ttl()
        &&& self.level1().clock() == other.level1().clock()
        &&& self.level2().max_size() == other.level2().max_size()
        &&& self.level2().ttl() == other.level2().ttl()
        &&& self.level2().clock() == other.level2().clock()
    }
}

impl<T: Clone> MultiLevelCache<T> {
    /// A first level of `l1_size` entries living 5 minutes and a second
    /// level of `l2_size` entries living an hour, on one clock.
    pub fn new(l1_size: usize, l2_size: usize) -> (r: Self)
        ensures
            r.level1()@ == Map::<u64, CacheEntry<T>>::empty(),
            r.level2()@ == Map::<u64, CacheEntry<T>>::empty(),
            r.level1().max_size() == l1_size,
            r.level2().max_size() == l2_size,
            r.level1().ttl() == Some(300_000_000_000u64),
            r.level2().ttl() == Some(3_600_000_000_000u64),
            r.level1().clock() == r.level2().clock(),
    {
        let clock = instant_now();
        let l1 = VectorCache::with_clock(
            CacheConfig { max_size: l1_size, ttl: Some(300_000_000_000) },
            clock,
        );
        let l2 = VectorCache::with_clock(
            CacheConfig { max_size: l2_size, ttl: Some(3_600_000_000_000) },
            clock,
        );
        MultiLevelCache { l1, l2 }
    }

    /// The first level.
    pub fn level1_cache(&self) -> (r: &VectorCache<T>)
        ensures
            *r == self.level1(),
    {
        &self.l1
    }

    /// The second level.
    pub fn level2_cache(&self) -> (r: &VectorCache<T>)
        ensures
            *r == self.level2(),
    {
        &self.l2
    }

    /// The current time on the clock of both levels; never earlier than
    /// the latest use of either level.
    pub fn now(&self) -> (r: u64)
        ensures
            r >= self.level1().latest(),
            r >= self.level2().latest(),
    {
        let t = self.l1.now();
        if t >= self.l2.latest {
            t
        } else {
            self.l2.latest
        }
    }

    /// Looks `id` up at time `now`, first level first.
    pub fn get_at(&mut self, id: u64, now: u64) -> (r: Option<T>)
        ensures
            multi_get_outcome(
                old(self).level1()@,
                old(self).level2()@,
                final(self).level1()@,
                final(self).level2()@,
                old(self).level1().ttl(),
                old(self).level2().ttl(),
                old(self).level1().max_size(),
                id,
                now,
                r,
            ),
            final(self).same_settings(old(self)),
            live_in(old(self).level1()@, old(self).level1().ttl(), id, now) ==> final(self).level2()@
                == old(self).level2()@,
            !live_in(old(self).level1()@, old(self).level1().ttl(), id, now) ==> get_outcome(
                old(self).level2()@,
                final(self).level2()@,
                old(self).level2().ttl(),
                id,
                now,
                r,
            ),
            final(self).level1().latest() == max_u64(old(self).level1().latest(), now),
            final(self).level2().latest() == if live_in(old(self).level1()@, old(self).level1().ttl(), id, now) {
                old(self).level2().latest()
            } else {
                max_u64(old(self).level2().latest(), now)
            },
    {
        let r1 = self.l1.get_at(id, now);
        if let Some(d) = r1 {
            return Some(d);
        }
        assert(self.l1@ =~= old(self).l1@.remove(id));
        let r2 = self.l2.get_at(id, now);
        match r2 {
            Some(d) => {
                let c = d.clone();
                let ghost m1 = self.l1@;
                self.l1.put_at(id, c, now);
                assert(cloned(d, c) && put_outcome(m1, self.l1@, old(self).l1.max_size(), id, c, now));
                Some(d)
            },
            None => None,
        }
    }

    /// Looks `id` up now, first level first.
    pub fn get(&mut self, id: u64) -> (r: Option<T>)
        ensures
            exists|now: u64|
                now >= old(self).level1().latest() && now >= old(self).level2().latest() && #[trigger] multi_get_outcome(
                    old(self).level1()@,
                    old(self).level2()@,
                    final(self).level1()@,
                    final(self).level2()@,
                    old(self).level1().ttl(),
                    old(self).level2().ttl(),
                    old(self).level1().max_size(),
                    id,
                    now,
                    r,
                ),
            final(self).same_settings(old(self)),
    {
        let now = self.now();
        self.get_at(id, now)
    }

    /// Stores `data` in both levels at time `now`: a clone in the first, the
    /// value itself in the second.
    pub fn put_at(&mut self, id: u64, data: T, now: u64)
        ensures
            exists|c: T|
                cloned(data, c) && #[trigger] put_outcome(
                    old(self).level1()@,
                    final(self).level1()@,
                    old(self).level1().max_size(),
                    id,
                    c,
                    now,
                ),
            put_outcome(
                old(self).level2()@,
                final(self).level2()@,
                old(self).level2().max_size(),
                id,
                data,
                now,
            ),
            final(self).same_settings(old(self)),
            final(self).level1().latest() == max_u64(old(self).level1().latest(), now),
            final(self).level2().latest() == max_u64(old(self).level2().latest(), now),
    {
        let c = data.clone();
        self.l1.put_at(id, c, now);
        self.l2.put_at(id, data, now);
        assert(cloned(data, c));
    }

    /// Stores `data` in both levels now.
    pub fn put(&mut self, id: u64, data: T)
        ensures
            exists|c: T, now: u64|
                now >= old(self).level1().latest() && now >= old(self).level2().latest() && cloned(data, c) && #[trigger] put_outcome(
                    old(self).level1()@,
                    final(self).level1()@,
                    old(self).level1().max_size(),
                    id,
                    c,
                    now,
                ) && put_outcome(
                    old(self).level2()@,
                    final(self).level2()@,
                    old(self).level2().max_size(),
                    id,
                    data,
                    now,
                ),
            final(self).same_settings(old(self)),
    {
        let now = self.now();
        self.put_at(id, data, now);
    }

    /// Looks `id` up at time `now`, first level first; on a miss in both
    /// levels computes the value with `f`, stores it in both levels at time
    /// `now2`, and returns it.
    pub fn get_or_insert_at<F: FnOnce() -> T>(&mut self, id: u64, f: F, now: u64, now2: u64) -> (r: T)
        requires
            f.requires(()),
        ensures
            multi_get_or_insert_outcome(
                old(self).level1()@,
                old(self).level2()@,
                final(self).level1()@,
                final(self).level2()@,
                old(self).level1().ttl(),
                old(self).level2().ttl(),
                old(self).level1().max_size(),
                old(self).level2().max_size(),
                id,
                now,
                now2,
                f,
                r,
            ),
            final(self).same_settings(old(self)),
    {
        let got = self.get_at(id, now);
        if let Some(data) = got {
            return data;
        }
        assert(self.l1@ =~= old(self).l1@.remove(id));
        assert(self.l2@ =~= old(self).l2@.remove(id));
        let data = f();
        let c = data.clone();
        let c1 = c.clone();
        self.l1.put_at(id, c1, now2);
        self.l2.put_at(id, c, now2);
        assert(cloned(data, c) && cloned(c, c1));
        data
    }

    /// Returns the cached value for `id`, or computes it with `f`, stores it
    /// in both levels, and returns it. The lookup and the store each read
    /// the clock.
    pub fn get_or_insert<F: FnOnce() -> T>(&mut self, id: u64, f: F) -> (r: T)
        requires
            f.requires(()),
        ensures
            exists|now: u64, now2: u64|
                now >= old(self).level1().latest() && now >= old(self).level2().latest() && now <= now2 && #[trigger] multi_get_or_insert_outcome(
                    old(self).level1()@,
                    old(self).level2()@,
                    final(self).level1()@,
                    final(self).level2()@,
                    old(self).level1().ttl(),
                    old(self).level2().ttl(),
                    old(self).level1().max_size(),
                    old(self).level2().max_size(),
                    id,
                    now,
                    now2,
                    f,
                    r,
                ),
            final(self).same_settings(old(self)),
    {
        let now = self.now();
        let got = self.get_at(id, now);
        if let Some(data) = got {
            assert(multi_get_or_insert_outcome(old(self).l1@, old(self).l2@, self.l1@, self.l2@, old(self).l1.ttl_nanos, old(self).l2.ttl_nanos, old(self).l1.max_size, old(self).l2.max_size, id, now, now, f, data));
            return data;
        }
        assert(self.l1@ =~= old(self).l1@.remove(id));
        assert(self.l2@ =~= old(self).l2@.remove(id));
        let data = f();
        let c = data.clone();
        let now2 = self.now();
        let c1 = c.clone();
        self.l1.put_at(id, c1, now2);
        self.l2.put_at(id, c, now2);
        assert(cloned(data, c) && cloned(c, c1));
        assert(multi_get_or_insert_outcome(old(self).l1@, old(self).l2@, self.l1@, self.l2@, old(self).l1.ttl_nanos, old(self).l2.ttl_nanos, old(self).l1.max_size, old(self).l2.max_size, id, now, now2, f, data));
        data
    }

    pub fn clear(&mut self)
        ensures
            final(self).level1()@ == Map::<u64, CacheEntry<T>>::empty(),
            final(self).level2()@ == Map::<u64, CacheEntry<T>>::empty(),
            final(self).same_settings(old(self)),
    {
        self.l1.clear();
        self.l2.clear();
    }
}

/// Storing `data` in a two-level cache and looking it up before the first
/// level's time to live has passed answers from the first level with a
/// clone of a clone of `data`.
pub proof fn lemma_multi_put_then_get<T: Clone>(
    b1: Map<u64, CacheEntry<T>>,
    b2: Map<u64, CacheEntry<T>>,
    m1: Map<u64, CacheEntry<T>>,
    m2: Map<u64, CacheEntry<T>>,
    a1: Map<u64, CacheEntry<T>>,
    a2: Map<u64, CacheEntry<T>>,
    ttl1: Option<u64>,
    ttl2: Option<u64>,
    max1: usize,
    max2: usize,
    id: u64,
    data: T,
    c: T,
    t1: u64,
    t2: u64,
    r: Option<T>,
)
    requires
        cloned(data, c),
        put_outcome(b1, m1, max1, id, c, t1),
        put_outcome(b2, m2, max2, id, data, t1),
        multi_get_outcome(m1, m2, a1, a2, ttl1, ttl2, max1, id, t2, r),
        !is_expired(fresh_entry(c, t1), ttl1, t2),
    ensures
        r matches Some(d) && cloned(c, d),
        a2 == m2,
{
    if b1.len() >= max1 {
        let m = choose|m: Map<u64, CacheEntry<T>>|
            #[trigger] lru_evicted(b1, t1, m) && m1 == m.insert(id, fresh_entry(c, t1));
        assert(m1[id] == fresh_entry(c, t1));
    }
    assert(live_in(m1, ttl1, id, t2));
}

/// A two-level store leaves `id` in both levels: the second level holds
/// `data`, the first a clone of it, each accessed once at the time of the
/// store.
pub proof fn lemma_multi_put_stores<T: Clone>(
    b1: Map<u64, CacheEntry<T>>,
    b2: Map<u64, CacheEntry<T>>,
    a1: Map<u64, CacheEntry<T>>,
    a2: Map<u64, CacheEntry<T>>,
    max1: usize,
    max2: usize,
    id: u64,
    data: T,
    c: T,
    now: u64,
)
    requires
        cloned(data, c),
        put_outcome(b1, a1, max1, id, c, now),
        put_outcome(b2, a2, max2, id, data, now),
    ensures
        a1.contains_key(id) && a1[id] == fresh_entry(c, now) && cloned(data, a1[id].data),
        a2.contains_key(id) && a2[id] == fresh_entry(data, now),
{
    lemma_put_stores(b1, a1, max1, id, c, now);
    lemma_put_stores(b2, a2, max2, id, data, now);
}

/// A second-level hit keeps the entry in the second level, touched at the
/// time of the lookup, answers with a clone of its data, and leaves a copy
/// in the first level.
pub proof fn lemma_second_level_hit_kept<T: Clone>(
    b1: Map<u64, CacheEntry<T>>,
    b2: Map<u64, CacheEntry<T>>,
    a1: Map<u64, CacheEntry<T>>,
    a2: Map<u64, CacheEntry<T>>,
    ttl1: Option<u64>,
    ttl2: Option<u64>,
    max1: usize,
    id: u64,
    now: u64,
    r: Option<T>,
)
    requires
        multi_get_outcome(b1, b2, a1, a2, ttl1, ttl2, max1, id, now, r),
        !live_in(b1, ttl1, id, now),
        live_in(b2, ttl2, id, now),
    ensures
        r matches Some(d) && cloned(b2[id].data, d),
        a2 == b2.insert(id, touched(b2[id], now)),
        a1.contains_key(id),
{
    let d = r.unwrap();
    let c = choose|c: T| cloned(d, c) && #[trigger] put_outcome(b1.remove(id), a1, max1, id, c, now);
    lemma_put_stores(b1.remove(id), a1, max1, id, c, now);
}

/// Once the second level has answered for `id`, a later two-level lookup
/// finds it as long as the second level's entry, touched by that answer,
/// has not expired, whatever became of the first level's copy.
pub proof fn lemma_second_level_answers_again<T: Clone>(
    b1: Map<u64, CacheEntry<T>>,
    b2: Map<u64, CacheEntry<T>>,
    a1: Map<u64, CacheEntry<T>>,
    a2: Map<u64, CacheEntry<T>>,
    c1: Map<u64, CacheEntry<T>>,
    c2: Map<u64, CacheEntry<T>>,
    ttl1: Option<u64>,
    ttl2: Option<u64>,
    max1: usize,
    id: u64,
    t1: u64,
    t2: u64,
    r1: Option<T>,
    r2: Option<T>,
)
    requires
        multi_get_outcome(b1, b2, a1, a2, ttl1, ttl2, max1, id, t1, r1),
        !live_in(b1, ttl1, id, t1),
        live_in(b2, ttl2, id, t1),
        multi_get_outcome(a1, a2, c1, c2, ttl1, ttl2, max1, id, t2, r2),
        !is_expired(touched(b2[id], t1), ttl2, t2),
    ensures
        r2 is Some,
        c2.contains_key(id),
{
    lemma_second_level_hit_kept(b1, b2, a1, a2, ttl1, ttl2, max1, id, t1, r1);
    assert(a2[id] == touched(b2[id], t1));
    assert(live_in(a2, ttl2, id, t2));
}

} // verus!
