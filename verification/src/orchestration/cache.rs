use vstd::prelude::*;
use crate::orchestration::adapter_types::{CacheConfig, EvictionPolicy};

verus! {

/// A cached value: when it was stored and last read (in nanoseconds since the
/// epoch, by the caller's clock) and how often it was read.
#[derive(Debug, Clone)]
pub struct CacheEntry<T> {
    pub value: T,
    pub created_at: i64,
    pub last_accessed: i64,
    pub access_count: u64,
}

/// A span of nanoseconds in whole seconds, cut toward zero.
pub open spec fn whole_seconds(ns: int) -> int {
    if ns >= 0 {
        ns / 1_000_000_000
    } else {
        -((-ns) / 1_000_000_000)
    }
}

/// A signed count of seconds read as a `u64`, as a cast reads it: a negative
/// count wraps around to a very large one.
pub open spec fn wrapped_u64(a: int) -> int {
    if a >= 0 {
        a
    } else {
        a + 0x1_0000_0000_0000_0000
    }
}

/// An entry stored at `created_at` has expired at `now` when more whole seconds
/// than `ttl_seconds` have passed (a clock that went backwards expires it too).
pub open spec fn expired_at(created_at: i64, now: i64, ttl_seconds: u64) -> bool {
    wrapped_u64(whole_seconds(now - created_at)) > ttl_seconds
}

impl<T> CacheEntry<T> {
    /// A value stored at `now`, read once.
    pub fn new(value: T, now: i64) -> (e: Self)
        ensures
            e.value == value,
            e.created_at == now,
            e.last_accessed == now,
            e.access_count == 1,
    {
        CacheEntry { value, created_at: now, last_accessed: now, access_count: 1 }
    }

    /// Reads the value at `now`, counting the read.
    pub fn access(&mut self, now: i64) -> (r: &T)
        requires
            old(self).access_count < u64::MAX,
        ensures
            final(self).value == old(self).value,
            final(self).created_at == old(self).created_at,
            final(self).last_accessed == now,
            final(self).access_count == old(self).access_count + 1,
            *r == old(self).value,
    {
        self.last_accessed = now;
        self.access_count = self.access_count + 1;
        &self.value
    }

    /// Whether the entry has expired at `now`, as [`expired_at`] states.
    pub fn is_expired(&self, ttl_seconds: u64, now: i64) -> (b: bool)
        ensures
            b == expired_at(self.created_at, now, ttl_seconds),
    {
        let diff: i128 = (now as i128) - (self.created_at as i128);
        let secs: i128 = if diff >= 0 { diff / 1_000_000_000 } else { -((-diff) / 1_000_000_000) };
        let wrapped: i128 = if secs >= 0 { secs } else { secs + 0x1_0000_0000_0000_0000 };
        wrapped > ttl_seconds as i128
    }
}

/// The quantity an eviction policy ranks entries by: the last read for least
/// recently used, the read count for least frequently used, the storing time
/// for oldest first.
pub open spec fn policy_key<T>(e: CacheEntry<T>, policy: EvictionPolicy) -> int {
    match policy {
        EvictionPolicy::LRU => e.last_accessed as int,
        EvictionPolicy::LFU => e.access_count as int,
        EvictionPolicy::TTL => e.created_at as int,
    }
}

/// Position `i` holds the first entry with the smallest policy key.
pub open spec fn first_smallest<T>(es: Seq<(u64, CacheEntry<T>)>, policy: EvictionPolicy, i: int) -> bool {
    &&& 0 <= i < es.len()
    &&& forall|j: int| 0 <= j < es.len() ==> policy_key(#[trigger] es[j].1, policy) >= policy_key(es[i].1, policy)
    &&& forall|j: int| 0 <= j < i ==> policy_key(#[trigger] es[j].1, policy) > policy_key(es[i].1, policy)
}

/// The entries left after evicting `n` of them one at a time, each time the
/// first with the smallest policy key.
pub open spec fn without_smallest<T>(es: Seq<(u64, CacheEntry<T>)>, n: nat, policy: EvictionPolicy) -> Seq<(u64, CacheEntry<T>)>
    decreases n,
{
    if n == 0 || es.len() == 0 {
        es
    } else {
        let i = choose|i: int| first_smallest(es, policy, i);
        without_smallest(es.remove(i), (n - 1) as nat, policy)
    }
}

/// No key occurs twice.
pub open spec fn distinct_cache_keys<T>(es: Seq<(u64, CacheEntry<T>)>) -> bool {
    forall|a: int, b: int| 0 <= a < es.len() && 0 <= b < es.len() && a != b ==> es[a].0 != es[b].0
}

/// Whether `key` is the key of one of the entries.
pub open spec fn has_key<T>(es: Seq<(u64, CacheEntry<T>)>, key: u64) -> bool {
    exists|m: int| 0 <= m < es.len() && #[trigger] es[m].0 == key
}

/// `e` is one of the entries.
pub open spec fn is_entry_of<T>(es: Seq<(u64, CacheEntry<T>)>, e: (u64, CacheEntry<T>)) -> bool {
    exists|i: int| 0 <= i < es.len() && #[trigger] es[i] == e
}

/// A non-empty list has a first smallest entry.
proof fn lemma_first_smallest_exists<T>(es: Seq<(u64, CacheEntry<T>)>, policy: EvictionPolicy)
    requires
        es.len() > 0,
    ensures
        exists|i: int| first_smallest(es, policy, i),
    decreases es.len(),
{
    if es.len() == 1 {
        assert(first_smallest(es, policy, 0));
    } else {
        let init = es.drop_last();
        lemma_first_smallest_exists(init, policy);
        let i = choose|i: int| first_smallest(init, policy, i);
        if policy_key(es.last().1, policy) < policy_key(es[i].1, policy) {
            assert forall|j: int| 0 <= j < es.len() implies policy_key(#[trigger] es[j].1, policy)
                >= policy_key(es[es.len() - 1].1, policy) by {
                if j < es.len() - 1 {
                    assert(es[j] == init[j]);
                }
            }
            assert forall|j: int| 0 <= j < es.len() - 1 implies policy_key(#[trigger] es[j].1, policy)
                > policy_key(es[es.len() - 1].1, policy) by {
                assert(es[j] == init[j]);
            }
            assert(first_smallest(es, policy, es.len() - 1));
        } else {
            assert forall|j: int| 0 <= j < es.len() implies policy_key(#[trigger] es[j].1, policy)
                >= policy_key(es[i].1, policy) by {
                if j < es.len() - 1 {
                    assert(es[j] == init[j]);
                }
            }
            assert forall|j: int| 0 <= j < i implies policy_key(#[trigger] es[j].1, policy)
                > policy_key(es[i].1, policy) by {
                assert(es[j] == init[j]);
            }
            assert(first_smallest(es, policy, i));
        }
    }
}

/// Evicting `n` entries this way evicts none that ranks above one it keeps:
/// every evicted entry's policy key is at most every kept entry's; every kept
/// entry was there before, and the keys stay distinct.
pub proof fn lemma_eviction_keeps_the_highest_ranked<T>(es: Seq<(u64, CacheEntry<T>)>, n: nat, policy: EvictionPolicy)
    requires
        distinct_cache_keys(es),
    ensures
        distinct_cache_keys(without_smallest(es, n, policy)),
        forall|j: int| 0 <= j < without_smallest(es, n, policy).len()
            ==> is_entry_of(es, #[trigger] without_smallest(es, n, policy)[j]),
        forall|i: int, j: int| 0 <= i < es.len() && !has_key(without_smallest(es, n, policy), es[i].0)
            && 0 <= j < without_smallest(es, n, policy).len()
            ==> policy_key(#[trigger] es[i].1, policy) <= policy_key(#[trigger] without_smallest(es, n, policy)[j].1, policy),
        without_smallest(es, n, policy).len() == if n >= es.len() { 0 } else { es.len() - n },
    decreases n,
{
    let out = without_smallest(es, n, policy);
    if n == 0 || es.len() == 0 {
        assert forall|j: int| 0 <= j < out.len() implies is_entry_of(es, #[trigger] out[j]) by {
            assert(es[j] == out[j]);
        }
        assert forall|i: int, j: int| 0 <= i < es.len() && !has_key(out, es[i].0) && 0 <= j < out.len()
            implies policy_key(#[trigger] es[i].1, policy) <= policy_key(#[trigger] out[j].1, policy) by {
            assert(out[i].0 == es[i].0);
        }
    } else {
        lemma_first_smallest_exists(es, policy);
        let m = choose|i: int| first_smallest(es, policy, i);
        let rest = es.remove(m);
        assert(distinct_cache_keys(rest)) by {
            assert forall|a: int, b: int| 0 <= a < rest.len() && 0 <= b < rest.len() && a != b implies rest[a].0 != rest[b].0 by {
                let a0 = if a < m { a } else { a + 1 };
                let b0 = if b < m { b } else { b + 1 };
                assert(rest[a] == es[a0]);
                assert(rest[b] == es[b0]);
            }
        }
        lemma_eviction_keeps_the_highest_ranked(rest, (n - 1) as nat, policy);
        assert(out == without_smallest(rest, (n - 1) as nat, policy));
        assert forall|j: int| 0 <= j < out.len() implies is_entry_of(es, #[trigger] out[j]) by {
            assert(is_entry_of(rest, out[j]));
            let i = choose|i: int| 0 <= i < rest.len() && #[trigger] rest[i] == out[j];
            let i0 = if i < m { i } else { i + 1 };
            assert(es[i0] == rest[i]);
        }
        assert forall|i: int, j: int| 0 <= i < es.len() && !has_key(out, es[i].0) && 0 <= j < out.len()
            implies policy_key(#[trigger] es[i].1, policy) <= policy_key(#[trigger] out[j].1, policy) by {
            assert(is_entry_of(rest, out[j]));
            let k = choose|k: int| 0 <= k < rest.len() && #[trigger] rest[k] == out[j];
            let k0 = if k < m { k } else { k + 1 };
            assert(es[k0] == rest[k]);
            if i != m {
                let i1 = if i < m { i } else { i - 1 };
                assert(rest[i1] == es[i]);
            }
        }
    }
}

/// The first smallest entry is unique.
proof fn lemma_first_smallest_unique<T>(es: Seq<(u64, CacheEntry<T>)>, policy: EvictionPolicy, i: int, j: int)
    requires
        first_smallest(es, policy, i),
        first_smallest(es, policy, j),
    ensures
        i == j,
{
    if i < j {
        assert(policy_key(es[i].1, policy) > policy_key(es[j].1, policy));
    } else if j < i {
        assert(policy_key(es[j].1, policy) > policy_key(es[i].1, policy));
    }
}

/// Evicting one more entry evicts the first smallest of those left.
proof fn lemma_without_smallest_step<T>(es: Seq<(u64, CacheEntry<T>)>, k: nat, policy: EvictionPolicy)
    requires
        k < es.len(),
    ensures
        without_smallest(es, k, policy).len() == es.len() - k,
        forall|i: int| first_smallest(without_smallest(es, k, policy), policy, i)
            ==> without_smallest(es, k + 1, policy) == #[trigger] without_smallest(es, k, policy).remove(i),
    decreases k,
{
    lemma_first_smallest_exists(es, policy);
    let m = choose|i: int| first_smallest(es, policy, i);
    if k == 0 {
        assert(without_smallest(es, 1, policy) == without_smallest(es.remove(m), 0, policy));
        assert forall|i: int| first_smallest(without_smallest(es, k, policy), policy, i)
            implies without_smallest(es, k + 1, policy) == #[trigger] without_smallest(es, k, policy).remove(i) by {
            lemma_first_smallest_unique(es, policy, i, m);
        }
    } else {
        lemma_without_smallest_step(es.remove(m), (k - 1) as nat, policy);
        assert(without_smallest(es, k, policy) == without_smallest(es.remove(m), (k - 1) as nat, policy));
        assert(without_smallest(es, k + 1, policy) == without_smallest(es.remove(m), k, policy));
    }
}

/// The position of the entry stored under `key`.
pub open spec fn key_index<T>(es: Seq<(u64, CacheEntry<T>)>, key: u64) -> int {
    choose|i: int| 0 <= i < es.len() && es[i].0 == key
}

/// The entries after storing `e` under `key`: an entry of that key is replaced
/// in place, otherwise the new one goes last.
pub open spec fn stored<T>(es: Seq<(u64, CacheEntry<T>)>, key: u64, e: CacheEntry<T>) -> Seq<(u64, CacheEntry<T>)> {
    if has_key(es, key) {
        es.update(key_index(es, key), (key, e))
    } else {
        es.push((key, e))
    }
}

/// The entries a full cache keeps before storing a new one: all of them but the
/// first smallest when there are at least `max_entries`.
pub open spec fn making_room<T>(es: Seq<(u64, CacheEntry<T>)>, max_entries: usize, policy: EvictionPolicy) -> Seq<(u64, CacheEntry<T>)> {
    if es.len() >= max_entries && es.len() > 0 {
        es.remove(choose|i: int| first_smallest(es, policy, i))
    } else {
        es
    }
}

/// Values cached under `u64` keys, evicted by a policy when there are too many.
#[derive(Debug)]
pub struct SelectionCache<T> {
    config: CacheConfig,
    entries: Vec<(u64, CacheEntry<T>)>,
}

impl<T> SelectionCache<T> {
    /// The entries, in the order they were first stored.
    pub closed spec fn entries(&self) -> Seq<(u64, CacheEntry<T>)> {
        self.entries@
    }

    /// The configuration.
    pub closed spec fn settings(&self) -> CacheConfig {
        self.config
    }

    /// Each key is stored once.
    pub closed spec fn wf(&self) -> bool {
        distinct_cache_keys(self.entries@)
    }

    /// An empty cache with the given configuration.
    pub fn new(config: CacheConfig) -> (c: Self)
        ensures
            c.wf(),
            c.settings() == config,
            c.entries() == Seq::<(u64, CacheEntry<T>)>::empty(),
    {
        SelectionCache { config, entries: Vec::new() }
    }

    /// The number of entries.
    pub fn len(&self) -> (n: usize)
        ensures
            n == self.entries().len(),
    {
        self.entries.len()
    }

    fn position(&self, key: u64) -> (r: Option<usize>)
        requires
            self.wf(),
        ensures
            r matches Some(i) ==> i < self.entries().len() && self.entries()[i as int].0 == key,
            r is None ==> !has_key(self.entries(), key),
    {
        let mut i: usize = 0;
        while i < self.entries.len()
            invariant
                i <= self.entries@.len(),
                forall|j: int| 0 <= j < i ==> self.entries@[j].0 != key,
            decreases self.entries.len() - i,
        {
            if self.entries[i].0 == key {
                return Some(i);
            }
            i = i + 1;
        }
        None
    }

    fn smaller(a: &CacheEntry<T>, b: &CacheEntry<T>, policy: EvictionPolicy) -> (r: bool)
        ensures
            r == (policy_key(*a, policy) < policy_key(*b, policy)),
    {
        match policy {
            EvictionPolicy::LRU => a.last_accessed < b.last_accessed,
            EvictionPolicy::LFU => a.access_count < b.access_count,
            EvictionPolicy::TTL => a.created_at < b.created_at,
        }
    }

    fn smallest_position(&self) -> (r: Option<usize>)
        ensures
            r matches Some(i) ==> first_smallest(self.entries(), self.settings().eviction_policy, i as int),
            r is None ==> self.entries().len() == 0,
    {
        let n = self.entries.len();
        if n == 0 {
            return None;
        }
        let policy = self.config.eviction_policy;
        let mut best: usize = 0;
        let mut i: usize = 1;
        while i < n
            invariant
                1 <= i <= n,
                n == self.entries@.len(),
                best < i,
                policy == self.config.eviction_policy,
                forall|j: int| 0 <= j < i ==> policy_key(#[trigger] self.entries@[j].1, policy)
                    >= policy_key(self.entries@[best as int].1, policy),
                forall|j: int| 0 <= j < best ==> policy_key(#[trigger] self.entries@[j].1, policy)
                    > policy_key(self.entries@[best as int].1, policy),
            decreases n - i,
        {
            if Self::smaller(&self.entries[i].1, &self.entries[best].1, policy) {
                best = i;
            }
            i = i + 1;
        }
        Some(best)
    }

    /// The key of the entry to evict first: the first with the smallest policy key.
    pub fn select_eviction_candidate(&self) -> (r: Option<u64>)
        ensures
            r matches Some(k) ==> exists|i: int| first_smallest(self.entries(), self.settings().eviction_policy, i)
                && self.entries()[i].0 == k,
            r is None ==> self.entries().len() == 0,
    {
        match self.smallest_position() {
            Some(i) => Some(self.entries[i].0),
            None => None,
        }
    }

    /// Drops every entry that has expired at `now`, keeping the others in order.
    pub fn evict_expired(&mut self, now: i64)
        requires
            old(self).wf(),
        ensures
            final(self).wf(),
            final(self).settings() == old(self).settings(),
            final(self).entries() == old(self).entries().filter(unexpired::<T>(now, old(self).settings().ttl_seconds)),
    {
        let ghost es = self.entries@;
        let ttl = self.config.ttl_seconds;
        let ghost keep = unexpired::<T>(now, ttl);
        let mut i: usize = self.entries.len();
        proof {
            assert(es.skip(i as int) =~= Seq::<(u64, CacheEntry<T>)>::empty());
            reveal(Seq::filter);
            assert(es.take(i as int) + es.skip(i as int).filter(keep) =~= es);
        }
        while i > 0
            invariant
                i <= es.len(),
                ttl == self.config.ttl_seconds,
                self.config == old(self).config,
                keep == unexpired::<T>(now, ttl),
                es == old(self).entries@,
                self.entries@ == es.take(i as int) + es.skip(i as int).filter(keep),
                distinct_cache_keys(self.entries@),
            decreases i,
        {
            let j = i - 1;
            proof {
                assert(es.skip(j as int) =~= seq![es[j as int]] + es.skip(i as int));
                es.skip(i as int).lemma_filter_prepend(es[j as int], keep);
                assert(self.entries@[j as int] == es[j as int]);
            }
            if self.entries[j].1.is_expired(ttl, now) {
                let ghost before = self.entries@;
                let _ = self.entries.remove(j);
                proof {
                    assert(self.entries@ =~= es.take(j as int) + es.skip(j as int).filter(keep));
                    assert forall|a: int, b: int| 0 <= a < self.entries@.len() && 0 <= b < self.entries@.len() && a != b
                        implies self.entries@[a].0 != self.entries@[b].0 by {
                        let a0 = if a < j { a } else { a + 1 };
                        let b0 = if b < j { b } else { b + 1 };
                        assert(self.entries@[a] == before[a0]);
                        assert(self.entries@[b] == before[b0]);
                    }
                }
            } else {
                proof {
                    assert(self.entries@ =~= es.take(j as int) + es.skip(j as int).filter(keep));
                }
            }
            i = j;
        }
        proof {
            assert(es.take(0) + es.skip(0).filter(keep) =~= es.filter(keep));
        }
    }

    fn remove_at(&mut self, i: usize)
        requires
            old(self).wf(),
            i < old(self).entries().len(),
        ensures
            final(self).wf(),
            final(self).settings() == old(self).settings(),
            final(self).entries() == old(self).entries().remove(i as int),
    {
        let ghost before = self.entries@;
        let _ = self.entries.remove(i);
        proof {
            assert forall|a: int, b: int| 0 <= a < self.entries@.len() && 0 <= b < self.entries@.len() && a != b
                implies self.entries@[a].0 != self.entries@[b].0 by {
                let a0 = if a < i { a } else { a + 1 };
                let b0 = if b < i { b } else { b + 1 };
                assert(self.entries@[a] == before[a0]);
                assert(self.entries@[b] == before[b0]);
            }
        }
    }

    /// Evicts entries while there are more than the configured maximum, each
    /// time the first with the smallest policy key.
    pub fn enforce_size_limit(&mut self)
        requires
            old(self).wf(),
        ensures
            final(self).wf(),
            final(self).settings() == old(self).settings(),
            old(self).entries().len() <= old(self).settings().max_entries ==> final(self).entries() == old(self).entries(),
            old(self).entries().len() > old(self).settings().max_entries ==> {
                &&& final(self).entries() == without_smallest(old(self).entries(),
                    (old(self).entries().len() - old(self).settings().max_entries) as nat, old(self).settings().eviction_policy)
                &&& final(self).entries().len() == old(self).settings().max_entries
            },
    {
        let max = self.config.max_entries;
        let n = self.entries.len();
        if n <= max {
            return;
        }
        let excess = n - max;
        let ghost es = self.entries@;
        let policy = self.config.eviction_policy;
        let mut k: usize = 0;
        while k < excess
            invariant
                k <= excess,
                excess == n - max,
                n == es.len(),
                max < n,
                self.wf(),
                self.config == old(self).config,
                policy == self.config.eviction_policy,
                es == old(self).entries@,
                self.entries@ == without_smallest(es, k as nat, policy),
                self.entries@.len() == n - k,
            decreases excess - k,
        {
            proof { lemma_without_smallest_step(es, k as nat, policy); }
            let i = match self.smallest_position() {
                Some(i) => i,
                None => {
                    return;
                },
            };
            self.remove_at(i);
            k = k + 1;
        }
    }

    /// Stores `value` under `key` at `now`, read once; a cache holding at least
    /// its maximum first evicts the first entry with the smallest policy key.
    pub fn insert(&mut self, key: u64, value: T, now: i64)
        requires
            old(self).wf(),
        ensures
            final(self).wf(),
            final(self).settings() == old(self).settings(),
            final(self).entries() == stored(
                making_room(old(self).entries(), old(self).settings().max_entries, old(self).settings().eviction_policy),
                key,
                CacheEntry { value, created_at: now, last_accessed: now, access_count: 1 },
            ),
    {
        if self.entries.len() >= self.config.max_entries {
            match self.smallest_position() {
                Some(i) => {
                    proof {
                        lemma_first_smallest_exists(self.entries@, self.config.eviction_policy);
                        let m = choose|m: int| first_smallest(self.entries@, self.config.eviction_policy, m);
                        lemma_first_smallest_unique(self.entries@, self.config.eviction_policy, i as int, m);
                    }
                    self.remove_at(i);
                },
                None => {},
            }
        }
        let entry = CacheEntry::new(value, now);
        let ghost base = self.entries@;
        match self.position(key) {
            Some(i) => {
                self.entries.set(i, (key, entry));
                proof {
                    assert(key_index(base, key) == i as int) by {
                        let c = key_index(base, key);
                        assert(base[i as int].0 == key);
                        if c != i as int {
                            assert(base[c].0 == key);
                        }
                    }
                    assert forall|a: int, b: int| 0 <= a < self.entries@.len() && 0 <= b < self.entries@.len() && a != b
                        implies self.entries@[a].0 != self.entries@[b].0 by {
                        if a != i && b != i {
                            assert(self.entries@[a] == base[a]);
                            assert(self.entries@[b] == base[b]);
                        } else if a == i {
                            assert(self.entries@[b] == base[b]);
                        } else {
                            assert(self.entries@[a] == base[a]);
                        }
                    }
                }
            },
            None => {
                self.entries.push((key, entry));
                proof {
                    assert forall|a: int, b: int| 0 <= a < self.entries@.len() && 0 <= b < self.entries@.len() && a != b
                        implies self.entries@[a].0 != self.entries@[b].0 by {
                        if a < base.len() && b < base.len() {
                            assert(self.entries@[a] == base[a]);
                            assert(self.entries@[b] == base[b]);
                        } else if a < base.len() {
                            assert(self.entries@[a] == base[a]);
                        } else {
                            assert(self.entries@[b] == base[b]);
                        }
                    }
                }
            },
        }
    }

    /// Reads the value under `key` at `now`: a fresh entry counts the read and
    /// gives a clone of its value, an expired one is dropped, and a missing key gives nothing.
    pub fn check(&mut self, key: u64, now: i64) -> (r: Option<T>)
        where T: Clone,
        requires
            old(self).wf(),
            has_key(old(self).entries(), key)
                ==> old(self).entries()[key_index(old(self).entries(), key)].1.access_count < u64::MAX,
        ensures
            final(self).wf(),
            final(self).settings() == old(self).settings(),
            !has_key(old(self).entries(), key) ==> r is None && final(self).entries() == old(self).entries(),
            has_key(old(self).entries(), key) ==> {
                let i = key_index(old(self).entries(), key);
                let e = old(self).entries()[i].1;
                if expired_at(e.created_at, now, old(self).settings().ttl_seconds) {
                    &&& r is None
                    &&& final(self).entries() == old(self).entries().remove(i)
                } else {
                    &&& r matches Some(v) && cloned(e.value, v)
                    &&& final(self).entries() == old(self).entries().update(i, (key, CacheEntry {
                        value: e.value,
                        created_at: e.created_at,
                        last_accessed: now,
                        access_count: (e.access_count + 1) as u64,
                    }))
                }
            },
    {
        let ghost base = self.entries@;
        match self.position(key) {
            Some(i) => {
                proof {
                    assert(key_index(base, key) == i as int) by {
                        let c = key_index(base, key);
                        assert(base[i as int].0 == key);
                        if c != i as int {
                            assert(base[c].0 == key);
                        }
                    }
                }
                if self.entries[i].1.is_expired(self.config.ttl_seconds, now) {
                    self.remove_at(i);
                    None
                } else {
                    let mut taken = self.entries.remove(i);
                    let v = taken.1.access(now).clone();
                    self.entries.insert(i, taken);
                    proof {
                        assert(self.entries@ =~= base.update(i as int, self.entries@[i as int]));
                        assert forall|a: int, b: int| 0 <= a < self.entries@.len() && 0 <= b < self.entries@.len() && a != b
                            implies self.entries@[a].0 != self.entries@[b].0 by {
                            if a != i {
                                assert(self.entries@[a] == base[a]);
                            }
                            if b != i {
                                assert(self.entries@[b] == base[b]);
                            }
                        }
                    }
                    Some(v)
                }
            },
            None => None,
        }
    }

    /// Drops every entry.
    pub fn clear(&mut self)
        ensures
            final(self).wf(),
            final(self).settings() == old(self).settings(),
            final(self).entries() == Seq::<(u64, CacheEntry<T>)>::empty(),
    {
        self.entries.clear();
    }
}

/// Whether an entry is still fresh at `now`.
pub open spec fn unexpired<T>(now: i64, ttl_seconds: u64) -> spec_fn((u64, CacheEntry<T>)) -> bool {
    |e: (u64, CacheEntry<T>)| !expired_at(e.1.created_at, now, ttl_seconds)
}

} // verus!
