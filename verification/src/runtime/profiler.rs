use vstd::prelude::*;
use std::collections::HashMap;
use crate::keyed::{distinct_keys, map_of, StringTable};

verus! {

broadcast use vstd::std_specs::hash::group_hash_axioms;

/// Counts how often each piece of bytecode, by its hash text, was executed.
pub struct ExecutionProfiler {
    execution_counts: StringTable<u64>,
}

impl ExecutionProfiler {
    /// The counts, by hash text.
    pub closed spec fn counts(&self) -> Map<Seq<char>, u64> {
        self.execution_counts.map()
    }

    /// The count for `hash`: zero when it was never recorded.
    pub open spec fn count_of(&self, hash: Seq<char>) -> u64 {
        if self.counts().contains_key(hash) { self.counts()[hash] } else { 0 }
    }

    /// The profiler's invariant: each hash is counted once, and only hashes
    /// recorded at least once are kept.
    pub closed spec fn wf(&self) -> bool {
        &&& self.execution_counts.wf()
        &&& forall|k: Seq<char>| #[trigger] self.execution_counts.map().contains_key(k)
            ==> self.execution_counts.map()[k] > 0
    }

    /// Every count a profiler keeps is positive: a hash is listed only once it
    /// has been recorded.
    pub proof fn lemma_kept_counts_are_positive(&self)
        requires
            self.wf(),
        ensures
            forall|k: Seq<char>| #[trigger] self.counts().contains_key(k) ==> self.counts()[k] > 0,
    {
    }

    /// A profiler with no counts.
    pub fn new() -> (p: Self)
        ensures
            p.wf(),
            p.counts() == Map::<Seq<char>, u64>::empty(),
    {
        ExecutionProfiler { execution_counts: StringTable::new() }
    }

    /// Counts one more execution of `hash`.
    pub fn record_execution(&mut self, hash: &str)
        requires
            old(self).wf(),
            old(self).count_of(hash@) < u64::MAX,
        ensures
            final(self).wf(),
            final(self).counts() == old(self).counts().insert(hash@, (old(self).count_of(hash@) + 1) as u64),
    {
        let current = match self.execution_counts.get(hash) {
            Some(c) => *c,
            None => 0,
        };
        self.execution_counts.insert(String::from_str(hash), current + 1);
    }

    /// The number of recorded executions of `hash`.
    pub fn get_execution_count(&self, hash: &str) -> (n: u64)
        requires
            self.wf(),
        ensures
            n == self.count_of(hash@),
    {
        match self.execution_counts.get(hash) {
            Some(c) => *c,
            None => 0,
        }
    }

    /// Forgets every count.
    pub fn clear(&mut self)
        ensures
            final(self).wf(),
            final(self).counts() == Map::<Seq<char>, u64>::empty(),
    {
        self.execution_counts.clear();
    }

    /// Every hash with its count, each hash once.
    pub fn get_all_counts(&self) -> (r: Vec<(String, u64)>)
        requires
            self.wf(),
        ensures
            distinct_keys(r@.map_values(|e: (String, u64)| (e.0@, e.1))),
            map_of(r@.map_values(|e: (String, u64)| (e.0@, e.1))) == self.counts(),
            forall|i: int| 0 <= i < r@.len() ==> (#[trigger] r@[i]).1 > 0,
    {
        let n = self.execution_counts.len();
        let mut r: Vec<(String, u64)> = Vec::new();
        let mut i: usize = 0;
        while i < n
            invariant
                0 <= i <= n,
                n == self.execution_counts.entries().len(),
                r@.map_values(|e: (String, u64)| (e.0@, e.1)) == self.execution_counts.entries().take(i as int),
                self.wf(),
                forall|j: int| 0 <= j < r@.len() ==> (#[trigger] r@[j]).1 > 0,
            decreases n - i,
        {
            proof { crate::keyed::lemma_map_of_entry(self.execution_counts.entries(), i as int); }
            let key = self.execution_counts.key_at(i);
            let k = key.clone();
            let v = *self.execution_counts.value_at(i);
            assert(self.execution_counts.map().contains_key(self.execution_counts.entries()[i as int].0));
            assert(v > 0);
            let ghost before = r@;
            r.push((k, v));
            assert(r@.map_values(|e: (String, u64)| (e.0@, e.1)) =~= before.map_values(|e: (String, u64)| (e.0@, e.1)).push((k@, v)));
            assert(self.execution_counts.entries().take(i + 1) =~= self.execution_counts.entries().take(i as int).push(self.execution_counts.entries()[i as int]));
            i = i + 1;
            assert(r@.map_values(|e: (String, u64)| (e.0@, e.1)) =~= self.execution_counts.entries().take(i as int));
        }
        assert(self.execution_counts.entries().take(n as int) =~= self.execution_counts.entries());
        r
    }
}

impl Default for ExecutionProfiler {
    fn default() -> (p: Self)
        ensures
            p.wf(),
            p.counts() == Map::<Seq<char>, u64>::empty(),
    {
        ExecutionProfiler::new()
    }
}

/// Counts executions by bytecode hash and tells hot code apart.
pub struct Profiler {
    hot_paths: HashMap<u64, u32>,
}

impl Profiler {
    /// The counts, by hash.
    pub closed spec fn counts(&self) -> Map<u64, u32> {
        self.hot_paths@
    }

    /// The count for `hash`: zero when it was never recorded.
    pub open spec fn count_of(&self, hash: u64) -> u32 {
        if self.counts().contains_key(hash) { self.counts()[hash] } else { 0 }
    }

    /// A profiler with no counts.
    pub fn new() -> (p: Self)
        ensures
            p.counts() == Map::<u64, u32>::empty(),
    {
        Profiler { hot_paths: HashMap::new() }
    }

    /// Counts one more execution of `bytecode_hash`.
    pub fn record(&mut self, bytecode_hash: u64)
        requires
            old(self).count_of(bytecode_hash) < u32::MAX,
        ensures
            final(self).counts() == old(self).counts().insert(bytecode_hash, (old(self).count_of(bytecode_hash) + 1) as u32),
    {
        let current = match self.hot_paths.get(&bytecode_hash) {
            Some(c) => *c,
            None => 0,
        };
        self.hot_paths.insert(bytecode_hash, current + 1);
    }

    /// Whether `bytecode_hash` has run more than twice.
    pub fn is_hot(&self, bytecode_hash: u64) -> (b: bool)
        ensures
            b == (self.count_of(bytecode_hash) > 2),
    {
        match self.hot_paths.get(&bytecode_hash) {
            Some(c) => *c > 2,
            None => false,
        }
    }

    /// The number of recorded executions of `bytecode_hash`.
    pub fn get_execution_count(&self, bytecode_hash: u64) -> (n: u32)
        ensures
            n == self.count_of(bytecode_hash),
    {
        match self.hot_paths.get(&bytecode_hash) {
            Some(c) => *c,
            None => 0,
        }
    }
}

impl Default for Profiler {
    fn default() -> (p: Self)
        ensures
            p.counts() == Map::<u64, u32>::empty(),
    {
        Profiler::new()
    }
}

/// Recording an execution raises that hash's count by one and leaves every other count alone.
pub proof fn lemma_record_counts_one(p: Profiler, q: Profiler, h: u64, other: u64)
    requires
        p.count_of(h) < u32::MAX,
        q.counts() == p.counts().insert(h, (p.count_of(h) + 1) as u32),
    ensures
        q.count_of(h) == p.count_of(h) + 1,
        other != h ==> q.count_of(other) == p.count_of(other),
{
}

/// Recording an execution of a hash raises that hash's count by one and leaves every other count alone.
pub proof fn lemma_record_execution_counts_one(p: ExecutionProfiler, q: ExecutionProfiler, h: Seq<char>, other: Seq<char>)
    requires
        p.count_of(h) < u64::MAX,
        q.counts() == p.counts().insert(h, (p.count_of(h) + 1) as u64),
    ensures
        q.count_of(h) == p.count_of(h) + 1,
        other != h ==> q.count_of(other) == p.count_of(other),
{
}

} // verus!
