use vstd::prelude::*;
use crate::text::str_eq;

verus! {

/// The map an association list describes: each key to the value of its entry.
pub open spec fn map_of<V>(es: Seq<(Seq<char>, V)>) -> Map<Seq<char>, V> {
    Map::new(
        |k: Seq<char>| exists|i: int| 0 <= i < es.len() && #[trigger] es[i].0 == k,
        |k: Seq<char>| es[choose|i: int| 0 <= i < es.len() && #[trigger] es[i].0 == k].1,
    )
}

/// No key occurs twice.
pub open spec fn distinct_keys<V>(es: Seq<(Seq<char>, V)>) -> bool {
    forall|i: int, j: int| 0 <= i < es.len() && 0 <= j < es.len() && i != j ==> es[i].0 != es[j].0
}

/// With distinct keys, the entry at `i` gives its key's value.
pub proof fn lemma_map_of_entry<V>(es: Seq<(Seq<char>, V)>, i: int)
    requires
        distinct_keys(es),
        0 <= i < es.len(),
    ensures
        map_of(es).contains_key(es[i].0),
        map_of(es)[es[i].0] == es[i].1,
{
    let k = es[i].0;
    assert(es[i].0 == k);
    let j = choose|j: int| 0 <= j < es.len() && #[trigger] es[j].0 == k;
    assert(j == i);
}

/// Appending an entry with a new key adds that key.
pub proof fn lemma_map_of_push<V>(es: Seq<(Seq<char>, V)>, k: Seq<char>, v: V)
    requires
        distinct_keys(es),
        !map_of(es).contains_key(k),
    ensures
        distinct_keys(es.push((k, v))),
        map_of(es.push((k, v))) == map_of(es).insert(k, v),
{
    let es2 = es.push((k, v));
    assert forall|i: int, j: int| 0 <= i < es2.len() && 0 <= j < es2.len() && i != j implies es2[i].0 != es2[j].0 by {
        if i < es.len() && j < es.len() {
        } else if i < es.len() {
            assert(es[i].0 == es2[i].0);
            if es2[i].0 == k { assert(map_of(es).contains_key(k)); }
        } else if j < es.len() {
            assert(es[j].0 == es2[j].0);
            if es2[j].0 == k { assert(map_of(es).contains_key(k)); }
        }
    }
    assert forall|key: Seq<char>| #[trigger] map_of(es2).contains_key(key) == map_of(es).insert(k, v).contains_key(key) by {
        if map_of(es).contains_key(key) {
            let i = choose|i: int| 0 <= i < es.len() && #[trigger] es[i].0 == key;
            assert(es2[i].0 == key);
        }
        if key == k {
            assert(es2[es.len() as int].0 == key);
        }
        if map_of(es2).contains_key(key) {
            let i = choose|i: int| 0 <= i < es2.len() && #[trigger] es2[i].0 == key;
            if i < es.len() { assert(es[i].0 == key); }
        }
    }
    assert forall|key: Seq<char>| #[trigger] map_of(es2).contains_key(key) implies map_of(es2)[key] == map_of(es).insert(k, v)[key] by {
        let i = choose|i: int| 0 <= i < es2.len() && #[trigger] es2[i].0 == key;
        lemma_map_of_entry(es2, i);
        if i < es.len() {
            assert(es[i] == es2[i]);
            lemma_map_of_entry(es, i);
        }
    }
    assert(map_of(es2) =~= map_of(es).insert(k, v));
}

/// Replacing the value of the entry at `i` replaces its key's value.
pub proof fn lemma_map_of_update<V>(es: Seq<(Seq<char>, V)>, i: int, v: V)
    requires
        distinct_keys(es),
        0 <= i < es.len(),
    ensures
        distinct_keys(es.update(i, (es[i].0, v))),
        map_of(es.update(i, (es[i].0, v))) == map_of(es).insert(es[i].0, v),
{
    let k = es[i].0;
    let es2 = es.update(i, (k, v));
    assert forall|a: int, b: int| 0 <= a < es2.len() && 0 <= b < es2.len() && a != b implies es2[a].0 != es2[b].0 by {
        assert(es2[a].0 == es[a].0);
        assert(es2[b].0 == es[b].0);
    }
    assert forall|key: Seq<char>| #[trigger] map_of(es2).contains_key(key) == map_of(es).insert(k, v).contains_key(key) by {
        if map_of(es).contains_key(key) {
            let j = choose|j: int| 0 <= j < es.len() && #[trigger] es[j].0 == key;
            assert(es2[j].0 == key);
        }
        if key == k { assert(es2[i].0 == key); }
        if map_of(es2).contains_key(key) {
            let j = choose|j: int| 0 <= j < es2.len() && #[trigger] es2[j].0 == key;
            assert(es[j].0 == key);
        }
    }
    assert forall|key: Seq<char>| #[trigger] map_of(es2).contains_key(key) implies map_of(es2)[key] == map_of(es).insert(k, v)[key] by {
        let j = choose|j: int| 0 <= j < es2.len() && #[trigger] es2[j].0 == key;
        lemma_map_of_entry(es2, j);
        if j != i {
            assert(es[j] == es2[j]);
            lemma_map_of_entry(es, j);
        }
    }
    assert(map_of(es2) =~= map_of(es).insert(k, v));
}

/// Removing the entry at `i` removes its key.
pub proof fn lemma_map_of_remove<V>(es: Seq<(Seq<char>, V)>, i: int)
    requires
        distinct_keys(es),
        0 <= i < es.len(),
    ensures
        distinct_keys(es.remove(i)),
        map_of(es.remove(i)) == map_of(es).remove(es[i].0),
{
    let k = es[i].0;
    let es2 = es.remove(i);
    assert forall|a: int, b: int| 0 <= a < es2.len() && 0 <= b < es2.len() && a != b implies es2[a].0 != es2[b].0 by {
        let a0 = if a < i { a } else { a + 1 };
        let b0 = if b < i { b } else { b + 1 };
        assert(es2[a] == es[a0]);
        assert(es2[b] == es[b0]);
    }
    assert forall|key: Seq<char>| #[trigger] map_of(es2).contains_key(key) == map_of(es).remove(k).contains_key(key) by {
        if map_of(es).contains_key(key) && key != k {
            let j = choose|j: int| 0 <= j < es.len() && #[trigger] es[j].0 == key;
            assert(j != i);
            let j2 = if j < i { j } else { j - 1 };
            assert(es2[j2] == es[j]);
        }
        if map_of(es2).contains_key(key) {
            let j = choose|j: int| 0 <= j < es2.len() && #[trigger] es2[j].0 == key;
            let j0 = if j < i { j } else { j + 1 };
            assert(es2[j] == es[j0]);
            assert(es[j0].0 == key);
            assert(j0 != i);
        }
    }
    assert forall|key: Seq<char>| #[trigger] map_of(es2).contains_key(key) implies map_of(es2)[key] == map_of(es).remove(k)[key] by {
        let j = choose|j: int| 0 <= j < es2.len() && #[trigger] es2[j].0 == key;
        let j0 = if j < i { j } else { j + 1 };
        assert(es2[j] == es[j0]);
        lemma_map_of_entry(es2, j);
        lemma_map_of_entry(es, j0);
    }
    assert(map_of(es2) =~= map_of(es).remove(k));
}

/// With distinct keys, the map has exactly as many keys as there are entries.
pub proof fn lemma_map_of_len<V>(es: Seq<(Seq<char>, V)>)
    requires
        distinct_keys(es),
    ensures
        map_of(es).dom().finite(),
        map_of(es).dom().len() == es.len(),
    decreases es.len(),
{
    if es.len() == 0 {
        assert(map_of(es).dom() =~= Set::<Seq<char>>::empty());
    } else {
        let init = es.drop_last();
        assert(distinct_keys(init)) by {
            assert forall|i: int, j: int| 0 <= i < init.len() && 0 <= j < init.len() && i != j implies init[i].0 != init[j].0 by {
                assert(init[i] == es[i]);
                assert(init[j] == es[j]);
            }
        }
        lemma_map_of_len(init);
        let last = es.last();
        if map_of(init).contains_key(last.0) {
            let j = choose|j: int| 0 <= j < init.len() && #[trigger] init[j].0 == last.0;
            assert(es[j].0 == es[es.len() - 1].0);
        }
        lemma_map_of_push(init, last.0, last.1);
        assert(init.push(last) =~= es);
    }
}

/// A table from strings to values, keeping the order in which keys were first added.
#[derive(Debug, Clone)]
pub struct StringTable<V> {
    entries: Vec<(String, V)>,
}

/// The key-value pairs of stored entries, with keys by their characters.
pub open spec fn entries_view<V>(es: Seq<(String, V)>) -> Seq<(Seq<char>, V)> {
    es.map_values(|e: (String, V)| (e.0@, e.1))
}

impl<V> StringTable<V> {
    /// The entries, in order.
    pub closed spec fn entries(&self) -> Seq<(Seq<char>, V)> {
        entries_view(self.entries@)
    }

    /// The table as a map.
    pub open spec fn map(&self) -> Map<Seq<char>, V> {
        map_of(self.entries())
    }

    /// No key occurs twice.
    pub open spec fn wf(&self) -> bool {
        distinct_keys(self.entries())
    }

    /// An empty table.
    pub fn new() -> (t: Self)
        ensures
            t.wf(),
            t.entries() == Seq::<(Seq<char>, V)>::empty(),
            t.map() == Map::<Seq<char>, V>::empty(),
    {
        let t = StringTable { entries: Vec::new() };
        assert(t.entries() =~= Seq::<(Seq<char>, V)>::empty());
        assert(t.map() =~= Map::<Seq<char>, V>::empty());
        t
    }

    /// The number of entries.
    pub fn len(&self) -> (n: usize)
        requires
            self.wf(),
        ensures
            n == self.entries().len(),
            n == self.map().dom().len(),
    {
        proof { lemma_map_of_len(self.entries()); }
        self.entries.len()
    }

    /// The position of the entry for `key`.
    pub fn find(&self, key: &str) -> (r: Option<usize>)
        requires
            self.wf(),
        ensures
            r matches Some(i) ==> i < self.entries().len() && self.entries()[i as int].0 == key@,
            r is None <==> !self.map().contains_key(key@),
    {
        let mut i: usize = 0;
        while i < self.entries.len()
            invariant
                0 <= i <= self.entries.len(),
                self.entries().len() == self.entries@.len(),
                distinct_keys(self.entries()),
                forall|j: int| 0 <= j < i ==> self.entries()[j].0 != key@,
            decreases self.entries.len() - i,
        {
            if str_eq(self.entries[i].0.as_str(), key) {
                proof { lemma_map_of_entry(self.entries(), i as int); }
                return Some(i);
            }
            i = i + 1;
        }
        proof {
            if self.map().contains_key(key@) {
                let j = choose|j: int| 0 <= j < self.entries().len() && #[trigger] self.entries()[j].0 == key@;
                assert(false);
            }
        }
        None
    }

    /// Whether `key` has an entry.
    pub fn contains_key(&self, key: &str) -> (b: bool)
        requires
            self.wf(),
        ensures
            b == self.map().contains_key(key@),
    {
        self.find(key).is_some()
    }

    /// The value for `key`.
    pub fn get(&self, key: &str) -> (r: Option<&V>)
        requires
            self.wf(),
        ensures
            r matches Some(v) ==> self.map().contains_key(key@) && *v == self.map()[key@],
            r is None <==> !self.map().contains_key(key@),
    {
        match self.find(key) {
            Some(i) => {
                proof { lemma_map_of_entry(self.entries(), i as int); }
                Some(&self.entries[i].1)
            },
            None => None,
        }
    }

    /// Sets the value for `key`: an existing entry keeps its place, a new one goes last.
    pub fn insert(&mut self, key: String, value: V)
        requires
            old(self).wf(),
        ensures
            final(self).wf(),
            final(self).map() == old(self).map().insert(key@, value),
            old(self).map().contains_key(key@) ==> final(self).entries().len() == old(self).entries().len(),
            !old(self).map().contains_key(key@) ==> final(self).entries() == old(self).entries().push((key@, value)),
    {
        let ghost es = self.entries();
        match self.find(key.as_str()) {
            Some(i) => {
                proof { lemma_map_of_update(es, i as int, value); }
                let ghost k = key@;
                self.entries.set(i, (key, value));
                assert(self.entries() =~= es.update(i as int, (es[i as int].0, value)));
            },
            None => {
                proof { lemma_map_of_push(es, key@, value); }
                self.entries.push((key, value));
                assert(self.entries() =~= es.push((key@, value)));
            },
        }
    }

    /// Takes out the entry for `key`, keeping the order of the others.
    pub fn remove(&mut self, key: &str) -> (r: Option<V>)
        requires
            old(self).wf(),
        ensures
            final(self).wf(),
            final(self).map() == old(self).map().remove(key@),
            r matches Some(v) ==> old(self).map().contains_key(key@) && v == old(self).map()[key@],
            r is None <==> !old(self).map().contains_key(key@),
            r is None ==> final(self).entries() == old(self).entries(),
            r is Some ==> exists|i: int| 0 <= i < old(self).entries().len() && old(self).entries()[i].0 == key@
                && final(self).entries() == old(self).entries().remove(i),
    {
        let ghost es = self.entries();
        match self.find(key) {
            Some(i) => {
                proof {
                    lemma_map_of_remove(es, i as int);
                    lemma_map_of_entry(es, i as int);
                }
                let (_, v) = self.entries.remove(i);
                assert(self.entries() =~= es.remove(i as int));
                Some(v)
            },
            None => {
                assert(self.map() =~= old(self).map().remove(key@));
                None
            },
        }
    }

    /// References to the values, in entry order.
    pub fn values(&self) -> (r: Vec<&V>)
        ensures
            r@.len() == self.entries().len(),
            forall|i: int| 0 <= i < r@.len() ==> *r@[i] == #[trigger] self.entries()[i].1,
    {
        let mut r: Vec<&V> = Vec::new();
        let mut i: usize = 0;
        while i < self.entries.len()
            invariant
                0 <= i <= self.entries.len(),
                self.entries().len() == self.entries@.len(),
                r@.len() == i,
                forall|j: int| 0 <= j < i ==> *r@[j] == #[trigger] self.entries()[j].1,
            decreases self.entries.len() - i,
        {
            r.push(&self.entries[i].1);
            i = i + 1;
        }
        r
    }

    /// The key of the entry at `i`.
    pub fn key_at(&self, i: usize) -> (k: &String)
        requires
            i < self.entries().len(),
        ensures
            k@ == self.entries()[i as int].0,
    {
        &self.entries[i].0
    }

    /// The value of the entry at `i`.
    pub fn value_at(&self, i: usize) -> (v: &V)
        requires
            i < self.entries().len(),
        ensures
            *v == self.entries()[i as int].1,
    {
        &self.entries[i].1
    }

    /// Removes every entry.
    pub fn clear(&mut self)
        ensures
            final(self).wf(),
            final(self).entries() == Seq::<(Seq<char>, V)>::empty(),
            final(self).map() == Map::<Seq<char>, V>::empty(),
    {
        self.entries.clear();
        assert(self.entries() =~= Seq::<(Seq<char>, V)>::empty());
        assert(self.map() =~= Map::<Seq<char>, V>::empty());
    }
}

/// Values that can be copied exactly.
pub trait Duplicate: Sized {
    fn duplicate(&self) -> (r: Self)
        ensures
            r == *self;
}

impl Duplicate for String {
    fn duplicate(&self) -> (r: Self) {
        self.clone()
    }
}

impl<T: Duplicate> Duplicate for Option<T> {
    fn duplicate(&self) -> (r: Self) {
        match self {
            Some(v) => Some(v.duplicate()),
            None => None,
        }
    }
}

impl<V: Duplicate> StringTable<V> {
    /// An exact copy of the table.
    pub fn duplicate(&self) -> (r: Self)
        ensures
            r.entries() == self.entries(),
    {
        let mut out: Vec<(String, V)> = Vec::new();
        let mut i: usize = 0;
        while i < self.entries.len()
            invariant
                i <= self.entries@.len(),
                out@.len() == i,
                forall|j: int| 0 <= j < i ==> #[trigger] out@[j] == self.entries@[j],
            decreases self.entries.len() - i,
        {
            let k = self.entries[i].0.clone();
            let v = self.entries[i].1.duplicate();
            out.push((k, v));
            i = i + 1;
        }
        let r = StringTable { entries: out };
        assert(r.entries() =~= self.entries());
        r
    }
}

} // verus!
