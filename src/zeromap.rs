use vstd::prelude::*;

verus! {

/// Entries ordered strictly ascending by locale.
pub open spec fn strictly_sorted<K: SortedKey, V>(s: Seq<(K, V)>) -> bool {
    forall|i: int, j: int| 0 <= i < j < s.len() ==> s[i].0.lt_spec(s[j].0)
}

/// Locales ordered strictly ascending.
pub open spec fn ascending<K: SortedKey>(s: Seq<K>) -> bool {
    forall|i: int, j: int| 0 <= i < j < s.len() ==> s[i].lt_spec(s[j])
}

/// What a sequence of (locale, value) pairs maps `l` to, the last pair for `l` winning.
pub open spec fn last_value<K, V>(s: Seq<(K, V)>, l: K) -> Option<V>
    decreases s.len(),
{
    if s.len() == 0 {
        None
    } else if s.last().0 == l {
        Some(s.last().1)
    } else {
        last_value(s.drop_last(), l)
    }
}

/// The value of the last entry for `l`.
pub open spec fn seq_lookup<K, V>(s: Seq<(K, V)>, l: K) -> Option<V>
    decreases s.len(),
{
    if s.len() == 0 {
        None
    } else if s.last().0 == l {
        Some(s.last().1)
    } else {
        seq_lookup(s.drop_last(), l)
    }
}

proof fn lemma_lookup_hit<K: SortedKey, V>(s: Seq<(K, V)>, i: int)
    requires
        strictly_sorted(s),
        0 <= i < s.len(),
    ensures
        seq_lookup(s, s[i].0) == Some(s[i].1),
    decreases s.len(),
{
    if i != s.len() - 1 {
        assert(s[i].0.lt_spec(s.last().0));
        K::lemma_irreflexive(s[i].0);
        assert(s.drop_last()[i] == s[i]);
        lemma_lookup_hit(s.drop_last(), i);
    }
}

proof fn lemma_lookup_miss<K, V>(s: Seq<(K, V)>, l: K)
    requires
        forall|j: int| 0 <= j < s.len() ==> s[j].0 != l,
    ensures
        seq_lookup(s, l) is None,
    decreases s.len(),
{
    if s.len() > 0 {
        assert(s.last().0 != l);
        assert forall|j: int| 0 <= j < s.drop_last().len() implies s.drop_last()[j].0 != l by {
            assert(s.drop_last()[j] == s[j]);
        }
        lemma_lookup_miss(s.drop_last(), l);
    }
}

/// A key type with a strict total order that a `ZeroMap` can keep its keys in.
pub trait SortedKey: Copy + Sized {
    /// `self` orders strictly before `other`.
    spec fn lt_spec(self, other: Self) -> bool;

    fn compare(&self, other: &Self) -> (r: core::cmp::Ordering)
        ensures
            (r == core::cmp::Ordering::Less) == self.lt_spec(*other),
            (r == core::cmp::Ordering::Equal) == (*self == *other),
            (r == core::cmp::Ordering::Greater) == other.lt_spec(*self),
    ;

    proof fn lemma_transitive(a: Self, b: Self, c: Self)
        requires
            a.lt_spec(b),
            b.lt_spec(c),
        ensures
            a.lt_spec(c),
    ;

    proof fn lemma_irreflexive(a: Self)
        ensures
            !a.lt_spec(a),
    ;
}

impl SortedKey for u32 {
    open spec fn lt_spec(self, other: u32) -> bool {
        self < other
    }

    fn compare(&self, other: &u32) -> (r: core::cmp::Ordering) {
        if *self < *other {
            core::cmp::Ordering::Less
        } else if *self > *other {
            core::cmp::Ordering::Greater
        } else {
            core::cmp::Ordering::Equal
        }
    }

    proof fn lemma_transitive(a: u32, b: u32, c: u32) {
    }

    proof fn lemma_irreflexive(a: u32) {
    }
}

/// A map kept as a vector of (key, value) pairs sorted by key, so that
/// lookups can bisect and the keys come out in order.
#[derive(Debug)]
pub struct ZeroMap<K, V> {
    entries: Vec<(K, V)>,
}

impl<K: SortedKey, V> ZeroMap<K, V> {
    pub closed spec fn wf(&self) -> bool {
        strictly_sorted(self.entries@)
    }

    /// The entries, in order.
    pub closed spec fn spec_entries(&self) -> Seq<(K, V)> {
        self.entries@
    }

    /// The value held for `l`, if any.
    pub closed spec fn lookup(&self, l: K) -> Option<V> {
        seq_lookup(self.entries@, l)
    }

    /// An empty table.
    pub fn new() -> (r: ZeroMap<K, V>)
        ensures
            r.wf(),
            r.spec_entries().len() == 0,
            forall|l: K| r.lookup(l) is None,
    {
        ZeroMap { entries: Vec::new() }
    }

    /// The number of locales in the table.
    pub fn len(&self) -> (r: usize)
        ensures
            r == self.spec_entries().len(),
    {
        self.entries.len()
    }

    /// Finds where `l` stands or would stand: `Ok` with its index, or `Err`
    /// with the index at which inserting it keeps the table sorted.
    pub fn search(&self, l: &K) -> (r: Result<usize, usize>)
        requires
            self.wf(),
        ensures
            r matches Ok(i) ==> i < self.spec_entries().len() && self.spec_entries()[i as int].0 == *l,
            r matches Err(i) ==> i <= self.spec_entries().len()
                && (forall|k: int| 0 <= k < i ==> K::lt_spec(self.spec_entries()[k].0, *l))
                && (forall|k: int| i <= k < self.spec_entries().len() ==> K::lt_spec(
                *l,
                self.spec_entries()[k].0,
            )),
    {
        let mut lo: usize = 0;
        let mut hi: usize = self.entries.len();
        while lo < hi
            invariant
                self.wf(),
                lo <= hi <= self.entries@.len(),
                forall|k: int| 0 <= k < lo ==> K::lt_spec(self.entries@[k].0, *l),
                forall|k: int| hi <= k < self.entries@.len() ==> K::lt_spec(*l, self.entries@[k].0),
            decreases hi - lo,
        {
            let mid = lo + (hi - lo) / 2;
            match self.entries[mid].0.compare(l) {
                core::cmp::Ordering::Less => {
                    proof {
                        assert forall|k: int| 0 <= k < mid + 1 implies K::lt_spec(
                            self.entries@[k].0,
                            *l,
                        ) by {
                            if k < mid {
                                K::lemma_transitive(self.entries@[k].0, self.entries@[mid as int].0, *l);
                            }
                        }
                    }
                    lo = mid + 1;
                },
                core::cmp::Ordering::Greater => {
                    proof {
                        assert forall|k: int| mid <= k < self.entries@.len() implies K::lt_spec(
                            *l,
                            self.entries@[k].0,
                        ) by {
                            if k > mid {
                                K::lemma_transitive(*l, self.entries@[mid as int].0, self.entries@[k].0);
                            }
                        }
                    }
                    hi = mid;
                },
                core::cmp::Ordering::Equal => {
                    return Ok(mid);
                },
            }
        }
        Err(lo)
    }

    /// A reference to the value held for `l`.
    pub fn get(&self, l: &K) -> (r: Option<&V>)
        requires
            self.wf(),
        ensures
            match r {
                Some(v) => self.lookup(*l) == Some(*v),
                None => self.lookup(*l) is None,
            },
    {
        match self.search(l) {
            Ok(i) => {
                proof {
                    self.lemma_unique(i as int);
                }
                Some(&self.entries[i].1)
            },
            Err(i) => {
                proof {
                    assert forall|j: int| 0 <= j < self.entries@.len() implies self.entries@[j].0
                        != *l by {
                        K::lemma_irreflexive(*l);
                    }
                    self.lemma_absent(*l);
                }
                None
            },
        }
    }

    /// In a sorted table a locale stands at one index only.
    proof fn lemma_unique(&self, idx: int)
        requires
            self.wf(),
            0 <= idx < self.entries@.len(),
        ensures
            self.lookup(self.entries@[idx].0) == Some(self.entries@[idx].1),
    {
        lemma_lookup_hit(self.entries@, idx);
    }

    /// A locale at no index has no value.
    proof fn lemma_absent(&self, l: K)
        requires
            forall|j: int| 0 <= j < self.entries@.len() ==> self.entries@[j].0 != l,
        ensures
            self.lookup(l) is None,
    {
        lemma_lookup_miss(self.entries@, l);
    }

    /// Sets the value of `l` to `v`, returning the value it replaced, if any.
    pub fn insert(&mut self, l: K, v: V) -> (r: Option<V>)
        requires
            old(self).wf(),
        ensures
            final(self).wf(),
            r == old(self).lookup(l),
            final(self).spec_entries().len() == old(self).spec_entries().len() + (if r is None {
                1int
            } else {
                0int
            }),
            final(self).lookup(l) == Some(v),
            forall|k: K| k != l ==> final(self).lookup(k) == old(self).lookup(k),
    {
        match self.search(&l) {
            Ok(i) => {
                let ghost before = self.entries@;
                proof {
                    old(self).lemma_unique(i as int);
                }
                let (_, old_v) = self.entries.remove(i);
                self.entries.insert(i, (l, v));
                proof {
                    assert(self.entries@ =~= before.update(i as int, (l, v)));
                    assert(self.wf());
                    self.lemma_unique(i as int);
                    assert forall|k: K| k != l implies self.lookup(k)
                        == old(self).lookup(k) by {
                        if exists|j: int| 0 <= j < before.len() && before[j].0 == k {
                            let j = choose|j: int| 0 <= j < before.len() && before[j].0 == k;
                            old(self).lemma_unique(j);
                            assert(self.entries@[j] == before[j]);
                            self.lemma_unique(j);
                        } else {
                            assert(!exists|j: int|
                                0 <= j < self.entries@.len() && self.entries@[j].0 == k) by {
                                if exists|j: int|
                                    0 <= j < self.entries@.len() && self.entries@[j].0 == k {
                                    let j = choose|j: int|
                                        0 <= j < self.entries@.len() && self.entries@[j].0 == k;
                                    assert(before[j].0 == k);
                                }
                            }
                            old(self).lemma_absent(k);
                            self.lemma_absent(k);
                        }
                    }
                }
                Some(old_v)
            },
            Err(i) => {
                let ghost before = self.entries@;
                self.entries.insert(i, (l, v));
                proof {
                    let after = self.entries@;
                    assert(after == before.insert(i as int, (l, v)));
                    assert forall|a: int, b: int| 0 <= a < b < after.len() implies K::lt_spec(
                        after[a].0,
                        after[b].0,
                    ) by {
                        if b < i {
                            assert(after[a] == before[a] && after[b] == before[b]);
                        } else if b == i {
                            assert(after[a] == before[a]);
                        } else if a < i {
                            assert(after[a] == before[a] && after[b] == before[b - 1]);
                        } else if a == i {
                            assert(after[b] == before[b - 1]);
                        } else {
                            assert(after[a] == before[a - 1] && after[b] == before[b - 1]);
                        }
                    }
                    assert(self.wf());
                    assert(after[i as int] == (l, v));
                    self.lemma_unique(i as int);
                    assert forall|k: K| k != l implies self.lookup(k)
                        == old(self).lookup(k) by {
                        if exists|j: int| 0 <= j < before.len() && before[j].0 == k {
                            let j = choose|j: int| 0 <= j < before.len() && before[j].0 == k;
                            old(self).lemma_unique(j);
                            if j < i {
                                assert(after[j] == before[j]);
                                self.lemma_unique(j);
                            } else {
                                assert(after[j + 1] == before[j]);
                                self.lemma_unique(j + 1);
                            }
                        } else {
                            assert(!exists|j: int| 0 <= j < after.len() && after[j].0 == k) by {
                                if exists|j: int| 0 <= j < after.len() && after[j].0 == k {
                                    let j = choose|j: int| 0 <= j < after.len() && after[j].0 == k;
                                    if j < i {
                                        assert(before[j].0 == k);
                                    } else if j > i {
                                        assert(before[j - 1].0 == k);
                                    }
                                }
                            }
                            old(self).lemma_absent(k);
                            self.lemma_absent(k);
                        }
                    }
                    assert forall|j: int| 0 <= j < before.len() implies before[j].0 != l by {
                        if j < i {
                            K::lemma_irreflexive(l);
                        } else {
                            K::lemma_irreflexive(l);
                        }
                    }
                    old(self).lemma_absent(l);
                }
                None
            },
        }
    }

    /// The table of `pairs`, in whatever order they come; where a locale
    /// comes more than once, its last value is kept.
    pub fn from_pairs(pairs: Vec<(K, V)>) -> (r: ZeroMap<K, V>)
        ensures
            r.wf(),
            forall|l: K| r.lookup(l) == last_value(pairs@, l),
    {
        let ghost all = pairs@;
        let n = pairs.len();
        let mut rest = pairs;
        let mut table = ZeroMap::new();
        let mut done: usize = 0;
        while rest.len() > 0
            invariant
                table.wf(),
                done <= all.len(),
                all.len() == n,
                rest@ == all.subrange(done as int, all.len() as int),
                forall|l: K| table.lookup(l) == last_value(
                    all.subrange(0, done as int),
                    l,
                ),
            decreases rest@.len(),
        {
            let (l, v) = rest.remove(0);
            proof {
                assert(all[done as int] == (l, v));
            }
            let _ = table.insert(l, v);
            done = done + 1;
            proof {
                assert forall|k: K| table.lookup(k) == last_value(
                    all.subrange(0, done as int),
                    k,
                ) by {
                    assert(all.subrange(0, done as int).drop_last() == all.subrange(
                        0,
                        done - 1,
                    ));
                    assert(all.subrange(0, done as int).last() == (l, v));
                }
                assert(rest@ == all.subrange(done as int, all.len() as int));
            }
        }
        proof {
            assert(all.subrange(0, done as int) == all);
        }
        table
    }

    /// An empty map with room for `capacity` entries.
    pub fn with_capacity(capacity: usize) -> (r: ZeroMap<K, V>)
        ensures
            r.wf(),
            r.spec_entries().len() == 0,
            forall|l: K| r.lookup(l) is None,
    {
        ZeroMap { entries: Vec::with_capacity(capacity) }
    }

    /// Is the map empty?
    pub fn is_empty(&self) -> (r: bool)
        ensures
            r == (self.spec_entries().len() == 0),
    {
        self.entries.len() == 0
    }

    /// Removes every entry.
    pub fn clear(&mut self)
        ensures
            final(self).wf(),
            final(self).spec_entries().len() == 0,
            forall|l: K| final(self).lookup(l) is None,
    {
        self.entries.clear();
        proof {
            assert forall|l: K| self.lookup(l) is None by {
                self.lemma_absent(l);
            }
        }
    }

    /// Makes room for `additional` more entries; the contents stay as they are.
    pub fn reserve(&mut self, additional: usize)
        ensures
            final(self).spec_entries() == old(self).spec_entries(),
            final(self).wf() == old(self).wf(),
            forall|k: K| final(self).lookup(k) == old(self).lookup(k),
    {
        self.entries.reserve(additional);
        proof {
            assert(self.entries@ =~= old(self).entries@);
        }
    }

    /// Does the map hold a value for `l`?
    pub fn contains_key(&self, l: &K) -> (r: bool)
        requires
            self.wf(),
        ensures
            r == self.lookup(*l) is Some,
    {
        self.get(l).is_some()
    }

    /// Removes the entry of `l`, returning its value, if any.
    pub fn remove(&mut self, l: &K) -> (r: Option<V>)
        requires
            old(self).wf(),
        ensures
            final(self).wf(),
            r == old(self).lookup(*l),
            final(self).spec_entries().len() == old(self).spec_entries().len() - (if r is Some {
                1int
            } else {
                0int
            }),
            final(self).lookup(*l) is None,
            forall|k: K| k != *l ==> final(self).lookup(k) == old(self).lookup(k),
    {
        match self.search(l) {
            Ok(i) => {
                let ghost before = self.entries@;
                proof {
                    old(self).lemma_unique(i as int);
                }
                let (_, v) = self.entries.remove(i);
                proof {
                    let after = self.entries@;
                    assert(after == before.remove(i as int));
                    assert forall|a: int, b: int| 0 <= a < b < after.len() implies after[a].0.lt_spec(
                        after[b].0,
                    ) by {
                        if b < i {
                            assert(after[a] == before[a] && after[b] == before[b]);
                        } else if a < i {
                            assert(after[a] == before[a] && after[b] == before[b + 1]);
                        } else {
                            assert(after[a] == before[a + 1] && after[b] == before[b + 1]);
                        }
                    }
                    assert(self.wf());
                    assert forall|j: int| 0 <= j < after.len() implies after[j].0 != *l by {
                        if j < i {
                            assert(after[j] == before[j]);
                            assert(before[j].0.lt_spec(before[i as int].0));
                            K::lemma_irreflexive(*l);
                        } else {
                            assert(after[j] == before[j + 1]);
                            assert(before[i as int].0.lt_spec(before[j + 1].0));
                            K::lemma_irreflexive(*l);
                        }
                    }
                    self.lemma_absent(*l);
                    assert forall|k: K| k != *l implies self.lookup(k) == old(self).lookup(k) by {
                        if exists|j: int| 0 <= j < before.len() && before[j].0 == k {
                            let j = choose|j: int| 0 <= j < before.len() && before[j].0 == k;
                            old(self).lemma_unique(j);
                            if j < i {
                                assert(after[j] == before[j]);
                                self.lemma_unique(j);
                            } else {
                                assert(after[j - 1] == before[j]);
                                self.lemma_unique(j - 1);
                            }
                        } else {
                            assert forall|j: int| 0 <= j < after.len() implies after[j].0 != k by {
                                if j < i {
                                    assert(after[j] == before[j]);
                                } else {
                                    assert(after[j] == before[j + 1]);
                                }
                            }
                            old(self).lemma_absent(k);
                            self.lemma_absent(k);
                        }
                    }
                }
                Some(v)
            },
            Err(_) => {
                proof {
                    assert forall|j: int| 0 <= j < self.entries@.len() implies self.entries@[j].0
                        != *l by {
                        K::lemma_irreflexive(*l);
                    }
                    self.lemma_absent(*l);
                }
                None
            },
        }
    }

    /// Appends the entry at the end where `l` is greater than every key of the
    /// map, and returns `None`; otherwise leaves the map as it is and hands the
    /// entry back. Useful for filling a map from an already sorted list.
    pub fn try_append(&mut self, l: K, v: V) -> (r: Option<(K, V)>)
        requires
            old(self).wf(),
        ensures
            final(self).wf(),
            r is None <==> forall|k: K| #[trigger] old(self).lookup(k) is Some ==> k.lt_spec(l),
            r is Some ==> r == Some((l, v)) && *final(self) == *old(self),
            r is None ==> final(self).spec_entries().len() == old(self).spec_entries().len() + 1,
            r is None ==> final(self).lookup(l) == Some(v) && forall|k: K|
                k != l ==> final(self).lookup(k) == old(self).lookup(k),
    {
        let n = self.entries.len();
        if n > 0 {
            match self.entries[n - 1].0.compare(&l) {
                core::cmp::Ordering::Less => {},
                _ => {
                    proof {
                        self.lemma_unique(n - 1);
                    }
                    return Some((l, v));
                },
            }
        }
        proof {
            assert forall|k: K| #[trigger] old(self).lookup(k) is Some implies k.lt_spec(l) by {
                if !exists|j: int| 0 <= j < n && self.entries@[j].0 == k {
                    self.lemma_absent(k);
                } else {
                    let j = choose|j: int| 0 <= j < n && self.entries@[j].0 == k;
                    if j < n - 1 {
                        K::lemma_transitive(k, self.entries@[n - 1].0, l);
                    }
                }
            }
        }
        let ghost before = self.entries@;
        self.entries.push((l, v));
        proof {
            let after = self.entries@;
            assert(after == before.push((l, v)));
            assert forall|j: int| 0 <= j < before.len() implies before[j].0.lt_spec(l) by {
                if j < before.len() - 1 {
                    K::lemma_transitive(before[j].0, before.last().0, l);
                }
            }
            assert forall|a: int, b: int| 0 <= a < b < after.len() implies after[a].0.lt_spec(
                after[b].0,
            ) by {
                assert(after[a] == before[a]);
                if b < before.len() {
                    assert(after[b] == before[b]);
                }
            }
            assert(self.wf());
            self.lemma_unique(before.len() as int);
            assert forall|k: K| k != l implies self.lookup(k) == old(self).lookup(k) by {
                if exists|j: int| 0 <= j < before.len() && before[j].0 == k {
                    let j = choose|j: int| 0 <= j < before.len() && before[j].0 == k;
                    old(self).lemma_unique(j);
                    assert(after[j] == before[j]);
                    self.lemma_unique(j);
                } else {
                    assert forall|j: int| 0 <= j < after.len() implies after[j].0 != k by {
                        if j < before.len() {
                            assert(after[j] == before[j]);
                        }
                    }
                    old(self).lemma_absent(k);
                    self.lemma_absent(k);
                }
            }
        }
        None
    }

    /// The keys of the map, in ascending order.
    pub fn keys(&self) -> (r: Vec<K>)
        requires
            self.wf(),
        ensures
            r@.len() == self.spec_entries().len(),
            forall|i: int| 0 <= i < r@.len() ==> r@[i] == self.spec_entries()[i].0,
            forall|i: int| 0 <= i < r@.len() ==> self.lookup(#[trigger] r@[i]) is Some,
            forall|l: K|
                self.lookup(l) is Some ==> exists|i: int| 0 <= i < r@.len() && r@[i] == l,
            ascending(r@),
    {
        let mut out: Vec<K> = Vec::new();
        let mut i: usize = 0;
        while i < self.entries.len()
            invariant
                self.wf(),
                i <= self.entries@.len(),
                out@.len() == i,
                forall|k: int| 0 <= k < i ==> out@[k] == self.entries@[k].0,
            decreases self.entries@.len() - i,
        {
            out.push(self.entries[i].0);
            i = i + 1;
        }
        proof {
            assert forall|k: int| 0 <= k < out@.len() implies self.lookup(#[trigger] out@[k]) is Some by {
                self.lemma_unique(k);
            }
            assert forall|l: K| self.lookup(l) is Some implies exists|k: int|
                0 <= k < out@.len() && out@[k] == l by {
                if !exists|k: int| 0 <= k < out@.len() && out@[k] == l {
                    assert forall|j: int| 0 <= j < self.entries@.len() implies self.entries@[j].0 != l by {
                        assert(out@[j] == self.entries@[j].0);
                    }
                    self.lemma_absent(l);
                }
            }
        }
        out
    }
}

} // verus!
