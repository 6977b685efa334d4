//! A map from path keys to inode numbers, kept as a sorted vector.

use vstd::prelude::*;

verus! {

/// How two keys are ordered.
#[derive(Clone, Copy, PartialEq, Eq, Structural)]
enum KeyOrder {
    Before,
    Same,
    Behind,
}

/// The lexicographic order of byte strings.
pub open spec fn precedes(a: Seq<u8>, b: Seq<u8>) -> bool
    decreases a.len(),
{
    if b.len() == 0 {
        false
    } else if a.len() == 0 {
        true
    } else if a[0] == b[0] {
        precedes(a.skip(1), b.skip(1))
    } else {
        a[0] < b[0]
    }
}

proof fn lemma_precedes_irreflexive(a: Seq<u8>)
    ensures
        !precedes(a, a),
    decreases a.len(),
{
    if a.len() > 0 {
        lemma_precedes_irreflexive(a.skip(1));
    }
}

proof fn lemma_precedes_transitive(a: Seq<u8>, b: Seq<u8>, c: Seq<u8>)
    requires
        precedes(a, b),
        precedes(b, c),
    ensures
        precedes(a, c),
    decreases a.len(),
{
    if a.len() > 0 && a[0] == b[0] && b[0] == c[0] {
        lemma_precedes_transitive(a.skip(1), b.skip(1), c.skip(1));
    }
}

/// A common prefix does not bear on the order.
proof fn lemma_precedes_after_prefix(a: Seq<u8>, b: Seq<u8>, n: int)
    requires
        0 <= n <= a.len(),
        n <= b.len(),
        forall|i: int| 0 <= i < n ==> a[i] == b[i],
    ensures
        precedes(a, b) == precedes(a.skip(n), b.skip(n)),
    decreases n,
{
    if n == 0 {
        assert(a.skip(0) =~= a);
        assert(b.skip(0) =~= b);
    } else {
        assert(a[0] == b[0]);
        assert forall|i: int| 0 <= i < n - 1 implies a.skip(1)[i] == b.skip(1)[i] by {
            assert(a[i + 1] == b[i + 1]);
        }
        lemma_precedes_after_prefix(a.skip(1), b.skip(1), n - 1);
        assert(a.skip(1).skip(n - 1) =~= a.skip(n));
        assert(b.skip(1).skip(n - 1) =~= b.skip(n));
    }
}

/// Compares two keys.
fn order_of(a: &[u8], b: &[u8]) -> (r: KeyOrder)
    ensures
        r == KeyOrder::Same <==> a@ == b@,
        r == KeyOrder::Before <==> precedes(a@, b@),
        r == KeyOrder::Behind <==> precedes(b@, a@),
{
    let mut n: usize = 0;
    while n < a.len() && n < b.len() && a[n] == b[n]
        invariant
            n <= a@.len(),
            n <= b@.len(),
            forall|i: int| 0 <= i < n ==> a@[i] == b@[i],
        decreases a@.len() - n,
    {
        n = n + 1;
    }
    proof {
        lemma_precedes_after_prefix(a@, b@, n as int);
        lemma_precedes_after_prefix(b@, a@, n as int);
        lemma_precedes_irreflexive(a@);
    }
    if n == a.len() {
        if n == b.len() {
            assert(a@ =~= b@);
            KeyOrder::Same
        } else {
            KeyOrder::Before
        }
    } else if n == b.len() {
        KeyOrder::Behind
    } else if a[n] < b[n] {
        KeyOrder::Before
    } else {
        KeyOrder::Behind
    }
}

/// Inode numbers filed under path keys.
pub struct PathIndex {
    entries: Vec<(Vec<u8>, u64)>,
}

impl View for PathIndex {
    type V = Map<Seq<u8>, u64>;

    closed spec fn view(&self) -> Map<Seq<u8>, u64> {
        Map::new(
            |key: Seq<u8>| exists|i: int| self.holds(key, i),
            |key: Seq<u8>| self.entries@[choose|i: int| self.holds(key, i)].1,
        )
    }
}

impl PathIndex {
    /// Entry `i` is filed under `key`.
    spec fn holds(&self, key: Seq<u8>, i: int) -> bool {
        0 <= i < self.entries@.len() && self.entries@[i].0@ == key
    }

    /// The keys ascend, so none occurs twice.
    pub closed spec fn wf(&self) -> bool {
        forall|i: int, j: int|
            0 <= i < j < self.entries@.len() ==> precedes(
                #[trigger] self.entries@[i].0@,
                #[trigger] self.entries@[j].0@,
            )
    }

    /// In a well-formed index, entry `i` is the one filed under its key.
    proof fn lemma_entry(&self, i: int)
        requires
            self.wf(),
            0 <= i < self.entries@.len(),
        ensures
            self@.contains_key(self.entries@[i].0@),
            self@[self.entries@[i].0@] == self.entries@[i].1,
    {
        let key = self.entries@[i].0@;
        assert(self.holds(key, i));
        let j = choose|j: int| self.holds(key, j);
        lemma_precedes_irreflexive(key);
    }

    /// An index without entries.
    pub fn new() -> (r: Self)
        ensures
            r.wf(),
            r@ == Map::<Seq<u8>, u64>::empty(),
    {
        let r = PathIndex { entries: Vec::new() };
        assert(r@ =~= Map::<Seq<u8>, u64>::empty());
        r
    }

    /// Finds the entry for `key`, or the place where it would be inserted.
    fn find(&self, key: &[u8]) -> (r: (bool, usize))
        requires
            self.wf(),
        ensures
            r.1 <= self.entries@.len(),
            r.0 ==> self.holds(key@, r.1 as int),
            !r.0 ==> !self@.contains_key(key@),
            !r.0 ==> forall|i: int| 0 <= i < r.1 ==> precedes(#[trigger] self.entries@[i].0@, key@),
            !r.0 ==> forall|i: int|
                r.1 <= i < self.entries@.len() ==> precedes(key@, #[trigger] self.entries@[i].0@),
    {
        let mut low: usize = 0;
        let mut high: usize = self.entries.len();
        while low < high
            invariant
                self.wf(),
                low <= high <= self.entries@.len(),
                forall|i: int| 0 <= i < low ==> precedes(#[trigger] self.entries@[i].0@, key@),
                forall|i: int|
                    high <= i < self.entries@.len() ==> precedes(key@, #[trigger] self.entries@[i].0@),
            decreases high - low,
        {
            let mid: usize = low + (high - low) / 2;
            match order_of(self.entries[mid].0.as_slice(), key) {
                KeyOrder::Same => {
                    return (true, mid);
                },
                KeyOrder::Before => {
                    proof {
                        assert forall|i: int| 0 <= i < mid + 1 implies precedes(
                            #[trigger] self.entries@[i].0@,
                            key@,
                        ) by {
                            if i < mid {
                                lemma_precedes_transitive(
                                    self.entries@[i].0@,
                                    self.entries@[mid as int].0@,
                                    key@,
                                );
                            }
                        }
                    }
                    low = mid + 1;
                },
                KeyOrder::Behind => {
                    proof {
                        assert forall|i: int| mid <= i < self.entries@.len() implies precedes(
                            key@,
                            #[trigger] self.entries@[i].0@,
                        ) by {
                            if mid < i {
                                lemma_precedes_transitive(
                                    key@,
                                    self.entries@[mid as int].0@,
                                    self.entries@[i].0@,
                                );
                            }
                        }
                    }
                    high = mid;
                },
            }
        }
        proof {
            if self@.contains_key(key@) {
                let i = choose|i: int| self.holds(key@, i);
                assert(self.holds(key@, i));
                lemma_precedes_irreflexive(key@);
            }
        }
        (false, low)
    }

    /// The inode number filed under `key`.
    pub fn get(&self, key: &[u8]) -> (r: Option<u64>)
        requires
            self.wf(),
        ensures
            r == if self@.contains_key(key@) {
                Some(self@[key@])
            } else {
                None
            },
    {
        let (found, at) = self.find(key);
        if found {
            proof {
                self.lemma_entry(at as int);
            }
            Some(self.entries[at].1)
        } else {
            None
        }
    }

    /// Files `ino` under `key`, in place of what was filed there.
    pub fn insert(&mut self, key: Vec<u8>, ino: u64)
        requires
            old(self).wf(),
        ensures
            final(self).wf(),
            final(self)@ == old(self)@.insert(key@, ino),
    {
        let ghost before = *self;
        let ghost k = key@;
        let (found, at) = self.find(key.as_slice());
        if found {
            self.entries.remove(at);
        }
        let ghost middle = *self;
        proof {
            if found {
                before.lemma_remove(middle, at as int);
            } else {
                assert(before@.remove(k) =~= before@);
            }
        }
        self.entries.insert(at, (key, ino));
        proof {
            let a = at as int;
            assert forall|i: int, j: int| 0 <= i < j < self.entries@.len() implies precedes(
                #[trigger] self.entries@[i].0@,
                #[trigger] self.entries@[j].0@,
            ) by {
                if i == a {
                    assert(self.entries@[j] == middle.entries@[j - 1]);
                    if found {
                        assert(middle.entries@[j - 1] == before.entries@[j]);
                    }
                } else if j == a {
                    assert(self.entries@[i] == middle.entries@[i]);
                } else {
                    let oi = if i < a { i } else { i - 1 };
                    let oj = if j < a { j } else { j - 1 };
                    assert(self.entries@[i] == middle.entries@[oi]);
                    assert(self.entries@[j] == middle.entries@[oj]);
                }
            }
            assert forall|key: Seq<u8>| #[trigger]
                self@.contains_key(key) <==> middle@.insert(k, ino).contains_key(key) by {
                if self@.contains_key(key) && key != k {
                    let i = choose|i: int| self.holds(key, i);
                    assert(self.holds(key, i));
                    assert(middle.holds(key, if i < a { i } else { i - 1 }));
                }
                if middle@.contains_key(key) {
                    let i = choose|i: int| middle.holds(key, i);
                    assert(middle.holds(key, i));
                    assert(self.holds(key, if i < a { i } else { i + 1 }));
                }
                assert(self.holds(k, a));
            }
            assert forall|key: Seq<u8>| #[trigger] self@.contains_key(key) implies self@[key]
                == middle@.insert(k, ino)[key] by {
                let i = choose|i: int| self.holds(key, i);
                assert(self.holds(key, i));
                self.lemma_entry(i);
                if key == k {
                    self.lemma_entry(a);
                } else {
                    middle.lemma_entry(if i < a { i } else { i - 1 });
                }
            }
            assert(self@ =~= middle@.insert(k, ino));
            assert(self@ =~= before@.insert(k, ino));
        }
    }

    /// Removing entry `at` removes its key.
    proof fn lemma_remove(&self, after: Self, at: int)
        requires
            self.wf(),
            0 <= at < self.entries@.len(),
            after.entries@ == self.entries@.remove(at),
        ensures
            after.wf(),
            after@ == self@.remove(self.entries@[at].0@),
    {
        let k = self.entries@[at].0@;
        assert forall|i: int, j: int| 0 <= i < j < after.entries@.len() implies precedes(
            #[trigger] after.entries@[i].0@,
            #[trigger] after.entries@[j].0@,
        ) by {
            let oi = if i < at { i } else { i + 1 };
            let oj = if j < at { j } else { j + 1 };
            assert(after.entries@[i] == self.entries@[oi]);
            assert(after.entries@[j] == self.entries@[oj]);
        }
        assert forall|key: Seq<u8>| #[trigger]
            after@.contains_key(key) <==> self@.remove(k).contains_key(key) by {
            if after@.contains_key(key) {
                let i = choose|i: int| after.holds(key, i);
                assert(after.holds(key, i));
                let o = if i < at { i } else { i + 1 };
                assert(after.entries@[i] == self.entries@[o]);
                assert(self.holds(key, o));
                lemma_precedes_irreflexive(k);
            }
            if self@.contains_key(key) && key != k {
                let i = choose|i: int| self.holds(key, i);
                assert(self.holds(key, i));
                let n = if i < at { i } else { i - 1 };
                assert(after.entries@[n] == self.entries@[i]);
                assert(after.holds(key, n));
            }
        }
        assert forall|key: Seq<u8>| #[trigger] after@.contains_key(key) implies after@[key]
            == self@.remove(k)[key] by {
            let i = choose|i: int| after.holds(key, i);
            assert(after.holds(key, i));
            let o = if i < at { i } else { i + 1 };
            assert(after.entries@[i] == self.entries@[o]);
            after.lemma_entry(i);
            self.lemma_entry(o);
        }
        assert(after@ =~= self@.remove(k));
    }

    /// Takes out what is filed under `key`.
    pub fn remove(&mut self, key: &[u8]) -> (r: Option<u64>)
        requires
            old(self).wf(),
        ensures
            final(self).wf(),
            final(self)@ == old(self)@.remove(key@),
            r == if old(self)@.contains_key(key@) {
                Some(old(self)@[key@])
            } else {
                None
            },
    {
        let ghost before = *self;
        let (found, at) = self.find(key);
        if found {
            let entry = self.entries.remove(at);
            proof {
                before.lemma_entry(at as int);
                before.lemma_remove(*self, at as int);
            }
            Some(entry.1)
        } else {
            assert(before@.remove(key@) =~= before@);
            None
        }
    }
}

} // verus!
