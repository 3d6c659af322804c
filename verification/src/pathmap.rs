//! A map whose keys are paths, for the few entries that a listing yields.

use crate::text;
use vstd::prelude::*;

verus! {

/// A map from paths to values; no path occurs twice.
pub struct PathMap<V> {
    entries: Vec<(String, V)>,
}

impl<V> PathMap<V> {
    /// Whether entry `i` has the key `k`.
    pub closed spec fn holds_at(self, k: Seq<char>, i: int) -> bool {
        0 <= i < self.entries@.len() && self.entries@[i].0@ == k
    }

    /// No path occurs twice.
    pub closed spec fn wf(self) -> bool {
        forall|i: int, j: int, k: Seq<char>|
            self.holds_at(k, i) && self.holds_at(k, j) ==> i == j
    }

    /// The value at entry `i`.
    pub closed spec fn value_at(self, i: int) -> V {
        self.entries@[i].1
    }
}

impl<V> View for PathMap<V> {
    type V = Map<Seq<char>, V>;

    open spec fn view(&self) -> Map<Seq<char>, V> {
        Map::new(
            |k: Seq<char>| exists|i: int| self.holds_at(k, i),
            |k: Seq<char>| self.value_at(choose|i: int| self.holds_at(k, i)),
        )
    }
}

impl<V> PathMap<V> {
    /// A map without entries.
    pub fn new() -> (r: Self)
        ensures
            r.wf(),
            r@ == Map::<Seq<char>, V>::empty(),
    {
        let r = PathMap { entries: Vec::new() };
        assert(r@ =~= Map::<Seq<char>, V>::empty());
        r
    }

    fn position(&self, path: &str) -> (r: Option<usize>)
        ensures
            match r {
                Some(i) => self.holds_at(path@, i as int),
                None => forall|i: int| !self.holds_at(path@, i),
            },
    {
        let mut i: usize = 0;
        while i < self.entries.len()
            invariant
                i <= self.entries@.len(),
                forall|j: int| 0 <= j < i ==> !self.holds_at(path@, j),
            decreases self.entries@.len() - i,
        {
            if text::same_str(self.entries[i].0.as_str(), path) {
                return Some(i);
            }
            i = i + 1;
        }
        None
    }

    /// The value of a path, if it has one.
    pub fn get(&self, path: &str) -> (r: Option<&V>)
        requires
            self.wf(),
        ensures
            match r {
                Some(v) => self@.dom().contains(path@) && self@[path@] == *v,
                None => !self@.dom().contains(path@),
            },
    {
        match self.position(path) {
            Some(i) => Some(&self.entries[i].1),
            None => None,
        }
    }

    /// Whether a path has a value.
    pub fn contains_key(&self, path: &str) -> (r: bool)
        requires
            self.wf(),
        ensures
            r == self@.dom().contains(path@),
    {
        self.position(path).is_some()
    }

    /// Gives a path a value, in place of the one that it had.
    pub fn insert(&mut self, path: String, value: V)
        requires
            old(self).wf(),
        ensures
            final(self).wf(),
            final(self)@ == old(self)@.insert(path@, value),
    {
        let ghost before = *self;
        let ghost key = path@;
        match self.position(path.as_str()) {
            Some(i) => {
                self.entries.set(i, (path, value));
                proof {
                    assert forall|j: int, k: Seq<char>|
                        before.holds_at(k, j) == self.holds_at(k, j) by {}
                    assert forall|k: Seq<char>| self@.dom().contains(k) implies self@[k]
                        == before@.insert(key, value)[k] by {
                        let j = choose|j: int| self.holds_at(k, j);
                        assert(before.holds_at(k, j));
                        let m = choose|j: int| before.holds_at(k, j);
                        assert(m == j);
                    }
                    assert(before.holds_at(key, i as int));
                    assert forall|k: Seq<char>|
                        self@.dom().contains(k) == before@.insert(key, value).dom().contains(
                            k,
                        ) by {
                        if before@.dom().contains(k) {
                            let j = choose|j: int| before.holds_at(k, j);
                            assert(self.holds_at(k, j));
                        }
                        if self@.dom().contains(k) {
                            let j = choose|j: int| self.holds_at(k, j);
                            assert(before.holds_at(k, j));
                        }
                        assert(self.holds_at(key, i as int));
                    }
                    assert(self@ =~= before@.insert(key, value));
                    assert forall|a: int, b: int, k: Seq<char>|
                        self.holds_at(k, a) && self.holds_at(k, b) implies a == b by {
                        assert(before.holds_at(k, a) && before.holds_at(k, b));
                    }
                }
            },
            None => {
                self.entries.push((path, value));
                proof {
                    let n = before.entries@.len() as int;
                    assert(self.holds_at(key, n));
                    assert forall|j: int, k: Seq<char>| j < n implies before.holds_at(k, j)
                        == self.holds_at(k, j) by {}
                    assert forall|k: Seq<char>| self@.dom().contains(k) implies self@[k]
                        == before@.insert(key, value)[k] by {
                        let j = choose|j: int| self.holds_at(k, j);
                        if k == key {
                            if j < n {
                                assert(before.holds_at(k, j));
                            }
                            assert(j == n);
                        } else {
                            assert(j < n);
                            assert(before.holds_at(k, j));
                            let m = choose|j: int| before.holds_at(k, j);
                            assert(m == j);
                        }
                    }
                    assert forall|k: Seq<char>|
                        self@.dom().contains(k) == before@.insert(key, value).dom().contains(
                            k,
                        ) by {
                        if before@.dom().contains(k) {
                            let j = choose|j: int| before.holds_at(k, j);
                            assert(self.holds_at(k, j));
                        }
                        if self@.dom().contains(k) && k != key {
                            let j = choose|j: int| self.holds_at(k, j);
                            assert(before.holds_at(k, j));
                        }
                    }
                    assert(self@ =~= before@.insert(key, value));
                    assert forall|a: int, b: int, k: Seq<char>|
                        self.holds_at(k, a) && self.holds_at(k, b) implies a == b by {
                        if a < n {
                            assert(before.holds_at(k, a));
                        }
                        if b < n {
                            assert(before.holds_at(k, b));
                        }
                    }
                }
            },
        }
    }
}

} // verus!
