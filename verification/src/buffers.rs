//! The set of open buffers, keyed by channel or query name.

use vstd::prelude::*;
use crate::buffer::{ChannelBuffer, BufferView};
use crate::text::str_equal;

verus! {

/// Buffers keyed by name. Each name occurs at most once; the order of the
/// entries carries no meaning (the sidebar order is kept separately).
#[derive(Debug)]
pub struct BufferMap {
    pub entries: Vec<(String, ChannelBuffer)>,
}

impl BufferMap {
    /// No name occurs twice.
    pub open spec fn wf(&self) -> bool {
        forall|i: int, j: int|
            0 <= i < j < self.entries@.len() ==> #[trigger] self.entries@[i].0@ != #[trigger] self.entries@[j].0@
    }

    /// Whether some entry is named `k`.
    pub open spec fn has(&self, k: Seq<char>) -> bool {
        exists|i: int| 0 <= i < self.entries@.len() && #[trigger] self.entries@[i].0@ == k
    }

    /// Position of the entry named `k` (meaningful when `has(k)`).
    pub open spec fn find(&self, k: Seq<char>) -> int {
        choose|i: int| 0 <= i < self.entries@.len() && #[trigger] self.entries@[i].0@ == k
    }

    /// The buffers by name.
    pub open spec fn map(&self) -> Map<Seq<char>, BufferView> {
        Map::new(|k: Seq<char>| self.has(k), |k: Seq<char>| self.entries@[self.find(k)].1@)
    }

    /// In a well-formed map, the entry named like entry `i` is entry `i`.
    pub proof fn lemma_find(&self, i: int)
        requires
            self.wf(),
            0 <= i < self.entries@.len(),
        ensures
            self.has(self.entries@[i].0@),
            self.find(self.entries@[i].0@) == i,
            self.map().contains_key(self.entries@[i].0@),
            self.map()[self.entries@[i].0@] == self.entries@[i].1@,
    {
        let k = self.entries@[i].0@;
        assert(self.has(k));
        let j = self.find(k);
        if j != i {
            if j < i {
                assert(self.entries@[j].0@ != self.entries@[i].0@);
            } else {
                assert(self.entries@[i].0@ != self.entries@[j].0@);
            }
        }
    }

    /// An empty map.
    pub fn new() -> (r: Self)
        ensures
            r.wf(),
            r.map() == Map::<Seq<char>, BufferView>::empty(),
    {
        let r = BufferMap { entries: Vec::new() };
        assert(r.map() =~= Map::<Seq<char>, BufferView>::empty());
        r
    }

    /// Number of buffers.
    pub fn len(&self) -> (n: usize)
        ensures
            n == self.entries@.len(),
    {
        self.entries.len()
    }

    /// Position of the entry named `name`, if any.
    pub fn position(&self, name: &str) -> (r: Option<usize>)
        requires
            self.wf(),
        ensures
            match r {
                Some(i) => i < self.entries@.len() && self.entries@[i as int].0@ == name@
                    && self.find(name@) == i,
                None => !self.has(name@),
            },
            r is Some <==> self.map().contains_key(name@),
    {
        let mut i: usize = 0;
        while i < self.entries.len()
            invariant
                self.wf(),
                i <= self.entries@.len(),
                forall|j: int| 0 <= j < i ==> self.entries@[j].0@ != name@,
            decreases self.entries@.len() - i,
        {
            if str_equal(self.entries[i].0.as_str(), name) {
                proof {
                    self.lemma_find(i as int);
                }
                return Some(i);
            }
            i += 1;
        }
        None
    }

    /// Whether a buffer named `name` exists.
    pub fn contains_key(&self, name: &str) -> (r: bool)
        requires
            self.wf(),
        ensures
            r == self.map().contains_key(name@),
    {
        self.position(name).is_some()
    }

    /// The buffer named `name`, if any.
    pub fn get(&self, name: &str) -> (r: Option<&ChannelBuffer>)
        requires
            self.wf(),
        ensures
            match r {
                Some(b) => self.map().contains_key(name@) && b@ == self.map()[name@],
                None => !self.map().contains_key(name@),
            },
    {
        match self.position(name) {
            Some(i) => Some(&self.entries[i].1),
            None => None,
        }
    }

    /// Sets the buffer named `name` to `b`, adding the name when it is new.
    pub fn insert(&mut self, name: String, b: ChannelBuffer)
        requires
            old(self).wf(),
        ensures
            final(self).wf(),
            final(self).map() == old(self).map().insert(name@, b@),
    {
        match self.position(name.as_str()) {
            Some(i) => {
                let ghost k = name@;
                let ghost bv = b@;
                self.entries.set(i, (name, b));
                proof {
                    assert forall|p: int, q: int| 0 <= p < q < self.entries@.len() implies
                        #[trigger] self.entries@[p].0@ != #[trigger] self.entries@[q].0@ by {
                        assert(old(self).entries@[p].0@ != old(self).entries@[q].0@);
                    }
                    self.lemma_find(i as int);
                    assert forall|j: int| 0 <= j < self.entries@.len() implies
                        old(self).map().contains_key(#[trigger] self.entries@[j].0@) by {
                        old(self).lemma_find(j);
                    }
                    self.lemma_map_update(*old(self), i as int, k, bv);
                }
            },
            None => {
                let ghost k = name@;
                let ghost bv = b@;
                self.entries.push((name, b));
                proof {
                    let n = old(self).entries@.len() as int;
                    assert forall|p: int, q: int| 0 <= p < q < self.entries@.len() implies
                        #[trigger] self.entries@[p].0@ != #[trigger] self.entries@[q].0@ by {
                        if q == n {
                            assert(!old(self).has(k));
                            if self.entries@[p].0@ == k {
                                assert(old(self).entries@[p].0@ == k);
                            }
                        } else {
                            assert(old(self).entries@[p].0@ != old(self).entries@[q].0@);
                        }
                    }
                    self.lemma_map_push(*old(self), k, bv);
                }
            },
        }
    }

    proof fn lemma_map_update(&self, prev: BufferMap, i: int, k: Seq<char>, b: BufferView)
        requires
            prev.wf(),
            self.wf(),
            0 <= i < prev.entries@.len(),
            prev.entries@[i].0@ == k,
            self.entries@.len() == prev.entries@.len(),
            self.entries@[i].0@ == k,
            self.entries@[i].1@ == b,
            forall|j: int| 0 <= j < self.entries@.len() && j != i ==> self.entries@[j] == prev.entries@[j],
        ensures
            self.map() == prev.map().insert(k, b),
    {
        assert forall|key: Seq<char>| #[trigger] self.has(key) <==> prev.map().insert(k, b).contains_key(key) by {
            if self.has(key) {
                let j = self.find(key);
                if j != i {
                    assert(prev.entries@[j].0@ == key);
                    prev.lemma_find(j);
                }
            }
            if prev.has(key) {
                let j = prev.find(key);
                if j != i {
                    assert(self.entries@[j].0@ == key);
                } else {
                    assert(self.entries@[i].0@ == key);
                }
            }
            if key == k {
                assert(self.entries@[i].0@ == key);
            }
        }
        assert forall|key: Seq<char>| self.has(key) implies
            #[trigger] self.map()[key] == prev.map().insert(k, b)[key] by {
            let j = self.find(key);
            self.lemma_find(j);
            if j != i {
                assert(prev.entries@[j].0@ == key);
                prev.lemma_find(j);
            }
        }
        assert(self.map() =~= prev.map().insert(k, b));
    }

    proof fn lemma_map_push(&self, prev: BufferMap, k: Seq<char>, b: BufferView)
        requires
            prev.wf(),
            self.wf(),
            self.entries@.len() == prev.entries@.len() + 1,
            forall|j: int| 0 <= j < prev.entries@.len() ==> self.entries@[j] == prev.entries@[j],
            self.entries@.last().1@ == b,
            self.entries@.last().0@ == k,
        ensures
            self.map() == prev.map().insert(k, b),
    {
        let n = prev.entries@.len() as int;
        assert forall|key: Seq<char>| #[trigger] self.has(key) <==> prev.map().insert(k, b).contains_key(key) by {
            if self.has(key) {
                let j = self.find(key);
                if j < n {
                    assert(prev.entries@[j].0@ == key);
                }
            }
            if prev.has(key) {
                let j = prev.find(key);
                assert(self.entries@[j].0@ == key);
            }
            if key == k {
                assert(self.entries@[n].0@ == key);
            }
        }
        assert forall|key: Seq<char>| self.has(key) implies
            #[trigger] self.map()[key] == prev.map().insert(k, b)[key] by {
            let j = self.find(key);
            self.lemma_find(j);
            if j < n {
                assert(prev.entries@[j].0@ == key);
                prev.lemma_find(j);
            }
        }
        assert(self.map() =~= prev.map().insert(k, b));
    }

    /// Whether `self` has the same names, in the same positions, as `other`.
    pub open spec fn same_names(&self, other: BufferMap) -> bool {
        &&& self.entries@.len() == other.entries@.len()
        &&& forall|j: int| 0 <= j < self.entries@.len() ==> #[trigger] self.entries@[j].0 == other.entries@[j].0
    }

    /// The name of entry `i`.
    pub fn name_at(&self, i: usize) -> (r: &String)
        requires
            i < self.entries@.len(),
        ensures
            *r == self.entries@[i as int].0,
    {
        &self.entries[i].0
    }

    /// The buffer of entry `i`.
    pub fn buffer_at(&self, i: usize) -> (r: &ChannelBuffer)
        requires
            i < self.entries@.len(),
        ensures
            *r == self.entries@[i as int].1,
    {
        &self.entries[i].1
    }

    /// Takes the buffer of entry `i` out, leaving an empty one in its place.
    pub fn take_at(&mut self, i: usize) -> (b: ChannelBuffer)
        requires
            old(self).wf(),
            i < old(self).entries@.len(),
        ensures
            final(self).wf(),
            final(self).same_names(*old(self)),
            forall|j: int| 0 <= j < old(self).entries@.len() && j != i ==> #[trigger] final(self).entries@[j] == old(self).entries@[j],
            b == old(self).entries@[i as int].1,
    {
        let name = self.entries[i].0.clone();
        let mut tmp = (name, ChannelBuffer::new());
        self.entries.set_and_swap(i, &mut tmp);
        proof {
            assert forall|p: int, q: int| 0 <= p < q < self.entries@.len() implies
                #[trigger] self.entries@[p].0@ != #[trigger] self.entries@[q].0@ by {
                assert(old(self).entries@[p].0@ != old(self).entries@[q].0@);
            }
        }
        tmp.1
    }

    /// Puts `b` as the buffer of entry `i`.
    pub fn put_at(&mut self, i: usize, b: ChannelBuffer)
        requires
            old(self).wf(),
            i < old(self).entries@.len(),
        ensures
            final(self).wf(),
            final(self).same_names(*old(self)),
            forall|j: int| 0 <= j < old(self).entries@.len() && j != i ==> #[trigger] final(self).entries@[j] == old(self).entries@[j],
            final(self).entries@[i as int].1 == b,
    {
        let name = self.entries[i].0.clone();
        self.entries.set(i, (name, b));
        proof {
            assert forall|p: int, q: int| 0 <= p < q < self.entries@.len() implies
                #[trigger] self.entries@[p].0@ != #[trigger] self.entries@[q].0@ by {
                assert(old(self).entries@[p].0@ != old(self).entries@[q].0@);
            }
        }
    }

    /// When two well-formed maps have the same names in the same positions and
    /// each buffer of `self` is `f` of the name and the buffer of `prev`, the
    /// map of `self` is `f` applied to the map of `prev`.
    pub proof fn lemma_map_pointwise(&self, prev: BufferMap, f: spec_fn(Seq<char>, BufferView) -> BufferView)
        requires
            prev.wf(),
            self.wf(),
            self.same_names(prev),
            forall|j: int| 0 <= j < self.entries@.len() ==>
                #[trigger] self.entries@[j].1@ == f(prev.entries@[j].0@, prev.entries@[j].1@),
        ensures
            self.map() == Map::new(|k: Seq<char>| prev.map().contains_key(k), |k: Seq<char>| f(k, prev.map()[k])),
    {
        let target = Map::new(|k: Seq<char>| prev.map().contains_key(k), |k: Seq<char>| f(k, prev.map()[k]));
        assert forall|k: Seq<char>| #[trigger] self.has(k) <==> prev.has(k) by {
            if self.has(k) {
                let j = self.find(k);
                assert(prev.entries@[j].0 == self.entries@[j].0);
                assert(prev.entries@[j].0@ == k);
            }
            if prev.has(k) {
                let j = prev.find(k);
                assert(prev.entries@[j].0 == self.entries@[j].0);
                assert(self.entries@[j].0@ == k);
            }
        }
        assert forall|k: Seq<char>| self.has(k) implies #[trigger] self.map()[k] == target[k] by {
            let j = self.find(k);
            self.lemma_find(j);
            assert(prev.entries@[j].0 == self.entries@[j].0);
            prev.lemma_find(j);
        }
        assert(self.map() =~= target);
    }

    /// Removes the buffer named `name` and returns it.
    pub fn remove(&mut self, name: &str) -> (r: Option<ChannelBuffer>)
        requires
            old(self).wf(),
        ensures
            final(self).wf(),
            final(self).map() == old(self).map().remove(name@),
            match r {
                Some(b) => old(self).map().contains_key(name@) && b@ == old(self).map()[name@],
                None => !old(self).map().contains_key(name@),
            },
    {
        match self.position(name) {
            Some(i) => {
                proof {
                    self.lemma_find(i as int);
                }
                let e = self.entries.remove(i);
                proof {
                    let prev = *old(self);
                    assert forall|p: int, q: int| 0 <= p < q < self.entries@.len() implies
                        #[trigger] self.entries@[p].0@ != #[trigger] self.entries@[q].0@ by {
                        let pp = if p < i { p } else { p + 1 };
                        let qq = if q < i { q } else { q + 1 };
                        assert(prev.entries@[pp].0@ != prev.entries@[qq].0@);
                    }
                    assert forall|key: Seq<char>| #[trigger] self.has(key) <==> prev.map().remove(name@).contains_key(key) by {
                        if self.has(key) {
                            let j = self.find(key);
                            let jj = if j < i { j } else { j + 1 };
                            assert(prev.entries@[jj].0@ == key);
                            if key == name@ {
                                assert(prev.entries@[i as int].0@ == key);
                            }
                        }
                        if prev.has(key) && key != name@ {
                            let j = prev.find(key);
                            if j < i {
                                assert(self.entries@[j].0@ == key);
                            } else {
                                assert(j != i);
                                assert(self.entries@[j - 1].0@ == key);
                            }
                        }
                    }
                    assert forall|key: Seq<char>| self.has(key) implies
                        #[trigger] self.map()[key] == prev.map().remove(name@)[key] by {
                        let j = self.find(key);
                        self.lemma_find(j);
                        let jj = if j < i { j } else { j + 1 };
                        assert(prev.entries@[jj].0@ == key);
                        prev.lemma_find(jj);
                    }
                    assert(self.map() =~= prev.map().remove(name@));
                }
                Some(e.1)
            },
            None => {
                assert(self.map() =~= old(self).map().remove(name@));
                None
            },
        }
    }
}

/// What a lookup gives back after a write: once `insert(k, v)` has run, the
/// map holds `v` under `k`, and every other name keeps its buffer (or its
/// absence).
pub proof fn lemma_read_after_insert(before: BufferMap, after: BufferMap, k: Seq<char>, v: BufferView, other: Seq<char>)
    requires
        before.wf(),
        after.wf(),
        after.map() == before.map().insert(k, v),
    ensures
        after.map().contains_key(k),
        after.map()[k] == v,
        other != k ==> after.map().contains_key(other) == before.map().contains_key(other),
        other != k && before.map().contains_key(other) ==> after.map()[other] == before.map()[other],
{
}

/// What a lookup gives back after a removal: once `remove(k)` has run, no
/// buffer is named `k`, and every other name keeps its buffer (or its
/// absence).
pub proof fn lemma_read_after_remove(before: BufferMap, after: BufferMap, k: Seq<char>, other: Seq<char>)
    requires
        before.wf(),
        after.wf(),
        after.map() == before.map().remove(k),
    ensures
        !after.map().contains_key(k),
        other != k ==> after.map().contains_key(other) == before.map().contains_key(other),
        other != k && before.map().contains_key(other) ==> after.map()[other] == before.map()[other],
{
}

} // verus!
