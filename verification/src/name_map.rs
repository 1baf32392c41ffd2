//! A map keyed by name that remembers its keys, so it can be walked.

use vstd::prelude::*;
use vstd::hash_map::StringHashMap;
use crate::text::views;

verus! {

/// A map from names to values. Keys are kept in insertion order beside an
/// index from name to position, so the map can be looked up by name and
/// walked in a fixed order.
pub struct NameMap<V> {
    keys: Vec<String>,
    vals: Vec<V>,
    index: StringHashMap<usize>,
}

/// The first `j` names of `ks` are indexed at their positions.
/// The names of `ks` from position `j` on are indexed one past their positions.
spec fn index_suffix_shifted(idx: Map<Seq<char>, usize>, ks: Seq<String>, j: int) -> bool {
    forall|p: int| j <= p < ks.len() ==> #[trigger] idx.contains_key(ks[p]@) && idx[ks[p]@] == p + 1
}

spec fn index_prefix_ok(idx: Map<Seq<char>, usize>, ks: Seq<String>, j: int) -> bool {
    forall|p: int| 0 <= p < j ==> #[trigger] idx.contains_key(ks[p]@) && idx[ks[p]@] == p
}

impl<V> NameMap<V> {
    /// Keys and values line up, and the index maps each key to its position.
    pub closed spec fn wf(&self) -> bool {
        &&& self.keys@.len() == self.vals@.len()
        &&& forall|i: int| 0 <= i < self.keys@.len() ==>
            #[trigger] self.index@.contains_key(self.keys@[i]@) && self.index@[self.keys@[i]@] == i
        &&& forall|k: Seq<char>| #[trigger] self.index@.contains_key(k) ==>
            self.index@[k] < self.keys@.len() && self.keys@[self.index@[k] as int]@ == k
    }

    /// The keys, in the order they were first inserted.
    pub closed spec fn key_list(&self) -> Seq<Seq<char>> {
        views(self.keys@)
    }

    /// The values, position by position with `key_list`.
    pub closed spec fn value_list(&self) -> Seq<V> {
        self.vals@
    }

    /// The map from each key to its value.
    pub closed spec fn view(&self) -> Map<Seq<char>, V> {
        Map::new(|k: Seq<char>| self.index@.contains_key(k), |k: Seq<char>| self.vals@[self.index@[k] as int])
    }

    /// The key list holds exactly the map's keys, once each, and the values line
    /// up with them.
    pub proof fn lemma_wf(&self)
        requires
            self.wf(),
        ensures
            self.key_list().len() == self.value_list().len(),
            self.key_list().no_duplicates(),
            forall|k: Seq<char>| #[trigger] self.view().contains_key(k) <==> self.key_list().contains(k),
            forall|i: int| 0 <= i < self.key_list().len() ==>
                #[trigger] self.view()[self.key_list()[i]] == self.value_list()[i],
    {
        assert forall|k: Seq<char>| #[trigger] self.view().contains_key(k) <==> self.key_list().contains(k) by {
            if self.view().contains_key(k) {
                let i = self.index@[k] as int;
                assert(self.key_list()[i] == k);
            }
            if self.key_list().contains(k) {
                let i = choose|i: int| 0 <= i < self.key_list().len() && self.key_list()[i] == k;
                assert(self.keys@[i]@ == k);
            }
        }
        assert forall|i: int, j: int| 0 <= i < self.key_list().len() && 0 <= j < self.key_list().len() && i != j
            implies self.key_list()[i] != self.key_list()[j] by {
            assert(self.keys@[i]@ == self.key_list()[i]);
            assert(self.keys@[j]@ == self.key_list()[j]);
            assert(self.index@.contains_key(self.keys@[i]@));
            assert(self.index@.contains_key(self.keys@[j]@));
        }
        assert forall|i: int| 0 <= i < self.key_list().len() implies
            #[trigger] self.view()[self.key_list()[i]] == self.value_list()[i] by {
            assert(self.keys@[i]@ == self.key_list()[i]);
        }
    }

    /// An empty map.
    pub fn new() -> (r: Self)
        ensures
            r.wf(),
            r.view() == Map::<Seq<char>, V>::empty(),
            r.key_list() == Seq::<Seq<char>>::empty(),
    {
        let r = NameMap { keys: Vec::new(), vals: Vec::new(), index: StringHashMap::new() };
        assert(r.view() =~= Map::<Seq<char>, V>::empty());
        assert(r.key_list() =~= Seq::<Seq<char>>::empty());
        r
    }

    /// The number of entries.
    pub fn len(&self) -> (r: usize)
        requires
            self.wf(),
        ensures
            r == self.key_list().len(),
    {
        self.keys.len()
    }

    /// Whether the map has no entries.
    pub fn is_empty(&self) -> (r: bool)
        requires
            self.wf(),
        ensures
            r == self.view().is_empty(),
    {
        proof {
            self.lemma_wf();
            if self.keys@.len() > 0 {
                assert(self.view().contains_key(self.key_list()[0]));
            }
        }
        self.keys.len() == 0
    }

    /// The key at position `i` of the key list.
    pub fn key_at(&self, i: usize) -> (r: &String)
        requires
            self.wf(),
            i < self.key_list().len(),
        ensures
            r@ == self.key_list()[i as int],
    {
        &self.keys[i]
    }

    /// The value at position `i` of the key list.
    pub fn value_at(&self, i: usize) -> (r: &V)
        requires
            self.wf(),
            i < self.key_list().len(),
        ensures
            *r == self.value_list()[i as int],
            *r == self.view()[self.key_list()[i as int]],
    {
        proof {
            self.lemma_wf();
        }
        &self.vals[i]
    }

    /// Looks a name up.
    pub fn get(&self, k: &str) -> (r: Option<&V>)
        requires
            self.wf(),
        ensures
            match r {
                Some(v) => self.view().contains_key(k@) && *v == self.view()[k@],
                None => !self.view().contains_key(k@),
            },
    {
        match self.index.get(k) {
            Some(i) => Some(&self.vals[*i]),
            None => None,
        }
    }

    /// Whether a name has an entry.
    pub fn contains_key(&self, k: &str) -> (r: bool)
        requires
            self.wf(),
        ensures
            r == self.view().contains_key(k@),
    {
        self.index.contains_key(k)
    }

    /// The position of a name in the key list.
    pub fn position(&self, k: &str) -> (r: Option<usize>)
        requires
            self.wf(),
        ensures
            match r {
                Some(i) => i < self.key_list().len() && self.key_list()[i as int] == k@ && self.view().contains_key(k@),
                None => !self.view().contains_key(k@),
            },
    {
        match self.index.get(k) {
            Some(i) => {
                assert(self.keys@[*i as int]@ == k@);
                Some(*i)
            },
            None => None,
        }
    }

    /// Sets the value of a name. A new name goes at the end of the key list.
    pub fn insert(&mut self, k: String, v: V)
        requires
            old(self).wf(),
        ensures
            final(self).wf(),
            final(self).view() == old(self).view().insert(k@, v),
            final(self).key_list() == if old(self).view().contains_key(k@) {
                old(self).key_list()
            } else {
                old(self).key_list().push(k@)
            },
    {
        let ghost old_self = *self;
        match self.index.get(k.as_str()) {
            Some(i) => {
                let i = *i;
                self.vals.set(i, v);
                assert(self.view() =~= old_self.view().insert(k@, v));
            },
            None => {
                let n = self.keys.len();
                self.index.insert(k.clone(), n);
                self.keys.push(k);
                self.vals.push(v);
                assert forall|i: int| 0 <= i < self.keys@.len() implies
                    #[trigger] self.index@.contains_key(self.keys@[i]@) && self.index@[self.keys@[i]@] == i by {
                    if i < n {
                        assert(old_self.index@.contains_key(old_self.keys@[i]@));
                    }
                }
                assert(self.view() =~= old_self.view().insert(k@, v));
                assert(self.key_list() =~= old_self.key_list().push(k@));
            },
        }
    }

    /// Replaces the value at position `i`, giving back the old one.
    pub fn replace_at(&mut self, i: usize, v: V) -> (r: V)
        requires
            old(self).wf(),
            i < old(self).key_list().len(),
        ensures
            final(self).wf(),
            r == old(self).value_list()[i as int],
            final(self).key_list() == old(self).key_list(),
            final(self).value_list() == old(self).value_list().update(i as int, v),
            final(self).view() == old(self).view().insert(old(self).key_list()[i as int], v),
    {
        let ghost old_self = *self;
        let mut r = v;
        std::mem::swap(&mut self.vals[i], &mut r);
        assert(self.view() =~= old_self.view().insert(old_self.key_list()[i as int], v)) by {
            assert(old_self.keys@[i as int]@ == old_self.key_list()[i as int]);
        }
        r
    }

    /// The value at position `i`, to change in place.
    pub fn value_mut_at(&mut self, i: usize) -> (r: &mut V)
        requires
            old(self).wf(),
            i < old(self).key_list().len(),
        ensures
            *r == old(self).value_list()[i as int],
            final(self).wf(),
            final(self).key_list() == old(self).key_list(),
            final(self).value_list() == old(self).value_list().update(i as int, *final(r)),
            final(self).view() == old(self).view().insert(old(self).key_list()[i as int], *final(r)),
    {
        &mut self.vals[i]
    }

    /// Removes a name, keeping the order of the other keys.
    pub fn remove(&mut self, k: &str)
        requires
            old(self).wf(),
        ensures
            final(self).wf(),
            final(self).view() == old(self).view().remove(k@),
            !old(self).view().contains_key(k@) ==> final(self).key_list() == old(self).key_list()
                && final(self).value_list() == old(self).value_list(),
            old(self).view().contains_key(k@) ==> exists|i: int|
                0 <= i < old(self).key_list().len() && old(self).key_list()[i] == k@
                    && final(self).key_list() == old(self).key_list().remove(i)
                    && final(self).value_list() == old(self).value_list().remove(i),
    {
        let ghost old_self = *self;
        match self.index.get(k) {
            None => {
                assert(self.view() =~= old_self.view().remove(k@));
            },
            Some(ip) => {
                let i = *ip;
                proof {
                    old_self.lemma_wf();
                }
                assert(old_self.key_list()[i as int] == k@);
                self.index.remove(k);
                self.keys.remove(i);
                self.vals.remove(i);
                let ghost ks = self.keys@;
                assert(views(ks) == old_self.key_list().remove(i as int));
                assert forall|p: int, q: int| 0 <= p < q < ks.len() implies ks[p]@ != ks[q]@ by {
                    let op = if p < i { p } else { p + 1 };
                    let oq = if q < i { q } else { q + 1 };
                    assert(views(ks)[p] == old_self.key_list()[op]);
                    assert(views(ks)[q] == old_self.key_list()[oq]);
                }
                assert forall|p: int| i <= p < ks.len() implies
                    #[trigger] self.index@.contains_key(ks[p]@) && self.index@[ks[p]@] == p + 1 by {
                    assert(views(ks)[p] == old_self.key_list()[p + 1]);
                    assert(old_self.keys@[p + 1]@ == ks[p]@);
                    assert(old_self.index@.contains_key(old_self.keys@[p + 1]@));
                }
                assert forall|p: int| 0 <= p < i implies
                    #[trigger] self.index@.contains_key(ks[p]@) && self.index@[ks[p]@] == p by {
                    assert(views(ks)[p] == old_self.key_list()[p]);
                    assert(old_self.keys@[p]@ == ks[p]@);
                    assert(old_self.index@.contains_key(old_self.keys@[p]@));
                }
                let mut j: usize = i;
                assert(index_prefix_ok(self.index@, ks, j as int));
                assert(index_suffix_shifted(self.index@, ks, j as int));
                while j < self.keys.len()
                    invariant
                        i <= j <= self.keys@.len(),
                        self.keys@ == ks,
                        self.keys@.len() == self.vals@.len(),
                        self.keys@.len() + 1 == old_self.keys@.len(),
                        self.vals@ == old_self.vals@.remove(i as int),
                        views(ks) == old_self.key_list().remove(i as int),
                        i < old_self.keys@.len(),
                        old_self.key_list()[i as int] == k@,
                        old_self.wf(),
                        index_prefix_ok(self.index@, ks, j as int),
                        index_suffix_shifted(self.index@, ks, j as int),
                        forall|q: Seq<char>| #[trigger] self.index@.contains_key(q) ==>
                            ((self.index@[q] < j && ks[self.index@[q] as int]@ == q)
                                || (self.index@[q] > j && self.index@[q] <= ks.len() && ks[self.index@[q] - 1]@ == q)),
                        !self.index@.contains_key(k@),
                        forall|p: int, q: int| 0 <= p < q < ks.len() ==> #[trigger] ks[p]@ != #[trigger] ks[q]@,
                    decreases ks.len() - j,
                {
                    let ghost old_idx = self.index@;
                    let ghost jj = j as int;
                    let name = self.keys[j].clone();
                    self.index.insert(name, j);
                    j += 1;
                    assert(index_prefix_ok(old_idx, ks, jj));
                    assert(index_suffix_shifted(old_idx, ks, jj));
                    assert forall|p: int| j <= p < ks.len() implies
                        #[trigger] self.index@.contains_key(ks[p]@) && self.index@[ks[p]@] == p + 1 by {
                        assert(old_idx.contains_key(ks[p]@));
                        assert(ks[jj]@ != ks[p]@);
                    }
                    assert forall|p: int| 0 <= p < j implies
                        #[trigger] self.index@.contains_key(ks[p]@) && self.index@[ks[p]@] == p by {
                        assert(index_prefix_ok(old_idx, ks, jj));
                        if p < jj {
                            assert(old_idx.contains_key(ks[p]@));
                            assert(ks[p]@ != ks[jj]@);
                        }
                    }
                    assert(index_prefix_ok(self.index@, ks, j as int));
                    assert(index_suffix_shifted(self.index@, ks, j as int));
                }
                assert(index_prefix_ok(self.index@, ks, j as int));
                assert(self.view() =~= old_self.view().remove(k@)) by {
                    assert forall|q: Seq<char>| self.index@.contains_key(q) implies old_self.index@.contains_key(q)
                        && q != k@ by {
                        let p = self.index@[q] as int;
                        assert(ks[p]@ == q);
                        assert(views(ks)[p] == q);
                    }
                    assert forall|q: Seq<char>| old_self.index@.contains_key(q) && q != k@ implies self.index@.contains_key(q)
                        && self.vals@[self.index@[q] as int] == old_self.vals@[old_self.index@[q] as int] by {
                        let p = old_self.index@[q] as int;
                        assert(old_self.keys@[p]@ == q);
                        assert(p != i);
                        let np = if p < i { p } else { p - 1 };
                        assert(views(ks)[np] == old_self.key_list()[p]);
                        assert(ks[np]@ == q);
                        assert(self.index@.contains_key(ks[np]@));
                        assert(self.vals@[np] == old_self.vals@[p]);
                    }
                }
            },
        }
    }

    /// The keys and values, in key-list order.
    pub fn into_entries(self) -> (r: (Vec<String>, Vec<V>))
        requires
            self.wf(),
        ensures
            views(r.0@) == self.key_list(),
            r.1@ == self.value_list(),
    {
        (self.keys, self.vals)
    }
}

} // verus!
