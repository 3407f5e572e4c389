//! Values kept under names, in the order in which the names first came.
use vstd::prelude::*;
use vstd::string::*;

use crate::text::same;

verus! {

/// Values of which each stands under a name of its own.
pub struct NameMap<V> {
    entries: Vec<(String, V)>,
}

/// Whether `name` stands at position `i`.
pub open spec fn stands_at<V>(entries: Seq<(String, V)>, name: Seq<char>, i: int) -> bool {
    0 <= i < entries.len() && entries[i].0@ == name
}

/// Names without one of them; the others keep their order.
pub open spec fn unlisted(names: Seq<Seq<char>>, name: Seq<char>) -> Seq<Seq<char>> {
    if names.contains(name) {
        names.remove(names.index_of(name))
    } else {
        names
    }
}

/// Whether names are those of a map, each once.
pub open spec fn lists_keys<V>(names: Seq<Seq<char>>, m: Map<Seq<char>, V>) -> bool {
    &&& names.no_duplicates()
    &&& names.to_set() == m.dom()
    &&& m.dom().finite()
    &&& names.len() == m.dom().len()
}

impl<V> NameMap<V> {
    /// The names and values in their order.
    pub closed spec fn list(&self) -> Seq<(String, V)> {
        self.entries@
    }

    /// No name stands twice.
    pub open spec fn wf(&self) -> bool {
        forall|i: int, j: int|
            0 <= i < j < self.list().len() ==> (#[trigger] self.list()[i]).0@ != (
            #[trigger] self.list()[j]).0@
    }

    /// The names in their order.
    pub open spec fn names(&self) -> Seq<Seq<char>> {
        Seq::new(self.list().len(), |i: int| self.list()[i].0@)
    }
}

impl<V> View for NameMap<V> {
    type V = Map<Seq<char>, V>;

    open spec fn view(&self) -> Map<Seq<char>, V> {
        Map::new(
            |name: Seq<char>| exists|i: int| stands_at(self.list(), name, i),
            |name: Seq<char>| self.list()[choose|i: int| stands_at(self.list(), name, i)].1,
        )
    }
}

impl<V> NameMap<V> {
    /// The list holds every name of the map once, and no other.
    pub proof fn lemma_names(&self)
        requires
            self.wf(),
        ensures
            lists_keys(self.names(), self@),
    {
        let names = self.names();
        assert forall|i: int, j: int|
            0 <= i < names.len() && 0 <= j < names.len() && i != j implies names[i] != names[j] by {
            if i < j {
                assert(self.list()[i].0@ != self.list()[j].0@);
            } else {
                assert(self.list()[j].0@ != self.list()[i].0@);
            }
        }
        assert forall|name: Seq<char>| #[trigger]
            names.to_set().contains(name) == self@.dom().contains(name) by {
            if names.contains(name) {
                let i = names.index_of(name);
                assert(stands_at(self.list(), name, i));
            }
            if self@.dom().contains(name) {
                let i = choose|i: int| stands_at(self.list(), name, i);
                assert(names[i] == name);
            }
        }
        assert(names.to_set() =~= self@.dom());
        names.unique_seq_to_set();
    }

    /// What the map holds at a name is what stands there in the list.
    pub proof fn lemma_at(&self, i: int)
        requires
            self.wf(),
            0 <= i < self.list().len(),
        ensures
            self@.dom().contains(self.list()[i].0@),
            self@[self.list()[i].0@] == self.list()[i].1,
    {
        let name = self.list()[i].0@;
        assert(stands_at(self.list(), name, i));
        let k = choose|k: int| stands_at(self.list(), name, k);
        assert(stands_at(self.list(), name, k));
        assert(k == i);
    }

    /// A map without entries.
    pub fn new() -> (r: NameMap<V>)
        ensures
            r.wf(),
            r.list() == Seq::<(String, V)>::empty(),
            r@ == Map::<Seq<char>, V>::empty(),
    {
        let r = NameMap { entries: Vec::new() };
        assert(r@ =~= Map::<Seq<char>, V>::empty());
        r
    }

    /// How many names there are.
    pub fn len(&self) -> (r: usize)
        ensures
            r == self.list().len(),
    {
        self.entries.len()
    }

    /// The name and the value at a position.
    pub fn at(&self, i: usize) -> (r: &(String, V))
        requires
            i < self.list().len(),
        ensures
            *r == self.list()[i as int],
    {
        &self.entries[i]
    }

    /// Where a name stands; the number of names where it does not.
    fn find(&self, name: &str) -> (r: usize)
        ensures
            r <= self.list().len(),
            r < self.list().len() ==> self.list()[r as int].0@ == name@,
            r == self.list().len() ==> !self@.dom().contains(name@),
    {
        let n: usize = self.entries.len();
        let mut i: usize = 0;
        while i < n
            invariant
                i <= n,
                n == self.list().len(),
                forall|j: int| 0 <= j < i ==> (#[trigger] self.list()[j]).0@ != name@,
            decreases n - i,
        {
            if same(self.entries[i].0.as_str(), name) {
                return i;
            }
            i += 1;
        }
        i
    }

    pub fn contains(&self, name: &str) -> (r: bool)
        requires
            self.wf(),
        ensures
            r == self@.dom().contains(name@),
    {
        let i = self.find(name);
        proof {
            if i < self.list().len() {
                self.lemma_at(i as int);
            }
        }
        i < self.entries.len()
    }

    pub fn get(&self, name: &str) -> (r: Option<&V>)
        requires
            self.wf(),
        ensures
            match r {
                Some(v) => self@.dom().contains(name@) && *v == self@[name@],
                None => !self@.dom().contains(name@),
            },
    {
        let i = self.find(name);
        if i < self.entries.len() {
            proof {
                self.lemma_at(i as int);
            }
            Some(&self.entries[i].1)
        } else {
            None
        }
    }

    /// Puts a value under a name, in place of what stood there. A new name comes
    /// last.
    pub fn insert(&mut self, name: String, value: V)
        requires
            old(self).wf(),
        ensures
            final(self).wf(),
            final(self)@ == old(self)@.insert(name@, value),
            old(self)@.dom().contains(name@) ==> final(self).names() == old(self).names(),
            !old(self)@.dom().contains(name@) ==> final(self).names() == old(self).names().push(
                name@,
            ),
    {
        let i = self.find(name.as_str());
        let ghost before = *self;
        let ghost key = name@;
        if i < self.entries.len() {
            proof {
                before.lemma_at(i as int);
            }
            self.entries.set(i, (name, value));
            assert forall|j: int| 0 <= j < self.list().len() implies (#[trigger] self.list()[j]).0@
                == before.list()[j].0@ by {}
            assert(self.wf());
            assert(self.names() =~= before.names());
        } else {
            self.entries.push((name, value));
            assert forall|j: int| 0 <= j < before.list().len() implies (
            #[trigger] before.list()[j]).0@ != key by {
                before.lemma_at(j);
            }
            assert(self.wf());
            assert(self.names() =~= before.names().push(key));
        }
        proof {
            let at = i as int;
            assert(stands_at(self.list(), key, at));
            assert forall|k: Seq<char>| #[trigger]
                self@.dom().contains(k) == before@.insert(key, value).dom().contains(k) by {
                if k != key {
                    if before@.dom().contains(k) {
                        let j = choose|j: int| stands_at(before.list(), k, j);
                        assert(stands_at(self.list(), k, j));
                    }
                    if self@.dom().contains(k) {
                        let j = choose|j: int| stands_at(self.list(), k, j);
                        assert(stands_at(before.list(), k, j));
                    }
                }
            }
            assert forall|k: Seq<char>| #[trigger] self@.dom().contains(k) implies self@[k]
                == before@.insert(key, value)[k] by {
                let j = choose|j: int| stands_at(self.list(), k, j);
                self.lemma_at(j);
                if k != key {
                    assert(j != at);
                    before.lemma_at(j);
                }
            }
            assert(self@ =~= before@.insert(key, value));
        }
    }

    /// Takes a name out; tells whether it was there.
    pub fn remove(&mut self, name: &str) -> (r: Option<V>)
        requires
            old(self).wf(),
        ensures
            final(self).wf(),
            final(self)@ == old(self)@.remove(name@),
            final(self).names() == unlisted(old(self).names(), name@),
            match r {
                Some(v) => old(self)@.dom().contains(name@) && v == old(self)@[name@],
                None => !old(self)@.dom().contains(name@) && final(self).list() == old(
                    self,
                ).list(),
            },
    {
        let i = self.find(name);
        let ghost before = *self;
        if i < self.entries.len() {
            proof {
                before.lemma_at(i as int);
            }
            let (_, v) = self.entries.remove(i);
            proof {
                let at = i as int;
                assert forall|j: int, k: int| 0 <= j < k < self.list().len() implies (
                #[trigger] self.list()[j]).0@ != (#[trigger] self.list()[k]).0@ by {
                    let j2 = if j < at { j } else { j + 1 };
                    let k2 = if k < at { k } else { k + 1 };
                    assert(self.list()[j] == before.list()[j2]);
                    assert(self.list()[k] == before.list()[k2]);
                }
                assert forall|k: Seq<char>| #[trigger]
                    self@.dom().contains(k) == before@.remove(name@).dom().contains(k) by {
                    if before@.dom().contains(k) && k != name@ {
                        let j = choose|j: int| stands_at(before.list(), k, j);
                        assert(stands_at(self.list(), k, if j < at { j } else { j - 1 }));
                    }
                    if self@.dom().contains(k) {
                        let j = choose|j: int| stands_at(self.list(), k, j);
                        let j2 = if j < at { j } else { j + 1 };
                        assert(self.list()[j] == before.list()[j2]);
                        assert(stands_at(before.list(), k, j2));
                        assert(before.list()[j2].0@ != before.list()[at].0@);
                    }
                }
                assert forall|k: Seq<char>| #[trigger] self@.dom().contains(k) implies self@[k]
                    == before@.remove(name@)[k] by {
                    let j = choose|j: int| stands_at(self.list(), k, j);
                    let j2 = if j < at { j } else { j + 1 };
                    self.lemma_at(j);
                    assert(self.list()[j] == before.list()[j2]);
                    before.lemma_at(j2);
                }
                assert(self@ =~= before@.remove(name@));
                let names = before.names();
                assert(names[at] == name@);
                assert(names.contains(name@));
                let first = names.index_of(name@);
                assert(names[first] == name@);
                assert(before.list()[first].0@ == before.list()[at].0@);
                assert(first == at);
                assert(self.names() =~= names.remove(at));
            }
            Some(v)
        } else {
            proof {
                if before.names().contains(name@) {
                    let j = before.names().index_of(name@);
                    assert(stands_at(before.list(), name@, j));
                }
                assert(self.names() =~= before.names());
            }
            assert(self@ =~= before@.remove(name@));
            None
        }
    }

    pub fn clear(&mut self)
        ensures
            final(self).wf(),
            final(self).list() == Seq::<(String, V)>::empty(),
            final(self)@ == Map::<Seq<char>, V>::empty(),
    {
        self.entries.clear();
        assert(self@ =~= Map::<Seq<char>, V>::empty());
    }
}

} // verus!
