//! The map from variable names to the term text last assigned to them.
use vstd::prelude::*;

verus! {

/// An environment binding variable names to term texts.
///
/// Keys are unique among the entries; the abstract view is a finite map.
pub struct Bindings {
    entries: Vec<(String, String)>,
}

impl Bindings {
    /// No key occurs twice among the entries.
    pub closed spec fn wf(&self) -> bool {
        forall|i: int, j: int|
            0 <= i < self.entries@.len() && 0 <= j < self.entries@.len() && i != j
                ==> #[trigger] self.entries@[i].0@ != #[trigger] self.entries@[j].0@
    }

    closed spec fn has_key_at(&self, k: Seq<char>, i: int) -> bool {
        0 <= i < self.entries@.len() && self.entries@[i].0@ == k
    }

    /// The bound names and their term texts.
    pub closed spec fn view(&self) -> Map<Seq<char>, Seq<char>> {
        Map::new(
            |k: Seq<char>| exists|i: int| self.has_key_at(k, i),
            |k: Seq<char>| self.entries@[choose|i: int| self.has_key_at(k, i)].1@,
        )
    }

    proof fn lemma_view_at(&self, i: int)
        requires
            self.wf(),
            0 <= i < self.entries@.len(),
        ensures
            self.view().contains_key(self.entries@[i].0@),
            self.view()[self.entries@[i].0@] == self.entries@[i].1@,
    {
        let k = self.entries@[i].0@;
        assert(self.has_key_at(k, i));
        let j = choose|j: int| self.has_key_at(k, j);
        assert(self.has_key_at(k, j));
        if j != i {
            assert(self.entries@[i].0@ != self.entries@[j].0@);
        }
    }

    /// An environment with no binding.
    pub fn new() -> (b: Bindings)
        ensures
            b.wf(),
            b.view() == Map::<Seq<char>, Seq<char>>::empty(),
    {
        let b = Bindings { entries: Vec::new() };
        assert(b.view() =~= Map::<Seq<char>, Seq<char>>::empty());
        b
    }

    fn find(&self, key: &String) -> (r: Option<usize>)
        requires
            self.wf(),
        ensures
            match r {
                Some(i) => i < self.entries@.len() && self.entries@[i as int].0@ == key@,
                None => !self.view().contains_key(key@),
            },
    {
        let mut i: usize = 0;
        while i < self.entries.len()
            invariant
                i <= self.entries@.len(),
                forall|j: int| 0 <= j < i ==> self.entries@[j].0@ != key@,
            decreases self.entries@.len() - i,
        {
            if self.entries[i].0 == *key {
                return Some(i);
            }
            i = i + 1;
        }
        None
    }

    /// The term text bound to `key`, if any.
    pub fn get(&self, key: &String) -> (r: Option<String>)
        requires
            self.wf(),
        ensures
            match r {
                Some(v) => self.view().contains_key(key@) && v@ == self.view()[key@],
                None => !self.view().contains_key(key@),
            },
    {
        match self.find(key) {
            Some(i) => {
                proof {
                    self.lemma_view_at(i as int);
                }
                Some(self.entries[i].1.clone())
            },
            None => None,
        }
    }

    /// Binds `key` to `value`, replacing an earlier binding of `key`.
    pub fn insert(&mut self, key: String, value: String)
        requires
            old(self).wf(),
        ensures
            final(self).wf(),
            final(self).view() == old(self).view().insert(key@, value@),
    {
        let ghost old_self = *self;
        let ghost k = key@;
        let ghost v = value@;
        match self.find(&key) {
            Some(i) => {
                self.entries.set(i, (key, value));
                assert(self.wf()) by {
                    assert forall|a: int, b: int|
                        0 <= a < self.entries@.len() && 0 <= b < self.entries@.len() && a != b
                            implies #[trigger] self.entries@[a].0@ != #[trigger] self.entries@[b].0@ by {
                        assert(old_self.entries@[a].0@ != old_self.entries@[b].0@ || a == b);
                    }
                }
                assert forall|q: Seq<char>| #[trigger]
                    self.view().contains_key(q) == old_self.view().insert(k, v).contains_key(q) by {
                    if q == k {
                        assert(self.has_key_at(q, i as int));
                    } else if self.view().contains_key(q) {
                        let j = choose|j: int| self.has_key_at(q, j);
                        assert(old_self.has_key_at(q, j));
                    } else if old_self.view().contains_key(q) {
                        let j = choose|j: int| old_self.has_key_at(q, j);
                        assert(self.has_key_at(q, j));
                    }
                }
                assert forall|q: Seq<char>| #[trigger] self.view().contains_key(q) implies self.view()[q]
                    == old_self.view().insert(k, v)[q] by {
                    let j = choose|j: int| self.has_key_at(q, j);
                    self.lemma_view_at(j);
                    if q != k {
                        old_self.lemma_view_at(j);
                    }
                }
                assert(self.view() =~= old_self.view().insert(k, v));
            },
            None => {
                self.entries.push((key, value));
                let ghost n = old_self.entries@.len() as int;
                assert(self.wf()) by {
                    assert forall|a: int, b: int|
                        0 <= a < self.entries@.len() && 0 <= b < self.entries@.len() && a != b
                            implies #[trigger] self.entries@[a].0@ != #[trigger] self.entries@[b].0@ by {
                        if a == n {
                            assert(!old_self.has_key_at(k, b));
                        } else if b == n {
                            assert(!old_self.has_key_at(k, a));
                        } else {
                            assert(old_self.entries@[a].0@ != old_self.entries@[b].0@);
                        }
                    }
                }
                assert forall|q: Seq<char>| #[trigger]
                    self.view().contains_key(q) == old_self.view().insert(k, v).contains_key(q) by {
                    if q == k {
                        assert(self.has_key_at(q, n));
                    } else if self.view().contains_key(q) {
                        let j = choose|j: int| self.has_key_at(q, j);
                        assert(old_self.has_key_at(q, j));
                    } else if old_self.view().contains_key(q) {
                        let j = choose|j: int| old_self.has_key_at(q, j);
                        assert(self.has_key_at(q, j));
                    }
                }
                assert forall|q: Seq<char>| #[trigger] self.view().contains_key(q) implies self.view()[q]
                    == old_self.view().insert(k, v)[q] by {
                    let j = choose|j: int| self.has_key_at(q, j);
                    self.lemma_view_at(j);
                    if q != k {
                        old_self.lemma_view_at(j);
                    }
                }
                assert(self.view() =~= old_self.view().insert(k, v));
            },
        }
    }

    /// Drops the binding of `key`, if any.
    pub fn remove(&mut self, key: &String)
        requires
            old(self).wf(),
        ensures
            final(self).wf(),
            final(self).view() == old(self).view().remove(key@),
    {
        let ghost old_self = *self;
        let ghost k = key@;
        match self.find(key) {
            Some(i) => {
                let _ = self.entries.remove(i);
                let ghost m = i as int;
                // Index `j` of the new entries came from index `src(j)` of the old ones.
                assert forall|j: int| 0 <= j < self.entries@.len() implies #[trigger] self.entries@[j]
                    == old_self.entries@[if j < m {
                    j
                } else {
                    j + 1
                }] by {}
                assert(self.wf()) by {
                    assert forall|a: int, b: int|
                        0 <= a < self.entries@.len() && 0 <= b < self.entries@.len() && a != b
                            implies #[trigger] self.entries@[a].0@ != #[trigger] self.entries@[b].0@ by {
                        let sa = if a < m {
                            a
                        } else {
                            a + 1
                        };
                        let sb = if b < m {
                            b
                        } else {
                            b + 1
                        };
                        assert(self.entries@[a] == old_self.entries@[sa]);
                        assert(self.entries@[b] == old_self.entries@[sb]);
                        assert(old_self.entries@[sa].0@ != old_self.entries@[sb].0@);
                    }
                }
                assert forall|q: Seq<char>| #[trigger]
                    self.view().contains_key(q) == old_self.view().remove(k).contains_key(q) by {
                    if self.view().contains_key(q) {
                        let j = choose|j: int| self.has_key_at(q, j);
                        let sj = if j < m {
                            j
                        } else {
                            j + 1
                        };
                        assert(self.entries@[j] == old_self.entries@[sj]);
                        assert(old_self.has_key_at(q, sj));
                        assert(old_self.entries@[sj].0@ != old_self.entries@[m].0@);
                    } else if old_self.view().contains_key(q) && q != k {
                        let j = choose|j: int| old_self.has_key_at(q, j);
                        assert(j != m);
                        let tj = if j < m {
                            j
                        } else {
                            j - 1
                        };
                        assert(self.entries@[tj] == old_self.entries@[j]);
                        assert(self.has_key_at(q, tj));
                    }
                }
                assert forall|q: Seq<char>| #[trigger] self.view().contains_key(q) implies self.view()[q]
                    == old_self.view().remove(k)[q] by {
                    let j = choose|j: int| self.has_key_at(q, j);
                    self.lemma_view_at(j);
                    let sj = if j < m {
                        j
                    } else {
                        j + 1
                    };
                    assert(self.entries@[j] == old_self.entries@[sj]);
                    old_self.lemma_view_at(sj);
                }
                assert(self.view() =~= old_self.view().remove(k));
            },
            None => {
                assert(self.view() =~= old_self.view().remove(k));
            },
        }
    }

    /// Drops every binding.
    pub fn clear(&mut self)
        requires
            old(self).wf(),
        ensures
            final(self).wf(),
            final(self).view() == Map::<Seq<char>, Seq<char>>::empty(),
    {
        self.entries.clear();
        assert(self.view() =~= Map::<Seq<char>, Seq<char>>::empty());
    }

    /// Drops the binding of each of `keys`.
    pub fn remove_all(&mut self, keys: &Vec<String>)
        requires
            old(self).wf(),
        ensures
            final(self).wf(),
            final(self).view() == old(self).view().remove_keys(names(keys@).to_set()),
    {
        let ghost start = self.view();
        let mut i: usize = 0;
        while i < keys.len()
            invariant
                i <= keys@.len(),
                self.wf(),
                self.view() == start.remove_keys(names(keys@.take(i as int)).to_set()),
            decreases keys@.len() - i,
        {
            self.remove(&keys[i]);
            assert(names(keys@.take(i + 1)) =~= names(keys@.take(i as int)).push(keys@[i as int]@));
            let ghost prev = names(keys@.take(i as int));
            let ghost k = keys@[i as int]@;
            assert(prev.push(k).to_set() =~= prev.to_set().insert(k)) by {
                assert forall|x: Seq<char>| prev.push(k).to_set().contains(x) implies prev.to_set().insert(k).contains(x) by {
                    let j = choose|j: int| 0 <= j < prev.push(k).len() && prev.push(k)[j] == x;
                    if j < prev.len() {
                        assert(prev[j] == x);
                    }
                }
                assert forall|x: Seq<char>| prev.to_set().insert(k).contains(x) implies prev.push(k).to_set().contains(x) by {
                    if x == k {
                        assert(prev.push(k)[prev.len() as int] == x);
                    } else {
                        let j = choose|j: int| 0 <= j < prev.len() && prev[j] == x;
                        assert(prev.push(k)[j] == x);
                    }
                }
            }
            assert(self.view() =~= start.remove_keys(names(keys@.take(i + 1)).to_set()));
            i = i + 1;
        }
        assert(keys@.take(keys@.len() as int) =~= keys@);
    }
}

/// The texts of a list of strings.
pub open spec fn names(v: Seq<String>) -> Seq<Seq<char>> {
    v.map_values(|s: String| s@)
}

} // verus!
