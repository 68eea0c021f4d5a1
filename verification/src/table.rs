//! An association table keyed by identifier text.
//!
//! The compiler's environments (defines, active argument bindings, the
//! function registry, the source-unit registry) are small maps from literal
//! text to values.  `Table` keeps entries in insertion order and is viewed
//! as a mathematical `Map` from the key's characters to the value's view.

use vstd::map::*;
use vstd::prelude::*;

verus! {

/// An association table from identifier text to values of type `V`.
pub struct Table<V> {
    keys: Vec<String>,
    vals: Vec<V>,
}

proof fn lemma_index_of_valid<A>(s: Seq<A>, q: A)
    requires
        s.contains(q),
    ensures
        0 <= s.index_of(q) < s.len(),
        s[s.index_of(q)] == q,
{
}

impl<V: View> View for Table<V> {
    type V = Map<Seq<char>, V::V>;

    closed spec fn view(&self) -> Map<Seq<char>, V::V> {
        Map::new(
            |k: Seq<char>| self.key_seq().contains(k),
            |k: Seq<char>| self.val_seq()[self.key_seq().index_of(k)],
        )
    }
}

impl<V: View> Table<V> {
    /// The key texts, in entry order.
    pub closed spec fn key_seq(&self) -> Seq<Seq<char>> {
        self.keys@.map_values(|k: String| k@)
    }

    /// The value views, in entry order.
    pub closed spec fn val_seq(&self) -> Seq<V::V> {
        self.vals@.map_values(|v: V| v@)
    }

    /// Well-formed: as many keys as values, and no key text repeated.
    pub closed spec fn wf(&self) -> bool {
        &&& self.keys@.len() == self.vals@.len()
        &&& forall|i: int, j: int|
            0 <= i < j < self.key_seq().len() ==> self.key_seq()[i] != self.key_seq()[j]
    }

    proof fn lemma_entry(&self, i: int)
        requires
            self.wf(),
            0 <= i < self.key_seq().len(),
        ensures
            self@.contains_key(self.key_seq()[i]),
            self@[self.key_seq()[i]] == self.val_seq()[i],
            self.key_seq().index_of(self.key_seq()[i]) == i,
    {
        let k = self.key_seq()[i];
        assert(self.key_seq().contains(k));
        lemma_index_of_valid(self.key_seq(), k);
        let j = self.key_seq().index_of(k);
        if j != i {
            assert(false);
        }
    }

    pub fn new() -> (r: Table<V>)
        ensures
            r.wf(),
            r@ == Map::<Seq<char>, V::V>::empty(),
    {
        let r = Table { keys: Vec::new(), vals: Vec::new() };
        proof {
            assert(r@ =~= Map::<Seq<char>, V::V>::empty());
        }
        r
    }

    /// The index of the entry whose key text equals `k`, if any.
    fn position(&self, k: &String) -> (r: Option<usize>)
        requires
            self.wf(),
        ensures
            match r {
                Some(i) => i < self.key_seq().len() && self.key_seq()[i as int] == k@
                    && self@.contains_key(k@),
                None => !self@.contains_key(k@),
            },
    {
        let n = self.keys.len();
        let mut i: usize = 0;
        while i < n
            invariant
                self.wf(),
                n == self.keys@.len(),
                0 <= i <= n,
                forall|j: int| 0 <= j < i ==> self.key_seq()[j] != k@,
            decreases n - i,
        {
            if self.keys[i] == *k {
                proof {
                    self.lemma_entry(i as int);
                }
                return Some(i);
            }
            i = i + 1;
        }
        proof {
            if self.key_seq().contains(k@) {
                lemma_index_of_valid(self.key_seq(), k@);
            }
            assert(!self@.contains_key(k@));
        }
        None
    }

    /// The value bound to key text `k`, if any.
    pub fn get(&self, k: &String) -> (r: Option<&V>)
        requires
            self.wf(),
        ensures
            match r {
                Some(v) => self@.contains_key(k@) && v@ == self@[k@],
                None => !self@.contains_key(k@),
            },
    {
        match self.position(k) {
            Some(i) => {
                proof {
                    self.lemma_entry(i as int);
                }
                Some(&self.vals[i])
            },
            None => None,
        }
    }

    /// Binds `k` to `v`, replacing any existing binding of the same text.
    pub fn insert(&mut self, k: String, v: V)
        requires
            old(self).wf(),
        ensures
            final(self).wf(),
            final(self)@ == old(self)@.insert(k@, v@),
    {
        let ghost m0 = self@;
        match self.position(&k) {
            Some(i) => {
                self.vals.push(v);
                let _prior = self.vals.swap_remove(i);
                proof {
                    assert(self.val_seq() =~= old(self).val_seq().update(i as int, v@));
                    assert(self.key_seq() =~= old(self).key_seq());
                    assert forall|q: Seq<char>| true implies {
                        &&& self@.contains_key(q) == m0.insert(k@, v@).contains_key(q)
                        &&& (self@.contains_key(q) ==> self@[q] == m0.insert(k@, v@)[q])
                    } by {
                        if self.key_seq().contains(q) {
                            lemma_index_of_valid(self.key_seq(), q);
                            let j = self.key_seq().index_of(q);
                            old(self).lemma_entry(j);
                            self.lemma_entry(j);
                        }
                    }
                    assert(self@ =~= m0.insert(k@, v@));
                }
            },
            None => {
                self.keys.push(k);
                self.vals.push(v);
                proof {
                    assert(self.key_seq() =~= old(self).key_seq().push(k@));
                    assert(self.val_seq() =~= old(self).val_seq().push(v@));
                    let n = old(self).key_seq().len();
                    assert forall|i: int, j: int|
                        0 <= i < j < self.key_seq().len() implies self.key_seq()[i]
                        != self.key_seq()[j] by {
                        if j == n {
                            assert(self.key_seq()[i] == old(self).key_seq()[i]);
                            if old(self).key_seq().contains(k@) {
                                lemma_index_of_valid(old(self).key_seq(), k@);
                            }
                        }
                    }
                    assert_maps_equal!(self@, m0.insert(k@, v@), q => {
                        if self.key_seq().contains(q) {
                            lemma_index_of_valid(self.key_seq(), q);
                            let j = self.key_seq().index_of(q);
                            self.lemma_entry(j);
                            if j < n {
                                old(self).lemma_entry(j);
                            }
                        } else {
                            if m0.contains_key(q) {
                                lemma_index_of_valid(old(self).key_seq(), q);
                                let j = old(self).key_seq().index_of(q);
                                assert(self.key_seq()[j] == q);
                            }
                            assert(q != k@) by {
                                assert(self.key_seq()[n as int] == k@);
                            }
                        }
                    });
                }
            },
        }
    }

    /// Removes the binding of key text `k`, if there is one.
    pub fn remove(&mut self, k: &String)
        requires
            old(self).wf(),
        ensures
            final(self).wf(),
            final(self)@ == old(self)@.remove(k@),
    {
        let ghost m0 = self@;
        match self.position(k) {
            Some(i) => {
                self.keys.remove(i);
                self.vals.remove(i);
                proof {
                    assert(self.key_seq() =~= old(self).key_seq().remove(i as int));
                    assert(self.val_seq() =~= old(self).val_seq().remove(i as int));
                    let n = self.key_seq().len();
                    assert forall|a: int| 0 <= a < n implies {
                        &&& self.key_seq()[a] == old(self).key_seq()[
                            if a < i as int {
                                a
                            } else {
                                a + 1
                            }
                        ]
                        &&& self.val_seq()[a] == old(self).val_seq()[
                            if a < i as int {
                                a
                            } else {
                                a + 1
                            }
                        ]
                    } by {}
                    assert forall|a: int, b: int|
                        0 <= a < b < n implies self.key_seq()[a] != self.key_seq()[b] by {}
                    assert_maps_equal!(self@, m0.remove(k@), q => {
                        if self.key_seq().contains(q) {
                            lemma_index_of_valid(self.key_seq(), q);
                            let j = self.key_seq().index_of(q);
                            self.lemma_entry(j);
                            let jo: int = if j < i as int {
                                j
                            } else {
                                j + 1
                            };
                            old(self).lemma_entry(jo);
                            assert(q != k@) by {
                                old(self).lemma_entry(i as int);
                            }
                        } else {
                            if m0.remove(k@).contains_key(q) {
                                lemma_index_of_valid(old(self).key_seq(), q);
                                let jo = old(self).key_seq().index_of(q);
                                assert(jo != i as int);
                                let j: int = if jo < i as int {
                                    jo
                                } else {
                                    jo - 1
                                };
                                assert(self.key_seq()[j] == q);
                            }
                        }
                    });
                }
            },
            None => {
                proof {
                    assert(self@ =~= m0.remove(k@));
                }
            },
        }
    }
}

} // verus!
