//! The per-run catalog: a mapping from wallpaper filename to its full path,
//! built fresh on every run from the directory scan and discarded afterwards.

use vstd::prelude::*;

verus! {

/// A filename-to-path table with unique filenames. Its mathematical view is
/// the map [`Catalog::as_map`]; inserting an existing filename replaces the
/// stored path (last wins).
pub struct Catalog {
    names: Vec<String>,
    paths: Vec<String>,
}

impl Catalog {
    /// Well-formed: one path per name, and no filename occurs twice.
    pub closed spec fn wf(self) -> bool {
        &&& self.names@.len() == self.paths@.len()
        &&& forall|i: int, j: int|
            0 <= i < j < self.names@.len() ==> self.names@[i]@ != self.names@[j]@
    }

    /// Whether some stored filename reads as `k`.
    pub closed spec fn contains_name(self, k: Seq<char>) -> bool {
        exists|i: int| 0 <= i < self.names@.len() && self.names@[i]@ == k
    }

    /// The path stored under filename `k` (meaningful only when present).
    pub closed spec fn lookup(self, k: Seq<char>) -> Seq<char> {
        self.paths@[choose|i: int| 0 <= i < self.names@.len() && self.names@[i]@ == k]@
    }

    /// The catalog as a mathematical map from filename to full path.
    pub open spec fn as_map(self) -> Map<Seq<char>, Seq<char>> {
        Map::new(|k: Seq<char>| self.contains_name(k), |k: Seq<char>| self.lookup(k))
    }

    /// The stored filenames, in storage order.
    pub closed spec fn spec_names(self) -> Seq<Seq<char>> {
        self.names@.map_values(|s: String| s@)
    }

    /// In a well-formed catalog, the entry at index `i` is what lookup of its
    /// name returns.
    proof fn lemma_lookup_at(self, i: int)
        requires
            self.wf(),
            0 <= i < self.names@.len(),
        ensures
            self.contains_name(self.names@[i]@),
            self.lookup(self.names@[i]@) == self.paths@[i]@,
    {
        let k = self.names@[i]@;
        assert(self.contains_name(k));
        let w = choose|j: int| 0 <= j < self.names@.len() && self.names@[j]@ == k;
        assert(self.names@[w]@ == k);
        if w < i {
            assert(self.names@[w]@ != self.names@[i]@);
        } else if i < w {
            assert(self.names@[i]@ != self.names@[w]@);
        }
    }

    pub fn new() -> (c: Catalog)
        ensures
            c.wf(),
            c.as_map() == Map::<Seq<char>, Seq<char>>::empty(),
    {
        let c = Catalog { names: Vec::new(), paths: Vec::new() };
        proof {
            assert(c.as_map() =~= Map::<Seq<char>, Seq<char>>::empty());
        }
        c
    }

    pub fn is_empty(&self) -> (r: bool)
        requires
            self.wf(),
        ensures
            r <==> self.as_map() == Map::<Seq<char>, Seq<char>>::empty(),
    {
        let r = self.names.len() == 0;
        proof {
            if self.names@.len() == 0 {
                assert(self.as_map() =~= Map::<Seq<char>, Seq<char>>::empty());
            } else {
                let k = self.names@[0]@;
                assert(self.contains_name(k));
                assert(self.as_map().dom().contains(k));
                assert(!Map::<Seq<char>, Seq<char>>::empty().dom().contains(k));
            }
        }
        r
    }

    /// The index at which `name` is stored, if it is.
    fn find_index(&self, name: &String) -> (r: Option<usize>)
        requires
            self.wf(),
        ensures
            match r {
                Some(i) => 0 <= i < self.names@.len() && self.names@[i as int]@ == name@,
                None => !self.contains_name(name@),
            },
    {
        let n = self.names.len();
        let mut i: usize = 0;
        while i < n
            invariant
                0 <= i <= n,
                n == self.names@.len(),
                forall|j: int| 0 <= j < i ==> self.names@[j]@ != name@,
            decreases n - i,
        {
            if self.names[i] == *name {
                return Some(i);
            }
            i = i + 1;
        }
        None
    }

    /// Stores `path` under `name`, replacing any path already stored under
    /// the same filename.
    pub fn insert(&mut self, name: String, path: String)
        requires
            old(self).wf(),
        ensures
            final(self).wf(),
            final(self).as_map() == old(self).as_map().insert(name@, path@),
    {
        let found = self.find_index(&name);
        if let Some(i) = found {
            proof {
                self.names@.remove_ensures(i as int);
                self.paths@.remove_ensures(i as int);
            }
            self.names.remove(i);
            self.paths.remove(i);
        }
        self.names.push(name);
        self.paths.push(path);
        proof {
            self.lemma_insert_view(*old(self), found, name@, path@);
        }
    }

    /// After removing any previous occurrence of `k` and pushing `(k, v)`,
    /// the map view is the old view with `k` bound to `v`.
    proof fn lemma_insert_view(
        self,
        prev: Catalog,
        found: Option<usize>,
        k: Seq<char>,
        v: Seq<char>,
    )
        requires
            prev.wf(),
            match found {
                Some(i) => {
                    &&& 0 <= i < prev.names@.len()
                    &&& prev.names@[i as int]@ == k
                    &&& self.names@ == prev.names@.remove(i as int).push(
                        self.names@.last(),
                    )
                    &&& self.paths@ == prev.paths@.remove(i as int).push(self.paths@.last())
                },
                None => {
                    &&& !prev.contains_name(k)
                    &&& self.names@ == prev.names@.push(self.names@.last())
                    &&& self.paths@ == prev.paths@.push(self.paths@.last())
                },
            },
            self.names@.len() > 0,
            self.names@.last()@ == k,
            self.paths@.last()@ == v,
        ensures
            self.wf(),
            self.as_map() == prev.as_map().insert(k, v),
    {
        let n = self.names@.len();
        match found {
            Some(i) => {
                prev.names@.remove_ensures(i as int);
                prev.paths@.remove_ensures(i as int);
                assert forall|p: int, q: int|
                    0 <= p < q < n implies self.names@[p]@ != self.names@[q]@ by {
                    if q < n - 1 {
                        // both land in the removed-prefix of prev
                    } else {
                        // q is the new entry with view k; p maps into prev minus
                        // the removed slot, whose view there differs from k
                        if p < i {
                            assert(self.names@[p] == prev.names@[p]);
                            assert(prev.names@[p]@ != prev.names@[i as int]@);
                        } else {
                            assert(self.names@[p] == prev.names@[p + 1]);
                            assert(prev.names@[i as int]@ != prev.names@[p + 1]@);
                        }
                    }
                }
            },
            None => {
                assert forall|p: int, q: int|
                    0 <= p < q < n implies self.names@[p]@ != self.names@[q]@ by {
                    if q == n - 1 {
                        assert(self.names@[p] == prev.names@[p]);
                        assert(prev.contains_name(prev.names@[p]@) == prev.contains_name(k)
                            || prev.names@[p]@ != k) by {
                            if prev.names@[p]@ == k {
                                assert(prev.contains_name(k));
                            }
                        }
                    }
                }
            },
        }
        assert(self.wf());
        assert forall|m: Seq<char>| #[trigger]
            self.as_map().dom().contains(m) <==> prev.as_map().insert(k, v).dom().contains(
            m,
        ) by {
            self.lemma_dom_entry(prev, found, k, m);
        }
        assert forall|m: Seq<char>| self.as_map().dom().contains(m) implies #[trigger] self.as_map()[m]
            == prev.as_map().insert(k, v)[m] by {
            self.lemma_val_entry(prev, found, k, v, m);
        }
        assert(self.as_map() =~= prev.as_map().insert(k, v));
    }

    /// Membership in the rebuilt catalog agrees with membership in the old
    /// one extended with `k`.
    proof fn lemma_dom_entry(self, prev: Catalog, found: Option<usize>, k: Seq<char>, m: Seq<char>)
        requires
            prev.wf(),
            self.wf(),
            match found {
                Some(i) => {
                    &&& 0 <= i < prev.names@.len()
                    &&& prev.names@[i as int]@ == k
                    &&& self.names@ == prev.names@.remove(i as int).push(self.names@.last())
                },
                None => {
                    &&& !prev.contains_name(k)
                    &&& self.names@ == prev.names@.push(self.names@.last())
                },
            },
            self.names@.len() > 0,
            self.names@.last()@ == k,
        ensures
            self.contains_name(m) <==> (m == k || prev.contains_name(m)),
    {
        let n = self.names@.len();
        if let Some(iu) = found {
            let i = iu as int;
            prev.names@.remove_ensures(i);
            if self.contains_name(m) {
                let w = choose|j: int| 0 <= j < n && self.names@[j]@ == m;
                if w == n - 1 {
                    assert(m == k);
                } else if w < i {
                    assert(self.names@[w] == prev.names@[w]);
                    assert(prev.contains_name(m));
                } else {
                    assert(self.names@[w] == prev.names@[w + 1]);
                    assert(prev.contains_name(m));
                }
            }
            if m == k {
                assert(self.names@[n - 1]@ == m);
                assert(self.contains_name(m));
            } else if prev.contains_name(m) {
                let w = choose|j: int| 0 <= j < prev.names@.len() && prev.names@[j]@ == m;
                assert(w != i);
                if w < i {
                    assert(self.names@[w] == prev.names@[w]);
                } else {
                    assert(self.names@[w - 1] == prev.names@[w]);
                }
                assert(self.contains_name(m));
            }
        } else {
            if self.contains_name(m) {
                let w = choose|j: int| 0 <= j < n && self.names@[j]@ == m;
                if w == n - 1 {
                    assert(m == k);
                } else {
                    assert(self.names@[w] == prev.names@[w]);
                    assert(prev.contains_name(m));
                }
            }
            if m == k {
                assert(self.names@[n - 1]@ == m);
                assert(self.contains_name(m));
            } else if prev.contains_name(m) {
                let w = choose|j: int| 0 <= j < prev.names@.len() && prev.names@[j]@ == m;
                assert(self.names@[w] == prev.names@[w]);
                assert(self.contains_name(m));
            }
        }
    }

    /// The value stored in the rebuilt catalog agrees with the old one
    /// extended with `k -> v`.
    proof fn lemma_val_entry(
        self,
        prev: Catalog,
        found: Option<usize>,
        k: Seq<char>,
        v: Seq<char>,
        m: Seq<char>,
    )
        requires
            prev.wf(),
            self.wf(),
            match found {
                Some(i) => {
                    &&& 0 <= i < prev.names@.len()
                    &&& prev.names@[i as int]@ == k
                    &&& self.names@ == prev.names@.remove(i as int).push(self.names@.last())
                    &&& self.paths@ == prev.paths@.remove(i as int).push(self.paths@.last())
                },
                None => {
                    &&& !prev.contains_name(k)
                    &&& self.names@ == prev.names@.push(self.names@.last())
                    &&& self.paths@ == prev.paths@.push(self.paths@.last())
                },
            },
            self.names@.len() > 0,
            self.names@.last()@ == k,
            self.paths@.last()@ == v,
            self.contains_name(m),
        ensures
            m == k ==> self.lookup(m) == v,
            m != k ==> prev.contains_name(m) && self.lookup(m) == prev.lookup(m),
    {
        let n = self.names@.len();
        if m == k {
            self.lemma_lookup_at(n - 1);
        } else {
            let w = choose|j: int| 0 <= j < n && self.names@[j]@ == m;
            self.lemma_lookup_at(w);
            assert(w != n - 1);
            if let Some(iu) = found {
                let i = iu as int;
                prev.names@.remove_ensures(i);
                prev.paths@.remove_ensures(i);
                if w < i {
                    assert(self.names@[w] == prev.names@[w]);
                    assert(self.paths@[w] == prev.paths@[w]);
                    prev.lemma_lookup_at(w);
                } else {
                    assert(self.names@[w] == prev.names@[w + 1]);
                    assert(self.paths@[w] == prev.paths@[w + 1]);
                    prev.lemma_lookup_at(w + 1);
                }
            } else {
                assert(self.names@[w] == prev.names@[w]);
                assert(self.paths@[w] == prev.paths@[w]);
                prev.lemma_lookup_at(w);
            }
        }
    }

    /// The full path stored under `name`, if any.
    pub fn get(&self, name: &String) -> (r: Option<String>)
        requires
            self.wf(),
        ensures
            match r {
                Some(p) => self.as_map().dom().contains(name@) && p@ == self.as_map()[name@],
                None => !self.as_map().dom().contains(name@),
            },
    {
        let found = self.find_index(name);
        match found {
            Some(i) => {
                proof {
                    self.lemma_lookup_at(i as int);
                }
                Some(self.paths[i].clone())
            },
            None => None,
        }
    }

    /// All stored filenames, each exactly once, in storage order.
    pub fn names(&self) -> (r: Vec<String>)
        requires
            self.wf(),
        ensures
            r@.len() == self.spec_names().len(),
            forall|i: int| 0 <= i < r@.len() ==> r@[i]@ == self.spec_names()[i],
            forall|i: int, j: int| 0 <= i < j < r@.len() ==> r@[i]@ != r@[j]@,
            forall|i: int| 0 <= i < r@.len() ==> self.as_map().dom().contains(#[trigger] r@[i]@),
            forall|k: Seq<char>|
                self.as_map().dom().contains(k) ==> exists|i: int| 0 <= i < r@.len() && r@[i]@ == k,
    {
        let n = self.names.len();
        let mut r: Vec<String> = Vec::new();
        let mut i: usize = 0;
        while i < n
            invariant
                0 <= i <= n,
                n == self.names@.len(),
                self.wf(),
                r@.len() == i,
                forall|j: int| 0 <= j < i ==> r@[j]@ == self.names@[j]@,
            decreases n - i,
        {
            r.push(self.names[i].clone());
            i = i + 1;
        }
        proof {
            assert forall|j: int| 0 <= j < r@.len() implies self.as_map().dom().contains(
                #[trigger] r@[j]@,
            ) by {
                self.lemma_lookup_at(j);
            }
            assert forall|k: Seq<char>| self.as_map().dom().contains(k) implies exists|i: int|
                0 <= i < r@.len() && r@[i]@ == k by {
                let w = choose|j: int| 0 <= j < self.names@.len() && self.names@[j]@ == k;
                assert(r@[w]@ == k);
            }
        }
        r
    }

}

} // verus!
