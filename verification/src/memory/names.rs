//! A map from names to values, kept as a list of entries in which no name
//! occurs twice.
use vstd::prelude::*;

verus! {

/// No two entries have the same name.
pub open spec fn distinct_names<V>(es: Seq<(String, V)>) -> bool {
    forall|i: int, j: int|
        0 <= i < j < es.len() ==> (#[trigger] es[i]).0@ != (#[trigger] es[j]).0@
}

/// The entries as a map from name to value.
pub open spec fn entries_map<V>(es: Seq<(String, V)>) -> Map<Seq<char>, V> {
    Map::new(
        |k: Seq<char>| exists|i: int| 0 <= i < es.len() && (#[trigger] es[i]).0@ == k,
        |k: Seq<char>| es[choose|i: int| 0 <= i < es.len() && (#[trigger] es[i]).0@ == k].1,
    )
}

/// With distinct names, each entry is what the map gives for its name.
pub proof fn lemma_entry_in_map<V>(es: Seq<(String, V)>, q: int)
    requires
        distinct_names(es),
        0 <= q < es.len(),
    ensures
        entries_map(es).contains_key(es[q].0@),
        entries_map(es)[es[q].0@] == es[q].1,
{
    let k = es[q].0@;
    assert(es[q].0@ == k);
    let c = choose|i: int| 0 <= i < es.len() && (#[trigger] es[i]).0@ == k;
    if c != q {
        if c < q {
            assert(es[c].0@ != es[q].0@);
        } else {
            assert(es[q].0@ != es[c].0@);
        }
    }
}

/// Removing the entry at `q` removes its name from the map.
proof fn lemma_remove_entry<V>(es: Seq<(String, V)>, q: int)
    requires
        distinct_names(es),
        0 <= q < es.len(),
    ensures
        distinct_names(es.remove(q)),
        entries_map(es.remove(q)) == entries_map(es).remove(es[q].0@),
{
    let es2 = es.remove(q);
    let k = es[q].0@;
    assert forall|a: int, b: int| 0 <= a < b < es2.len() implies (#[trigger] es2[a]).0@ != (
    #[trigger] es2[b]).0@ by {
        let a0 = if a < q {
            a
        } else {
            a + 1
        };
        let b0 = if b < q {
            b
        } else {
            b + 1
        };
        assert(es2[a] == es[a0] && es2[b] == es[b0]);
    }
    assert forall|x: Seq<char>| #[trigger] entries_map(es2).contains_key(x) <==> entries_map(
        es,
    ).remove(k).contains_key(x) by {
        if entries_map(es2).contains_key(x) {
            let i = choose|i: int| 0 <= i < es2.len() && (#[trigger] es2[i]).0@ == x;
            let i0 = if i < q {
                i
            } else {
                i + 1
            };
            assert(es[i0] == es2[i]);
            assert(es[i0].0@ != es[q].0@);
        }
        if entries_map(es).remove(k).contains_key(x) {
            let i = choose|i: int| 0 <= i < es.len() && (#[trigger] es[i]).0@ == x;
            assert(i != q);
            let i2 = if i < q {
                i
            } else {
                i - 1
            };
            assert(es2[i2] == es[i]);
        }
    }
    assert forall|x: Seq<char>| #[trigger] entries_map(es2).contains_key(x) implies entries_map(
        es2,
    )[x] == entries_map(es).remove(k)[x] by {
        let i = choose|i: int| 0 <= i < es2.len() && (#[trigger] es2[i]).0@ == x;
        lemma_entry_in_map(es2, i);
        let i0 = if i < q {
            i
        } else {
            i + 1
        };
        assert(es[i0] == es2[i]);
        lemma_entry_in_map(es, i0);
    }
    assert(entries_map(es2) =~= entries_map(es).remove(k));
}

/// Adding an entry with a new name adds it to the map.
proof fn lemma_push_entry<V>(es: Seq<(String, V)>, e: (String, V))
    requires
        distinct_names(es),
        !entries_map(es).contains_key(e.0@),
    ensures
        distinct_names(es.push(e)),
        entries_map(es.push(e)) == entries_map(es).insert(e.0@, e.1),
{
    let es2 = es.push(e);
    assert forall|a: int, b: int| 0 <= a < b < es2.len() implies (#[trigger] es2[a]).0@ != (
    #[trigger] es2[b]).0@ by {
        assert(es2[a] == es[a]);
        if b < es.len() {
            assert(es2[b] == es[b]);
        } else {
            assert(es[a].0@ == es[a].0@);
        }
    }
    lemma_entry_in_map(es2, es.len() as int);
    assert forall|x: Seq<char>| #[trigger] entries_map(es2).contains_key(x) <==> entries_map(
        es,
    ).insert(e.0@, e.1).contains_key(x) by {
        if entries_map(es2).contains_key(x) {
            let i = choose|i: int| 0 <= i < es2.len() && (#[trigger] es2[i]).0@ == x;
            if i < es.len() {
                assert(es[i] == es2[i]);
            }
        }
        if entries_map(es).contains_key(x) {
            let i = choose|i: int| 0 <= i < es.len() && (#[trigger] es[i]).0@ == x;
            assert(es2[i] == es[i]);
        }
    }
    assert forall|x: Seq<char>| #[trigger] entries_map(es2).contains_key(x) implies entries_map(
        es2,
    )[x] == entries_map(es).insert(e.0@, e.1)[x] by {
        let i = choose|i: int| 0 <= i < es2.len() && (#[trigger] es2[i]).0@ == x;
        lemma_entry_in_map(es2, i);
        if i < es.len() {
            assert(es[i] == es2[i]);
            lemma_entry_in_map(es, i);
        }
    }
    assert(entries_map(es2) =~= entries_map(es).insert(e.0@, e.1));
}

/// Replacing an entry's value keeps the names and updates the map.
proof fn lemma_update_entry<V>(es: Seq<(String, V)>, q: int, e: (String, V))
    requires
        distinct_names(es),
        0 <= q < es.len(),
        e.0 == es[q].0,
    ensures
        distinct_names(es.update(q, e)),
        entries_map(es.update(q, e)) == entries_map(es).insert(e.0@, e.1),
{
    let es2 = es.update(q, e);
    assert forall|a: int, b: int| 0 <= a < b < es2.len() implies (#[trigger] es2[a]).0@ != (
    #[trigger] es2[b]).0@ by {
        assert(es[a].0@ != es[b].0@);
    }
    lemma_entry_in_map(es2, q);
    assert forall|x: Seq<char>| #[trigger] entries_map(es2).contains_key(x) <==> entries_map(
        es,
    ).insert(e.0@, e.1).contains_key(x) by {
        if entries_map(es2).contains_key(x) {
            let i = choose|i: int| 0 <= i < es2.len() && (#[trigger] es2[i]).0@ == x;
            if i != q {
                assert(es[i].0@ == x);
            }
        }
        if entries_map(es).contains_key(x) {
            let i = choose|i: int| 0 <= i < es.len() && (#[trigger] es[i]).0@ == x;
            if i != q {
                assert(es2[i].0@ == x);
            }
        }
    }
    assert forall|x: Seq<char>| #[trigger] entries_map(es2).contains_key(x) implies entries_map(
        es2,
    )[x] == entries_map(es).insert(e.0@, e.1)[x] by {
        let i = choose|i: int| 0 <= i < es2.len() && (#[trigger] es2[i]).0@ == x;
        lemma_entry_in_map(es2, i);
        if i != q {
            lemma_entry_in_map(es, i);
            assert(es2[i] == es[i]);
        }
    }
    assert(entries_map(es2) =~= entries_map(es).insert(e.0@, e.1));
}

/// A map from names to values.
#[derive(Debug)]
pub struct NameMap<V> {
    entries: Vec<(String, V)>,
}

impl<V> View for NameMap<V> {
    type V = Map<Seq<char>, V>;

    closed spec fn view(&self) -> Map<Seq<char>, V> {
        entries_map(self.entries@)
    }
}

impl<V> NameMap<V> {
    /// No name occurs twice among the entries.
    pub closed spec fn wf(&self) -> bool {
        distinct_names(self.entries@)
    }

    pub fn new() -> (r: Self)
        ensures
            r.wf(),
            r@ == Map::<Seq<char>, V>::empty(),
    {
        let r = NameMap { entries: Vec::new() };
        assert(r@ =~= Map::<Seq<char>, V>::empty());
        r
    }

    /// The position of the entry named `k`.
    fn index_of(&self, k: &str) -> (r: Option<usize>)
        requires
            self.wf(),
        ensures
            match r {
                Some(i) => i < self.entries@.len() && self.entries@[i as int].0@ == k@,
                None => !self@.contains_key(k@),
            },
    {
        let key = String::from_str(k);
        let mut i: usize = 0;
        while i < self.entries.len()
            invariant
                0 <= i <= self.entries@.len(),
                key@ == k@,
                forall|j: int| 0 <= j < i ==> (#[trigger] self.entries@[j]).0@ != k@,
            decreases self.entries@.len() - i,
        {
            if self.entries[i].0 == key {
                return Some(i);
            }
            i = i + 1;
        }
        proof {
            if self@.contains_key(k@) {
                let j = choose|j: int| 0 <= j < self.entries@.len() && (#[trigger] self.entries@[j]).0@ == k@;
                assert(self.entries@[j].0@ != k@);
            }
        }
        None
    }

    pub fn contains_key(&self, k: &str) -> (r: bool)
        requires
            self.wf(),
        ensures
            r == self@.contains_key(k@),
    {
        match self.index_of(k) {
            Some(i) => {
                proof {
                    lemma_entry_in_map(self.entries@, i as int);
                }
                true
            },
            None => false,
        }
    }

    pub fn get(&self, k: &str) -> (r: Option<&V>)
        requires
            self.wf(),
        ensures
            match r {
                Some(v) => self@.contains_key(k@) && *v == self@[k@],
                None => !self@.contains_key(k@),
            },
    {
        match self.index_of(k) {
            Some(i) => {
                proof {
                    lemma_entry_in_map(self.entries@, i as int);
                }
                Some(&self.entries[i].1)
            },
            None => None,
        }
    }

    /// The value named `k`, to change in place.
    pub fn get_mut(&mut self, k: &str) -> (r: Option<&mut V>)
        requires
            old(self).wf(),
        ensures
            match r {
                Some(v) => {
                    &&& old(self)@.contains_key(k@)
                    &&& *v == old(self)@[k@]
                    &&& final(self).wf()
                    &&& final(self)@ == old(self)@.insert(k@, *final(v))
                },
                None => !old(self)@.contains_key(k@) && *final(self) == *old(self),
            },
    {
        match self.index_of(k) {
            Some(i) => {
                proof {
                    lemma_entry_in_map(self.entries@, i as int);
                }
                let ghost es = self.entries@;
                let r = &mut self.entries[i].1;
                proof {
                    lemma_update_entry(es, i as int, (es[i as int].0, *final(r)));
                }
                Some(r)
            },
            None => None,
        }
    }

    /// Removes the entry named `k`, giving back its value.
    pub fn remove(&mut self, k: &str) -> (r: Option<V>)
        requires
            old(self).wf(),
        ensures
            final(self).wf(),
            final(self)@ == old(self)@.remove(k@),
            match r {
                Some(v) => old(self)@.contains_key(k@) && v == old(self)@[k@],
                None => !old(self)@.contains_key(k@),
            },
    {
        match self.index_of(k) {
            Some(i) => {
                proof {
                    lemma_entry_in_map(self.entries@, i as int);
                    lemma_remove_entry(self.entries@, i as int);
                }
                let e = self.entries.remove(i);
                Some(e.1)
            },
            None => {
                assert(self@ =~= old(self)@.remove(k@));
                None
            },
        }
    }

    /// Sets the value named `k`, giving back the value it replaces.
    pub fn insert(&mut self, k: String, v: V) -> (r: Option<V>)
        requires
            old(self).wf(),
        ensures
            final(self).wf(),
            final(self)@ == old(self)@.insert(k@, v),
            match r {
                Some(x) => old(self)@.contains_key(k@) && x == old(self)@[k@],
                None => !old(self)@.contains_key(k@),
            },
    {
        let old_value = self.remove(k.as_str());
        proof {
            lemma_push_entry(self.entries@, (k, v));
        }
        self.entries.push((k, v));
        proof {
            assert(old(self)@.remove(k@).insert(k@, v) =~= old(self)@.insert(k@, v));
        }
        old_value
    }
}

} // verus!
