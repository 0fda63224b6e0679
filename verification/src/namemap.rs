//! A small map from names to values, kept as a list in which no name occurs
//! twice. The maps of this crate hold a handful of entries.

use vstd::prelude::*;

use crate::text::str_eq;

verus! {

/// A map with string keys.
#[derive(Debug)]
pub struct NameMap<V> {
    entries: Vec<(String, V)>,
}

/// The map that a list of entries stands for; of two entries with one name
/// the later counts.
pub open spec fn map_of<V>(entries: Seq<(String, V)>) -> Map<Seq<char>, V>
    decreases entries.len(),
{
    if entries.len() == 0 {
        Map::empty()
    } else {
        map_of(entries.drop_last()).insert(entries.last().0@, entries.last().1)
    }
}

/// A map in which `name` has this value.
pub open spec fn with_name<V>(m: Map<Seq<char>, V>, name: Seq<char>, value: V) -> Map<
    Seq<char>,
    V,
> {
    m.insert(name, value)
}

/// A map in which `name` has no value.
pub open spec fn without_name<V>(m: Map<Seq<char>, V>, name: Seq<char>) -> Map<Seq<char>, V> {
    m.remove(name)
}

/// The value of `name`, if it has one.
pub open spec fn value_of<V>(m: Map<Seq<char>, V>, name: Seq<char>) -> Option<V> {
    if m.contains_key(name) {
        Some(m[name])
    } else {
        None
    }
}

/// Whether no name occurs twice.
pub open spec fn names_differ<V>(entries: Seq<(String, V)>) -> bool {
    forall|i: int, j: int|
        0 <= i < j < entries.len() ==> (#[trigger] entries[i]).0@ != (#[trigger] entries[j]).0@
}

proof fn lemma_map_of<V>(entries: Seq<(String, V)>)
    requires
        names_differ(entries),
    ensures
        map_of(entries).dom().finite(),
        map_of(entries).len() == entries.len(),
        forall|i: int|
            0 <= i < entries.len() ==> map_of(entries).contains_key((#[trigger] entries[i]).0@)
                && map_of(entries)[entries[i].0@] == entries[i].1,
        forall|k: Seq<char>| #[trigger]
            map_of(entries).contains_key(k) ==> exists|i: int|
                0 <= i < entries.len() && (#[trigger] entries[i]).0@ == k,
    decreases entries.len(),
{
    if entries.len() > 0 {
        let front = entries.drop_last();
        lemma_map_of(front);
        assert forall|i: int| 0 <= i < entries.len() implies map_of(entries).contains_key(
            (#[trigger] entries[i]).0@,
        ) && map_of(entries)[entries[i].0@] == entries[i].1 by {
            if i < front.len() {
                assert(front[i] == entries[i]);
                assert(entries[i].0@ != entries[entries.len() - 1].0@);
            }
        }
        assert forall|k: Seq<char>| #[trigger] map_of(entries).contains_key(k) implies exists|
            i: int,
        |
            0 <= i < entries.len() && (#[trigger] entries[i]).0@ == k by {
            if k == entries.last().0@ {
                assert(entries[entries.len() - 1].0@ == k);
            } else {
                assert(map_of(front).contains_key(k));
                let i = choose|i: int| 0 <= i < front.len() && (#[trigger] front[i]).0@ == k;
                assert(entries[i].0@ == k);
            }
        }
        if map_of(front).contains_key(entries.last().0@) {
            let i = choose|i: int|
                0 <= i < front.len() && (#[trigger] front[i]).0@ == entries.last().0@;
            assert(entries[i].0@ != entries[entries.len() - 1].0@);
        }
    }
}

proof fn lemma_map_of_unique<V>(a: Seq<(String, V)>, m: Map<Seq<char>, V>)
    requires
        names_differ(a),
        forall|i: int|
            0 <= i < a.len() ==> m.contains_key((#[trigger] a[i]).0@) && m[a[i].0@] == a[i].1,
        forall|k: Seq<char>| #[trigger]
            m.contains_key(k) ==> exists|i: int| 0 <= i < a.len() && (#[trigger] a[i]).0@ == k,
    ensures
        map_of(a) == m,
{
    lemma_map_of(a);
    assert forall|k: Seq<char>| map_of(a).contains_key(k) == m.contains_key(k) && (m.contains_key(
        k,
    ) ==> map_of(a)[k] == m[k]) by {
        if m.contains_key(k) {
            let i = choose|i: int| 0 <= i < a.len() && (#[trigger] a[i]).0@ == k;
            assert(map_of(a).contains_key(a[i].0@));
        }
    }
    assert(map_of(a) =~= m);
}

impl<V> View for NameMap<V> {
    type V = Map<Seq<char>, V>;

    closed spec fn view(&self) -> Map<Seq<char>, V> {
        map_of(self.entries@)
    }
}

impl<V> NameMap<V> {
    #[verifier::type_invariant]
    spec fn distinct(self) -> bool {
        names_differ(self.entries@)
    }

    /// The map without entries.
    pub fn new() -> (m: Self)
        ensures
            m@ == Map::<Seq<char>, V>::empty(),
    {
        NameMap { entries: Vec::new() }
    }

    /// Where `name` stands in the list.
    fn position(&self, name: &str) -> (r: Option<usize>)
        ensures
            match r {
                Some(i) => i < self.entries@.len() && self.entries@[i as int].0@ == name@,
                None => forall|i: int|
                    0 <= i < self.entries@.len() ==> (#[trigger] self.entries@[i]).0@ != name@,
            },
    {
        for i in 0..self.entries.len()
            invariant
                forall|k: int| 0 <= k < i ==> (#[trigger] self.entries@[k]).0@ != name@,
        {
            if str_eq(self.entries[i].0.as_str(), name) {
                return Some(i);
            }
        }
        None
    }

    /// Sets the value for `name`; an earlier value is replaced.
    pub fn insert(&mut self, name: String, value: V)
        ensures
            final(self)@ == old(self)@.insert(name@, value),
            final(self)@ == with_name(old(self)@, name@, value),
    {
        proof {
            use_type_invariant(&*self);
        }
        let ghost before = self.entries@;
        let ghost added = self@.insert(name@, value);
        let found = self.position(name.as_str());
        let mut entries: Vec<(String, V)> = Vec::new();
        std::mem::swap(&mut entries, &mut self.entries);
        proof {
            lemma_map_of(before);
        }
        match found {
            Some(i) => {
                entries.set(i, (name, value));
            },
            None => {
                entries.push((name, value));
                assert(entries@.drop_last() == before);
            },
        }
        proof {
            assert(names_differ(entries@));
            assert forall|k: Seq<char>| #[trigger] added.contains_key(k) implies exists|j: int|
                0 <= j < entries@.len() && (#[trigger] entries@[j]).0@ == k by {
                if before_has(before, k) {
                    let j = choose|j: int| 0 <= j < before.len() && (#[trigger] before[j]).0@ == k;
                    assert(entries@[j].0@ == k);
                } else {
                    assert(k == name@);
                    assert(entries@[entries@.len() - 1].0@ == k);
                }
            }
            assert forall|j: int| 0 <= j < entries@.len() implies added.contains_key(
                (#[trigger] entries@[j]).0@,
            ) && added[entries@[j].0@] == entries@[j].1 by {
                if j < before.len() {
                    let b = before[j];
                    assert(map_of(before).contains_key(b.0@));
                }
            }
            lemma_map_of_unique(entries@, added);
        }
        self.entries = entries;
    }

    /// Forgets `name`.
    pub fn remove(&mut self, name: &str)
        ensures
            final(self)@ == old(self)@.remove(name@),
            final(self)@ == without_name(old(self)@, name@),
    {
        proof {
            use_type_invariant(&*self);
        }
        let ghost before = self.entries@;
        let ghost left = self@.remove(name@);
        let found = self.position(name);
        let mut entries: Vec<(String, V)> = Vec::new();
        std::mem::swap(&mut entries, &mut self.entries);
        proof {
            lemma_map_of(before);
        }
        match found {
            Some(i) => {
                let _ = entries.remove(i);
                proof {
                    let n = i as int;
                    assert forall|k: Seq<char>| #[trigger] left.contains_key(k) implies exists|
                        j: int,
                    |
                        0 <= j < entries@.len() && (#[trigger] entries@[j]).0@ == k by {
                        let j = choose|j: int|
                            0 <= j < before.len() && (#[trigger] before[j]).0@ == k;
                        if j < n {
                            assert(entries@[j].0@ == k);
                        } else {
                            assert(entries@[j - 1].0@ == k);
                        }
                    }
                    assert forall|j: int| 0 <= j < entries@.len() implies left.contains_key(
                        (#[trigger] entries@[j]).0@,
                    ) && left[entries@[j].0@] == entries@[j].1 by {
                        let b = if j < n {
                            before[j]
                        } else {
                            before[j + 1]
                        };
                        assert(map_of(before).contains_key(b.0@));
                        assert(b.0@ != before[n].0@);
                    }
                    lemma_map_of_unique(entries@, left);
                }
            },
            None => {
                assert(left == map_of(before));
            },
        }
        self.entries = entries;
    }

    /// The value for `name`.
    pub fn get(&self, name: &str) -> (r: Option<&V>)
        ensures
            match r {
                Some(v) => self@.contains_key(name@) && *v == self@[name@],
                None => !self@.contains_key(name@),
            },
            match r {
                Some(v) => value_of(self@, name@) == Some(*v),
                None => value_of(self@, name@) is None,
            },
    {
        proof {
            use_type_invariant(self);
            lemma_map_of(self.entries@);
        }
        match self.position(name) {
            Some(i) => Some(&self.entries[i].1),
            None => None,
        }
    }

    /// Whether `name` has a value.
    pub fn contains_key(&self, name: &str) -> (r: bool)
        ensures
            r == self@.contains_key(name@),
    {
        self.get(name).is_some()
    }

    /// The number of names.
    pub fn len(&self) -> (n: usize)
        ensures
            n == self@.len(),
            self@.dom().finite(),
    {
        proof {
            use_type_invariant(self);
            lemma_map_of(self.entries@);
        }
        self.entries.len()
    }

    /// Whether there are no names.
    pub fn is_empty(&self) -> (r: bool)
        ensures
            r == (self@ == Map::<Seq<char>, V>::empty()),
    {
        proof {
            use_type_invariant(self);
            lemma_map_of(self.entries@);
            if self.entries@.len() > 0 {
                assert(map_of(self.entries@).contains_key(self.entries@[0].0@));
            }
        }
        self.entries.len() == 0
    }
}

impl<V: Clone> Clone for NameMap<V> {
    fn clone(&self) -> (res: Self)
        ensures
            res@.dom() == self@.dom(),
            forall|k: Seq<char>| #[trigger]
                res@.contains_key(k) ==> cloned::<V>(self@[k], res@[k]),
    {
        proof {
            use_type_invariant(self);
            lemma_map_of(self.entries@);
        }
        let mut entries: Vec<(String, V)> = Vec::new();
        for i in 0..self.entries.len()
            invariant
                entries@.len() == i,
                forall|k: int|
                    0 <= k < i ==> (#[trigger] entries@[k]).0 == self.entries@[k].0 && cloned::<V>(
                        self.entries@[k].1,
                        entries@[k].1,
                    ),
        {
            let name = self.entries[i].0.clone();
            let value = self.entries[i].1.clone();
            entries.push((name, value));
        }
        proof {
            assert(names_differ(entries@)) by {
                assert forall|i: int, j: int| 0 <= i < j < entries@.len() implies (
                #[trigger] entries@[i]).0@ != (#[trigger] entries@[j]).0@ by {
                    assert(self.entries@[i].0@ != self.entries@[j].0@);
                }
            }
            lemma_map_of(entries@);
            let m = map_of(entries@);
            assert forall|k: Seq<char>| m.contains_key(k) == self@.contains_key(k) by {
                if m.contains_key(k) {
                    let i = choose|i: int| 0 <= i < entries@.len() && (#[trigger] entries@[i]).0@ == k;
                    assert(self@.contains_key(self.entries@[i].0@));
                }
                if self@.contains_key(k) {
                    let i = choose|i: int|
                        0 <= i < self.entries@.len() && (#[trigger] self.entries@[i]).0@ == k;
                    assert(m.contains_key(entries@[i].0@));
                }
            }
            assert(m.dom() =~= self@.dom());
            assert forall|k: Seq<char>| #[trigger] m.contains_key(k) implies cloned::<V>(
                self@[k],
                m[k],
            ) by {
                let i = choose|i: int| 0 <= i < entries@.len() && (#[trigger] entries@[i]).0@ == k;
                assert(self@[self.entries@[i].0@] == self.entries@[i].1);
            }
        }
        NameMap { entries }
    }
}

spec fn before_has<V>(entries: Seq<(String, V)>, k: Seq<char>) -> bool {
    exists|j: int| 0 <= j < entries.len() && (#[trigger] entries[j]).0@ == k
}

/// What was set last under a name is found under exactly that name until it is
/// removed; no other name is touched.
pub proof fn law_values_are_found_by_name<V>(
    m: Map<Seq<char>, V>,
    name: Seq<char>,
    value: V,
    other: Seq<char>,
)
    ensures
        value_of(with_name(m, name, value), name) == Some(value),
        value_of(without_name(m, name), name) is None,
        other != name ==> value_of(with_name(m, name, value), other) == value_of(m, other),
        other != name ==> value_of(without_name(m, name), other) == value_of(m, other),
        value_of(Map::<Seq<char>, V>::empty(), name) is None,
{
}

} // verus!
