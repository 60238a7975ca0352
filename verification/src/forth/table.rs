//! A map from names to values, kept as a list of entries in which no name
//! occurs twice.

use crate::forth::cell::Name;
use crate::forth::store::{
    find_key, keys_unique, lemma_find_key, lemma_find_key_at, lemma_find_key_none,
};
use vstd::prelude::*;

verus! {

/// The entries with names and values as specifications see them.
pub open spec fn named<V: DeepView>(entries: Seq<(String, V)>) -> Seq<(Name, V::V)> {
    entries.map_values(|e: (String, V)| (e.0@, e.1.deep_view()))
}

/// The map that a list of entries stands for: a name maps to the value of
/// the first entry that has it.
pub open spec fn as_map<W>(entries: Seq<(Name, W)>) -> Map<Name, W> {
    Map::new(
        |k: Name| find_key(entries, k) is Some,
        |k: Name| entries[find_key(entries, k)->Some_0].1,
    )
}

/// The value under the name, in a list of entries.
pub open spec fn table_get<W>(entries: Seq<(Name, W)>, name: Name) -> Option<W> {
    match find_key(entries, name) {
        Some(i) => Some(entries[i].1),
        None => None,
    }
}

/// The list with the value under the name: in place where the name has an
/// entry, else at the end.
pub open spec fn table_put<W>(entries: Seq<(Name, W)>, name: Name, value: W) -> Seq<(Name, W)> {
    match find_key(entries, name) {
        Some(i) => entries.update(i, (name, value)),
        None => entries.push((name, value)),
    }
}

/// The list without the entry of the name.
pub open spec fn table_del<W>(entries: Seq<(Name, W)>, name: Name) -> Seq<(Name, W)> {
    match find_key(entries, name) {
        Some(i) => entries.remove(i),
        None => entries,
    }
}

/// Replacing the value of the entry that has the name is an insertion into
/// the map.
pub proof fn lemma_map_update<W>(entries: Seq<(Name, W)>, i: int, name: Name, value: W)
    requires
        find_key(entries, name) == Some(i),
    ensures
        as_map(entries.update(i, (name, value))) == as_map(entries).insert(name, value),
{
    lemma_find_key(entries, name);
    let after = entries.update(i, (name, value));
    assert forall|k: Name| #[trigger] find_key(after, k) == find_key(entries, k) by {
        lemma_find_key(entries, k);
        match find_key(entries, k) {
            Some(j) => {
                assert forall|m: int| 0 <= m < j implies (#[trigger] after[m]).0 != k by {
                    assert(entries[m].0 != k);
                }
                lemma_find_key_at(after, k, j);
            },
            None => {
                assert forall|m: int| 0 <= m < after.len() implies (#[trigger] after[m]).0
                    != k by {
                    assert(entries[m].0 != k);
                }
                lemma_find_key_none(after, k);
            },
        }
    }
    let left = as_map(after);
    let right = as_map(entries).insert(name, value);
    assert forall|k: Name| left.dom().contains(k) == right.dom().contains(k) && (
    left.dom().contains(k) ==> left[k] == right[k]) by {
        assert(find_key(after, k) == find_key(entries, k));
        lemma_find_key(entries, k);
        if k != name && find_key(entries, k) is Some {
            let j = find_key(entries, k)->Some_0;
            assert(j != i);
            assert(after[j] == entries[j]);
        }
    }
    assert(left =~= right);
}

/// Appending an entry with a new name is an insertion into the map.
pub proof fn lemma_map_push<W>(entries: Seq<(Name, W)>, name: Name, value: W)
    requires
        find_key(entries, name) is None,
    ensures
        as_map(entries.push((name, value))) == as_map(entries).insert(name, value),
{
    let after = entries.push((name, value));
    lemma_find_key(entries, name);
    assert forall|m: int| 0 <= m < entries.len() implies (#[trigger] after[m]).0 != name by {
        assert(entries[m].0 != name);
    }
    lemma_find_key_at(after, name, entries.len() as int);
    assert forall|k: Name| k != name implies #[trigger] find_key(after, k) == find_key(
        entries,
        k,
    ) by {
        lemma_find_key(entries, k);
        match find_key(entries, k) {
            Some(j) => {
                assert forall|m: int| 0 <= m < j implies (#[trigger] after[m]).0 != k by {
                    assert(entries[m].0 != k);
                }
                lemma_find_key_at(after, k, j);
            },
            None => {
                assert forall|m: int| 0 <= m < after.len() implies (#[trigger] after[m]).0
                    != k by {
                    if m < entries.len() {
                        assert(entries[m].0 != k);
                    }
                }
                lemma_find_key_none(after, k);
            },
        }
    }
    let left = as_map(after);
    let right = as_map(entries).insert(name, value);
    assert forall|k: Name| left.dom().contains(k) == right.dom().contains(k) && (
    left.dom().contains(k) ==> left[k] == right[k]) by {
        if k != name {
            assert(find_key(after, k) == find_key(entries, k));
            lemma_find_key(entries, k);
            if find_key(entries, k) is Some {
                let j = find_key(entries, k)->Some_0;
                assert(after[j] == entries[j]);
            }
        }
    }
    assert(left =~= right);
}

/// Taking out the entry that has the name is a removal from the map, when no
/// name occurs twice.
pub proof fn lemma_map_remove<W>(entries: Seq<(Name, W)>, i: int, name: Name)
    requires
        keys_unique(entries),
        find_key(entries, name) == Some(i),
    ensures
        as_map(entries.remove(i)) == as_map(entries).remove(name),
        keys_unique(entries.remove(i)),
{
    let after = entries.remove(i);
    lemma_find_key(entries, name);
    assert forall|m: int| 0 <= m < after.len() implies (#[trigger] after[m]).0 != name by {
        if m < i {
            assert(after[m] == entries[m]);
            assert(entries[m].0 != entries[i].0);
        } else {
            assert(after[m] == entries[m + 1]);
            assert(entries[i].0 != entries[m + 1].0);
        }
    }
    lemma_find_key_none(after, name);
    assert forall|k: Name| k != name implies (match #[trigger] find_key(entries, k) {
        Some(j) => find_key(after, k) is Some && after[find_key(after, k)->Some_0].1
            == entries[j].1,
        None => find_key(after, k) is None,
    }) by {
        lemma_find_key(entries, k);
        match find_key(entries, k) {
            Some(j) => {
                let j2 = if j < i {
                    j
                } else {
                    j - 1
                };
                assert(after[j2] == entries[j]);
                assert forall|m: int| 0 <= m < j2 implies (#[trigger] after[m]).0 != k by {
                    if m < i {
                        assert(after[m] == entries[m]);
                        assert(entries[m].0 != k);
                    } else {
                        assert(after[m] == entries[m + 1]);
                        assert(entries[m + 1].0 != k);
                    }
                }
                lemma_find_key_at(after, k, j2);
            },
            None => {
                assert forall|m: int| 0 <= m < after.len() implies (#[trigger] after[m]).0
                    != k by {
                    if m < i {
                        assert(after[m] == entries[m]);
                        assert(entries[m].0 != k);
                    } else {
                        assert(after[m] == entries[m + 1]);
                        assert(entries[m + 1].0 != k);
                    }
                }
                lemma_find_key_none(after, k);
            },
        }
    }
    let left = as_map(after);
    let right = as_map(entries).remove(name);
    assert forall|k: Name| left.dom().contains(k) == right.dom().contains(k) && (
    left.dom().contains(k) ==> left[k] == right[k]) by {
        if k != name {
            let _ = find_key(entries, k);
        }
    }
    assert(left =~= right);
    assert forall|a: int, b: int| 0 <= a < b < after.len() implies (#[trigger] after[a]).0 != (
    #[trigger] after[b]).0 by {
        let a2 = if a < i {
            a
        } else {
            a + 1
        };
        let b2 = if b < i {
            b
        } else {
            b + 1
        };
        assert(after[a] == entries[a2]);
        assert(after[b] == entries[b2]);
        assert(entries[a2].0 != entries[b2].0);
    }
}

/// A map from names to values.
#[derive(Debug)]
pub struct Table<V> {
    pub entries: Vec<(String, V)>,
}

impl<V: DeepView> View for Table<V> {
    type V = Map<Name, V::V>;

    open spec fn view(&self) -> Map<Name, V::V> {
        as_map(named(self.entries@))
    }
}

impl<V: DeepView> Table<V> {
    /// The entries, in the order in which their names came.
    pub open spec fn listed(&self) -> Seq<(Name, V::V)> {
        named(self.entries@)
    }

    /// No name occurs twice.
    pub open spec fn wf(&self) -> bool {
        keys_unique(named(self.entries@))
    }

    /// The empty map.
    pub fn new() -> (r: Self)
        ensures
            r.wf(),
            r@ == Map::<Name, V::V>::empty(),
            r.listed() == Seq::<(Name, V::V)>::empty(),
    {
        let r = Table { entries: Vec::new() };
        proof {
            assert(named(r.entries@) =~= Seq::empty());
            assert(r@ =~= Map::<Name, V::V>::empty());
        }
        r
    }

    /// The position of the entry that has the name.
    fn position(&self, name: &String) -> (r: Option<usize>)
        ensures
            match r {
                Some(i) => i < self.entries@.len() && find_key(named(self.entries@), name@) == Some(
                    i as int,
                ),
                None => find_key(named(self.entries@), name@) is None,
            },
    {
        let ghost view = named(self.entries@);
        let mut i: usize = 0;
        while i < self.entries.len()
            invariant
                i <= self.entries.len(),
                view == named(self.entries@),
                forall|j: int| 0 <= j < i ==> (#[trigger] view[j]).0 != name@,
            decreases self.entries.len() - i,
        {
            if self.entries[i].0 == *name {
                proof {
                    lemma_find_key_at(view, name@, i as int);
                }
                return Some(i);
            }
            i += 1;
        }
        proof {
            lemma_find_key_none(view, name@);
        }
        None
    }

    /// Whether the name has a value.
    pub fn contains_key(&self, name: &str) -> (r: bool)
        ensures
            r == self@.dom().contains(name@),
            r == table_get(self.listed(), name@).is_some(),
    {
        let key = name.to_owned();
        self.position(&key).is_some()
    }

    /// The value of the name.
    pub fn get(&self, name: &str) -> (r: Option<&V>)
        ensures
            match r {
                Some(v) => self@.dom().contains(name@) && self@[name@] == v.deep_view()
                    && table_get(self.listed(), name@) == Some(v.deep_view()),
                None => !self@.dom().contains(name@) && table_get(self.listed(), name@) is None,
            },
    {
        let key = name.to_owned();
        match self.position(&key) {
            Some(i) => {
                assert(named(self.entries@)[i as int].1 == self.entries@[i as int].1.deep_view());
                Some(&self.entries[i].1)
            },
            None => None,
        }
    }

    /// Gives the name a value. Returns the value that it had, if it had one.
    pub fn insert(&mut self, name: String, value: V) -> (r: Option<V>)
        requires
            old(self).wf(),
        ensures
            final(self).wf(),
            final(self)@ == old(self)@.insert(name@, value.deep_view()),
            final(self).listed() == table_put(old(self).listed(), name@, value.deep_view()),
            match r {
                Some(v) => old(self)@.dom().contains(name@) && old(self)@[name@] == v.deep_view()
                    && table_get(old(self).listed(), name@) == Some(v.deep_view()),
                None => !old(self)@.dom().contains(name@) && table_get(
                    old(self).listed(),
                    name@,
                ) is None,
            },
    {
        let ghost before = named(self.entries@);
        match self.position(&name) {
            Some(i) => {
                assert(before[i as int].1 == self.entries@[i as int].1.deep_view());
                let mut entry = (name, value);
                core::mem::swap(&mut self.entries[i], &mut entry);
                proof {
                    let after = named(self.entries@);
                    assert(after =~= before.update(i as int, (name@, value.deep_view())));
                    lemma_map_update(before, i as int, name@, value.deep_view());
                    lemma_find_key(before, name@);
                    assert forall|a: int, b: int| 0 <= a < b < after.len() implies (
                    #[trigger] after[a]).0 != (#[trigger] after[b]).0 by {
                        assert(after[a].0 == before[a].0);
                        assert(after[b].0 == before[b].0);
                        assert(before[a].0 != before[b].0);
                    }
                }
                Some(entry.1)
            },
            None => {
                self.entries.push((name, value));
                proof {
                    let after = named(self.entries@);
                    assert(after =~= before.push((name@, value.deep_view())));
                    lemma_map_push(before, name@, value.deep_view());
                    lemma_find_key(before, name@);
                    assert forall|a: int, b: int| 0 <= a < b < after.len() implies (
                    #[trigger] after[a]).0 != (#[trigger] after[b]).0 by {
                        assert(after[a] == before[a]);
                        if b < before.len() {
                            assert(after[b] == before[b]);
                            assert(before[a].0 != before[b].0);
                        } else {
                            assert(after[b].0 == name@);
                            assert(before[a].0 != name@);
                        }
                    }
                }
                None
            },
        }
    }

    /// Takes the name out. Returns the value that it had, if it had one.
    pub fn remove(&mut self, name: &str) -> (r: Option<V>)
        requires
            old(self).wf(),
        ensures
            final(self).wf(),
            final(self)@ == old(self)@.remove(name@),
            final(self).listed() == table_del(old(self).listed(), name@),
            match r {
                Some(v) => old(self)@.dom().contains(name@) && old(self)@[name@] == v.deep_view()
                    && table_get(old(self).listed(), name@) == Some(v.deep_view()),
                None => !old(self)@.dom().contains(name@) && table_get(
                    old(self).listed(),
                    name@,
                ) is None,
            },
    {
        let ghost before = named(self.entries@);
        let key = name.to_owned();
        match self.position(&key) {
            Some(i) => {
                assert(before[i as int].1 == self.entries@[i as int].1.deep_view());
                let entry = self.entries.remove(i);
                proof {
                    assert(named(self.entries@) =~= before.remove(i as int));
                    lemma_map_remove(before, i as int, name@);
                }
                Some(entry.1)
            },
            None => {
                proof {
                    assert(self@ =~= self@.remove(name@));
                }
                None
            },
        }
    }
}

} // verus!
