//! A small map with names as keys.

use crate::text::eq_str;
use vstd::prelude::*;

verus! {

/// A map from names to values.
pub struct NamedMap<T> {
    entries: Vec<(String, T)>,
}

/// No name occurs twice.
pub open spec fn distinct_names<T>(entries: Seq<(String, T)>) -> bool {
    forall|i: int, j: int|
        #![trigger entries[i], entries[j]]
        0 <= i < entries.len() && 0 <= j < entries.len() && entries[i].0@ == entries[j].0@ ==> i
            == j
}

/// The name occurs at position `i`.
pub open spec fn named_at<T>(entries: Seq<(String, T)>, name: Seq<char>, i: int) -> bool {
    0 <= i < entries.len() && entries[i].0@ == name
}

/// The map that a list of names and values stands for.
pub open spec fn entries_map<T>(entries: Seq<(String, T)>) -> Map<Seq<char>, T> {
    Map::new(
        |name: Seq<char>| exists|i: int| named_at(entries, name, i),
        |name: Seq<char>| entries[choose|i: int| named_at(entries, name, i)].1,
    )
}

/// Each entry gives the value under its name, and no name but those of the entries has one.
pub proof fn law_entries_are_looked_up_by_name<T>(
    entries: Seq<(String, T)>,
    i: int,
    name: Seq<char>,
)
    requires
        distinct_names(entries),
        0 <= i < entries.len(),
        forall|j: int| 0 <= j < entries.len() ==> (#[trigger] entries[j]).0@ != name,
    ensures
        entries_map(entries).dom().contains(entries[i].0@),
        entries_map(entries)[entries[i].0@] == entries[i].1,
        !entries_map(entries).dom().contains(name),
{
    lemma_entry(entries, i);
    if exists|k: int| named_at(entries, name, k) {
        let k = choose|k: int| named_at(entries, name, k);
        assert(entries[k].0@ != name);
    }
}

proof fn lemma_entry<T>(entries: Seq<(String, T)>, i: int)
    requires
        distinct_names(entries),
        0 <= i < entries.len(),
    ensures
        entries_map(entries).dom().contains(entries[i].0@),
        entries_map(entries)[entries[i].0@] == entries[i].1,
{
    let name = entries[i].0@;
    assert(named_at(entries, name, i));
    let k = choose|k: int| named_at(entries, name, k);
    assert(named_at(entries, name, k));
    assert(entries[k].0@ == entries[i].0@);
}

impl<T> View for NamedMap<T> {
    type V = Map<Seq<char>, T>;

    closed spec fn view(&self) -> Map<Seq<char>, T> {
        entries_map(self.entries@)
    }
}

impl<T> NamedMap<T> {
    /// No name is held twice.
    pub closed spec fn wf(self) -> bool {
        distinct_names(self.entries@)
    }

    /// The empty map.
    pub fn new() -> (r: NamedMap<T>)
        ensures
            r.wf(),
            r@ == Map::<Seq<char>, T>::empty(),
    {
        let r = NamedMap { entries: Vec::new() };
        assert(r@ =~= Map::<Seq<char>, T>::empty());
        r
    }

    fn position(&self, name: &str) -> (r: Option<usize>)
        ensures
            match r {
                Some(i) => named_at(self.entries@, name@, i as int),
                None => forall|i: int| !named_at(self.entries@, name@, i),
            },
    {
        let mut i: usize = 0;
        while i < self.entries.len()
            invariant
                i <= self.entries.len(),
                forall|j: int| 0 <= j < i ==> !named_at(self.entries@, name@, j),
            decreases self.entries.len() - i,
        {
            if eq_str(self.entries[i].0.as_str(), name) {
                return Some(i);
            }
            i += 1;
        }
        None
    }

    /// Puts `value` under `name`, in place of what was there.
    pub fn insert(&mut self, name: String, value: T)
        requires
            old(self).wf(),
        ensures
            final(self).wf(),
            final(self)@ == old(self)@.insert(name@, value),
    {
        let ghost before = self.entries@;
        match self.position(name.as_str()) {
            Some(i) => {
                self.entries.set(i, (name, value));
                proof {
                    let after = self.entries@;
                    assert(after =~= before.update(i as int, (name, value)));
                    assert forall|j: int, k: int|
                        #![trigger after[j], after[k]]
                        0 <= j < after.len() && 0 <= k < after.len() && after[j].0@
                            == after[k].0@ implies j == k by {
                        assert(after[j].0@ == before[j].0@);
                        assert(after[k].0@ == before[k].0@);
                    }
                    lemma_replaced(before, after, i as int);
                }
            },
            None => {
                self.entries.push((name, value));
                proof {
                    let after = self.entries@;
                    assert(after =~= before.push((name, value)));
                    assert forall|j: int, k: int|
                        #![trigger after[j], after[k]]
                        0 <= j < after.len() && 0 <= k < after.len() && after[j].0@
                            == after[k].0@ implies j == k by {
                        if j < before.len() && k == before.len() {
                            assert(named_at(before, name@, j));
                        } else if k < before.len() && j == before.len() {
                            assert(named_at(before, name@, k));
                        } else if j < before.len() && k < before.len() {
                            assert(before[j].0@ == before[k].0@);
                        }
                    }
                    lemma_appended(before, (name, value));
                }
            },
        }
    }

    /// Takes the value under `name` out of the map.
    pub fn remove(&mut self, name: &str) -> (r: Option<T>)
        requires
            old(self).wf(),
        ensures
            final(self).wf(),
            final(self)@ == old(self)@.remove(name@),
            match r {
                Some(value) => old(self)@.dom().contains(name@) && value == old(self)@[name@],
                None => !old(self)@.dom().contains(name@),
            },
    {
        let ghost before = self.entries@;
        match self.position(name) {
            Some(i) => {
                let (_, value) = self.entries.remove(i);
                proof {
                    let after = self.entries@;
                    assert(after =~= before.remove(i as int));
                    assert forall|j: int, k: int|
                        #![trigger after[j], after[k]]
                        0 <= j < after.len() && 0 <= k < after.len() && after[j].0@
                            == after[k].0@ implies j == k by {
                        let j0 = if j < i { j } else { j + 1 };
                        let k0 = if k < i { k } else { k + 1 };
                        assert(before[j0].0@ == before[k0].0@);
                    }
                    lemma_removed(before, i as int);
                    lemma_entry(before, i as int);
                }
                Some(value)
            },
            None => {
                assert(entries_map(before).remove(name@) =~= entries_map(before));
                None
            },
        }
    }

    /// The names with their values.
    pub fn into_entries(self) -> (r: Vec<(String, T)>)
        requires
            self.wf(),
        ensures
            distinct_names(r@),
            entries_map(r@) == self@,
    {
        self.entries
    }
}

proof fn lemma_replaced<T>(before: Seq<(String, T)>, after: Seq<(String, T)>, i: int)
    requires
        distinct_names(before),
        distinct_names(after),
        0 <= i < before.len(),
        after == before.update(i, after[i]),
        after[i].0@ == before[i].0@,
    ensures
        entries_map(after) == entries_map(before).insert(after[i].0@, after[i].1),
{
    let a = entries_map(after);
    let b = entries_map(before).insert(after[i].0@, after[i].1);
    assert forall|name: Seq<char>| a.dom().contains(name) == b.dom().contains(name) by {
        if a.dom().contains(name) {
            let k = choose|k: int| named_at(after, name, k);
            assert(named_at(before, name, k));
        }
        if b.dom().contains(name) {
            if name == after[i].0@ {
                assert(named_at(after, name, i));
            } else {
                let k = choose|k: int| named_at(before, name, k);
                assert(named_at(after, name, k));
            }
        }
    }
    assert forall|name: Seq<char>| a.dom().contains(name) implies a[name] == b[name] by {
        let k = choose|k: int| named_at(after, name, k);
        lemma_entry(after, k);
        lemma_entry(before, k);
    }
    assert(a =~= b);
}

proof fn lemma_appended<T>(before: Seq<(String, T)>, entry: (String, T))
    requires
        distinct_names(before),
        distinct_names(before.push(entry)),
    ensures
        entries_map(before.push(entry)) == entries_map(before).insert(entry.0@, entry.1),
{
    let after = before.push(entry);
    let a = entries_map(after);
    let b = entries_map(before).insert(entry.0@, entry.1);
    assert forall|name: Seq<char>| a.dom().contains(name) == b.dom().contains(name) by {
        if a.dom().contains(name) {
            let k = choose|k: int| named_at(after, name, k);
            if k < before.len() {
                assert(named_at(before, name, k));
            }
        }
        if b.dom().contains(name) {
            if name == entry.0@ {
                assert(named_at(after, name, before.len() as int));
            } else {
                let k = choose|k: int| named_at(before, name, k);
                assert(named_at(after, name, k));
            }
        }
    }
    assert forall|name: Seq<char>| a.dom().contains(name) implies a[name] == b[name] by {
        let k = choose|k: int| named_at(after, name, k);
        lemma_entry(after, k);
        if k < before.len() {
            lemma_entry(before, k);
            assert(after[k].0@ != entry.0@) by {
                assert(after[before.len() as int] == entry);
            }
        }
    }
    assert(a =~= b);
}

proof fn lemma_removed<T>(before: Seq<(String, T)>, i: int)
    requires
        distinct_names(before),
        distinct_names(before.remove(i)),
        0 <= i < before.len(),
    ensures
        entries_map(before.remove(i)) == entries_map(before).remove(before[i].0@),
{
    let after = before.remove(i);
    let a = entries_map(after);
    let b = entries_map(before).remove(before[i].0@);
    assert forall|name: Seq<char>| a.dom().contains(name) == b.dom().contains(name) by {
        if a.dom().contains(name) {
            let k = choose|k: int| named_at(after, name, k);
            let k0 = if k < i { k } else { k + 1 };
            assert(named_at(before, name, k0));
            assert(before[k0].0@ == name);
            assert(before[i].0@ != name);
        }
        if b.dom().contains(name) {
            let k = choose|k: int| named_at(before, name, k);
            let k0 = if k < i { k } else { k - 1 };
            assert(named_at(after, name, k0));
        }
    }
    assert forall|name: Seq<char>| a.dom().contains(name) implies a[name] == b[name] by {
        let k = choose|k: int| named_at(after, name, k);
        let k0 = if k < i { k } else { k + 1 };
        lemma_entry(after, k);
        lemma_entry(before, k0);
        assert(after[k] == before[k0]);
    }
    assert(a =~= b);
}

} // verus!
