//! A small map from names to values, kept as a list in which no name occurs
//! twice.

use vstd::prelude::*;

verus! {

/// A map from names to values.
#[derive(Clone, Debug)]
pub struct NameMap<V> {
    entries: Vec<(String, V)>,
}

spec fn names_distinct<V>(entries: Seq<(String, V)>) -> bool {
    forall|i: int, j: int| 0 <= i < j < entries.len() ==> entries[i].0@ != entries[j].0@
}

spec fn entry_map<V>(entries: Seq<(String, V)>) -> Map<Seq<char>, V> {
    Map::new(
        |name: Seq<char>| exists|i: int| 0 <= i < entries.len() && entries[i].0@ == name,
        |name: Seq<char>| entries[choose|i: int| 0 <= i < entries.len() && entries[i].0@ == name].1,
    )
}

proof fn lemma_entry_at<V>(entries: Seq<(String, V)>, at: int)
    requires
        names_distinct(entries),
        0 <= at < entries.len(),
    ensures
        entry_map(entries).contains_key(entries[at].0@),
        entry_map(entries)[entries[at].0@] == entries[at].1,
{
    let name = entries[at].0@;
    let chosen = choose|i: int| 0 <= i < entries.len() && entries[i].0@ == name;
    if chosen < at {
        assert(entries[chosen].0@ != entries[at].0@);
    } else if at < chosen {
        assert(entries[at].0@ != entries[chosen].0@);
    }
}

impl<V> View for NameMap<V> {
    type V = Map<Seq<char>, V>;

    closed spec fn view(&self) -> Map<Seq<char>, V> {
        entry_map(self.entries@)
    }
}

impl<V> NameMap<V> {
    /// No name occurs twice in the list.
    pub closed spec fn wf(&self) -> bool {
        names_distinct(self.entries@)
    }

    /// The empty map.
    pub fn new() -> (map: NameMap<V>)
        ensures
            map.wf(),
            map@ == Map::<Seq<char>, V>::empty(),
    {
        let map = NameMap { entries: Vec::new() };
        assert(map@ =~= Map::<Seq<char>, V>::empty());
        map
    }

    fn position(&self, name: &String) -> (at: Option<usize>)
        requires
            self.wf(),
        ensures
            at is Some == self@.contains_key(name@),
            at matches Some(i) ==> i < self.entries.len() && self.entries[i as int].0@ == name@
                && self.entries[i as int].1 == self@[name@],
    {
        let mut i: usize = 0;
        while i < self.entries.len()
            invariant
                self.wf(),
                i <= self.entries.len(),
                forall|j: int| 0 <= j < i ==> self.entries[j].0@ != name@,
            decreases self.entries.len() - i,
        {
            if self.entries[i].0 == *name {
                proof {
                    lemma_entry_at(self.entries@, i as int);
                }
                return Some(i);
            }
            i += 1;
        }
        None
    }

    /// The value under `name`, if there is one.
    pub fn get(&self, name: &String) -> (value: Option<&V>)
        requires
            self.wf(),
        ensures
            value is Some == self@.contains_key(name@),
            value matches Some(found) ==> *found == self@[name@],
    {
        match self.position(name) {
            Some(at) => Some(&self.entries[at].1),
            None => None,
        }
    }

    /// Puts `value` under `name`, in the place of what was there.
    pub fn insert(&mut self, name: String, value: V)
        requires
            old(self).wf(),
        ensures
            final(self).wf(),
            final(self)@ == old(self)@.insert(name@, value),
    {
        let ghost before = self.entries@;
        let found = self.position(&name);
        let ghost place: int = match found {
            Some(at) => at as int,
            None => before.len() as int,
        };
        match found {
            Some(at) => {
                self.entries.set(at, (name, value));
            },
            None => {
                self.entries.push((name, value));
            },
        }
        proof {
            let after = self.entries@;
            assert(after[place].0@ == name@);
            assert(names_distinct(after));
            assert forall|key: Seq<char>|
                entry_map(after).contains_key(key) == entry_map(before).insert(
                    name@,
                    value,
                ).contains_key(key) by {
                if entry_map(after).contains_key(key) && key != name@ {
                    let j = choose|j: int| 0 <= j < after.len() && after[j].0@ == key;
                    assert(before[j].0@ == key);
                }
                if entry_map(before).contains_key(key) {
                    let j = choose|j: int| 0 <= j < before.len() && before[j].0@ == key;
                    assert(after[j].0@ == key);
                }
                if key == name@ {
                    assert(after[place].0@ == key);
                }
            }
            assert forall|key: Seq<char>| entry_map(after).contains_key(key) implies entry_map(
                after,
            )[key] == entry_map(before).insert(name@, value)[key] by {
                let j = choose|j: int| 0 <= j < after.len() && after[j].0@ == key;
                lemma_entry_at(after, j);
                if key != name@ {
                    assert(before[j] == after[j]);
                    lemma_entry_at(before, j);
                }
            }
            assert(entry_map(after) =~= entry_map(before).insert(name@, value));
        }
    }

    /// Takes out what is under `name` and returns it.
    pub fn remove(&mut self, name: &String) -> (value: Option<V>)
        requires
            old(self).wf(),
        ensures
            final(self).wf(),
            final(self)@ == old(self)@.remove(name@),
            value is Some == old(self)@.contains_key(name@),
            value matches Some(taken) ==> taken == old(self)@[name@],
    {
        let ghost before = self.entries@;
        match self.position(name) {
            Some(at) => {
                let entry = self.entries.remove(at);
                proof {
                    let after = self.entries@;
                    assert forall|i: int, j: int| 0 <= i < j < after.len() implies after[i].0@
                        != after[j].0@ by {
                        let a = if i < at { i } else { i + 1 };
                        let b = if j < at { j } else { j + 1 };
                        assert(before[a].0@ != before[b].0@);
                    }
                    assert forall|key: Seq<char>|
                        entry_map(after).contains_key(key) == entry_map(before).remove(
                            name@,
                        ).contains_key(key) by {
                        if entry_map(after).contains_key(key) {
                            let j = choose|j: int| 0 <= j < after.len() && after[j].0@ == key;
                            let b = if j < at { j } else { j + 1 };
                            assert(before[b].0@ == key);
                            if b < at {
                                assert(before[b].0@ != before[at as int].0@);
                            } else {
                                assert(before[at as int].0@ != before[b].0@);
                            }
                        }
                        if entry_map(before).contains_key(key) && key != name@ {
                            let j = choose|j: int| 0 <= j < before.len() && before[j].0@ == key;
                            let a = if j < at { j } else { j - 1 };
                            assert(after[a].0@ == key);
                        }
                    }
                    assert forall|key: Seq<char>| entry_map(after).contains_key(
                        key,
                    ) implies entry_map(after)[key] == entry_map(before).remove(name@)[key] by {
                        let j = choose|j: int| 0 <= j < after.len() && after[j].0@ == key;
                        let b = if j < at { j } else { j + 1 };
                        lemma_entry_at(after, j);
                        lemma_entry_at(before, b);
                    }
                    assert(entry_map(after) =~= entry_map(before).remove(name@));
                }
                Some(entry.1)
            },
            None => {
                assert(self@ =~= old(self)@.remove(name@));
                None
            },
        }
    }

    /// The names and their values, each name once.
    pub fn entries(&self) -> (entries: &Vec<(String, V)>)
        requires
            self.wf(),
        ensures
            forall|i: int|
                0 <= i < entries.len() ==> self@.contains_key((#[trigger] entries[i]).0@)
                    && self@[entries[i].0@] == entries[i].1,
            forall|name: Seq<char>|
                self@.contains_key(name) ==> exists|i: int|
                    0 <= i < entries.len() && (#[trigger] entries[i]).0@ == name,
            forall|i: int, j: int|
                0 <= i < j < entries.len() ==> (#[trigger] entries[i]).0@ != (
                #[trigger] entries[j]).0@,
    {
        proof {
            assert forall|i: int| 0 <= i < self.entries.len() implies self@.contains_key(
                (#[trigger] self.entries[i]).0@,
            ) && self@[self.entries[i].0@] == self.entries[i].1 by {
                lemma_entry_at(self.entries@, i);
            }
        }
        &self.entries
    }
}

} // verus!
