//! A map from texts, for the small registries that are looked up by name.

use crate::text::same_text;
use vstd::prelude::*;

verus! {

/// A map from texts to values. No text occurs twice.
#[derive(Debug)]
pub struct TextMap<V> {
    entries: Vec<(String, V)>,
}

/// Whether an entry for `name` stands at `i`.
pub open spec fn entry_at<V>(entries: Seq<(String, V)>, name: Seq<char>, i: int) -> bool {
    0 <= i < entries.len() && entries[i].0@ == name
}

spec fn holds<V>(entries: Seq<(String, V)>, name: Seq<char>) -> bool {
    exists|i: int| entry_at(entries, name, i)
}

spec fn value_of<V>(entries: Seq<(String, V)>, name: Seq<char>) -> V {
    entries[choose|i: int| entry_at(entries, name, i)].1
}

spec fn no_repeats<V>(entries: Seq<(String, V)>) -> bool {
    forall|i: int, j: int|
        0 <= i < entries.len() && 0 <= j < entries.len() && (#[trigger] entries[i]).0@ == (
        #[trigger] entries[j]).0@ ==> i == j
}

/// Whether `entries` list `map`: every pair of it once, and nothing else.
pub open spec fn lists<V>(entries: Seq<(String, V)>, map: Map<Seq<char>, V>) -> bool {
    &&& forall|i: int, j: int|
        0 <= i < entries.len() && 0 <= j < entries.len() && (#[trigger] entries[i]).0@ == (
        #[trigger] entries[j]).0@ ==> i == j
    &&& forall|i: int|
        0 <= i < entries.len() ==> map.contains_pair((#[trigger] entries[i]).0@, entries[i].1)
    &&& forall|name: Seq<char>| #[trigger]
        map.dom().contains(name) ==> exists|i: int| entry_at(entries, name, i)
}

impl<V> View for TextMap<V> {
    type V = Map<Seq<char>, V>;

    closed spec fn view(&self) -> Map<Seq<char>, V> {
        Map::new(
            |name: Seq<char>| holds(self.entries@, name),
            |name: Seq<char>| value_of(self.entries@, name),
        )
    }
}

impl<V> TextMap<V> {
    #[verifier::type_invariant]
    spec fn each_name_once(self) -> bool {
        no_repeats(self.entries@)
    }

    /// The empty map.
    pub fn new() -> (r: TextMap<V>)
        ensures
            r@ == Map::<Seq<char>, V>::empty(),
    {
        let r = TextMap { entries: Vec::new() };
        assert forall|name: Seq<char>| !holds(r.entries@, name) by {
            assert(forall|i: int| !entry_at(r.entries@, name, i));
        }
        assert(r@ =~= Map::<Seq<char>, V>::empty());
        r
    }

    fn position(&self, name: &str) -> (r: Option<usize>)
        ensures
            match r {
                Some(i) => entry_at(self.entries@, name@, i as int),
                None => !holds(self.entries@, name@),
            },
    {
        let mut i: usize = 0;
        while i < self.entries.len()
            invariant
                i <= self.entries.len(),
                forall|j: int| 0 <= j < i ==> !entry_at(self.entries@, name@, j),
            decreases self.entries.len() - i,
        {
            if same_text(self.entries[i].0.as_str(), name) {
                return Some(i);
            }
            i += 1;
        }
        assert forall|j: int| !entry_at(self.entries@, name@, j) by {}
        None
    }

    /// The value under a text, if there is one.
    pub fn get(&self, name: &str) -> (r: Option<&V>)
        ensures
            match r {
                Some(value) => self@.contains_pair(name@, *value),
                None => !self@.dom().contains(name@),
            },
    {
        proof {
            use_type_invariant(self);
        }
        match self.position(name) {
            Some(i) => Some(&self.entries[i].1),
            None => None,
        }
    }

    /// The pairs of the map.
    pub fn entries(&self) -> (r: &Vec<(String, V)>)
        ensures
            lists(r@, self@),
    {
        proof {
            use_type_invariant(self);
            let entries = self.entries@;
            assert forall|i: int| 0 <= i < entries.len() implies self@.contains_pair(
                (#[trigger] entries[i]).0@,
                entries[i].1,
            ) by {
                assert(entry_at(entries, entries[i].0@, i));
                let j = choose|j: int| entry_at(entries, entries[i].0@, j);
                assert(entries[j].0@ == entries[i].0@);
            }
        }
        &self.entries
    }

    /// Puts in a value. One that the text had before is replaced.
    pub fn insert(&mut self, name: String, value: V)
        ensures
            final(self)@ == old(self)@.insert(name@, value),
    {
        proof {
            use_type_invariant(&*self);
        }
        let ghost before = self.entries@;
        let at = self.position(name.as_str());
        let mut entries: Vec<(String, V)> = Vec::new();
        std::mem::swap(&mut entries, &mut self.entries);
        assert(entries@ == before);
        let ghost spot: int = match at {
            Some(i) => i as int,
            None => before.len() as int,
        };
        match at {
            Some(i) => {
                entries.set(i, (name, value));
            },
            None => {
                assert forall|j: int| 0 <= j < before.len() implies (#[trigger] before[j]).0@
                    != name@ by {
                    assert(!entry_at(before, name@, j));
                }
                entries.push((name, value));
            },
        }
        let ghost after = entries@;
        assert(no_repeats(after));
        self.entries = entries;
        proof {
            let old_map = old(self)@;
            assert(entry_at(after, name@, spot));
            assert forall|n: Seq<char>| n != name@ && holds(before, n) implies holds(after, n)
                && value_of(after, n) == value_of(before, n) by {
                let i = choose|i: int| entry_at(before, n, i);
                assert(entry_at(after, n, i));
                let j = choose|j: int| entry_at(after, n, j);
                assert(after[i].0@ == after[j].0@);
            }
            assert forall|n: Seq<char>| n != name@ && holds(after, n) implies holds(before, n) by {
                let i = choose|i: int| entry_at(after, n, i);
                assert(entry_at(before, n, i));
            }
            let k = choose|k: int| entry_at(after, name@, k);
            assert(after[k].0@ == after[spot].0@);
            assert(self@ =~= old_map.insert(name@, value));
        }
    }
}

} // verus!
