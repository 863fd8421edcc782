//! A table from string keys to values, which holds each key at most once.

use vstd::prelude::*;
use crate::text::same_text;

verus! {

/// No two entries have the same key.
pub open spec fn keys_distinct<V>(entries: Seq<(String, V)>) -> bool {
    forall|i: int, j: int|
        0 <= i < j < entries.len() ==> (#[trigger] entries[i]).0@ != (#[trigger] entries[j]).0@
}

/// The map that a list of entries stands for.
pub open spec fn as_map<V>(entries: Seq<(String, V)>) -> Map<Seq<char>, V>
    decreases entries.len(),
{
    if entries.len() == 0 {
        Map::empty()
    } else {
        as_map(entries.drop_last()).insert(entries.last().0@, entries.last().1)
    }
}

/// The map holds exactly the keys of the entries.
proof fn lemma_as_map_dom<V>(entries: Seq<(String, V)>, key: Seq<char>)
    ensures
        as_map(entries).dom().contains(key) <==> exists|i: int|
            0 <= i < entries.len() && (#[trigger] entries[i]).0@ == key,
    decreases entries.len(),
{
    if entries.len() > 0 {
        let front = entries.drop_last();
        lemma_as_map_dom(front, key);
        if as_map(entries).dom().contains(key) {
            if entries.last().0@ == key {
                assert(entries[entries.len() - 1].0@ == key);
            } else {
                let i = choose|i: int| 0 <= i < front.len() && (#[trigger] front[i]).0@ == key;
                assert(entries[i].0@ == key);
            }
        }
        if exists|i: int| 0 <= i < entries.len() && (#[trigger] entries[i]).0@ == key {
            let i = choose|i: int| 0 <= i < entries.len() && (#[trigger] entries[i]).0@ == key;
            if i < front.len() {
                assert(front[i].0@ == key);
            }
        }
    }
}

/// Under each key the map holds the value of the entry with that key.
proof fn lemma_as_map_value<V>(entries: Seq<(String, V)>, i: int)
    requires
        keys_distinct(entries),
        0 <= i < entries.len(),
    ensures
        as_map(entries).dom().contains(entries[i].0@),
        as_map(entries)[entries[i].0@] == entries[i].1,
    decreases entries.len(),
{
    let front = entries.drop_last();
    if i < entries.len() - 1 {
        assert(keys_distinct(front)) by {
            assert forall|a: int, b: int| 0 <= a < b < front.len() implies (#[trigger] front[a]).0@
                != (#[trigger] front[b]).0@ by {
                assert(entries[a].0@ != entries[b].0@);
            }
        }
        lemma_as_map_value(front, i);
        assert(entries[i].0@ != entries[entries.len() - 1].0@);
        assert(front[i] == entries[i]);
    }
}

/// Taking one entry out of the list takes its key out of the map.
proof fn lemma_as_map_remove<V>(entries: Seq<(String, V)>, i: int)
    requires
        keys_distinct(entries),
        0 <= i < entries.len(),
    ensures
        keys_distinct(entries.remove(i)),
        as_map(entries.remove(i)) == as_map(entries).remove(entries[i].0@),
{
    let rest = entries.remove(i);
    let gone = entries[i].0@;
    assert(keys_distinct(rest)) by {
        assert forall|a: int, b: int| 0 <= a < b < rest.len() implies (#[trigger] rest[a]).0@ != (
        #[trigger] rest[b]).0@ by {
            let a0 = if a < i { a } else { a + 1 };
            let b0 = if b < i { b } else { b + 1 };
            assert(rest[a] == entries[a0]);
            assert(rest[b] == entries[b0]);
            assert(entries[a0].0@ != entries[b0].0@);
        }
    }
    assert forall|key: Seq<char>| #[trigger]
        as_map(rest).dom().contains(key) <==> as_map(entries).remove(gone).dom().contains(key) by {
        lemma_as_map_dom(rest, key);
        lemma_as_map_dom(entries, key);
        if as_map(rest).dom().contains(key) {
            let a = choose|a: int| 0 <= a < rest.len() && (#[trigger] rest[a]).0@ == key;
            let a0 = if a < i { a } else { a + 1 };
            assert(rest[a] == entries[a0]);
            assert(entries[a0].0@ == key);
            if a0 < i {
                assert(entries[a0].0@ != entries[i].0@);
            } else {
                assert(entries[i].0@ != entries[a0].0@);
            }
        }
        if as_map(entries).remove(gone).dom().contains(key) {
            let a0 = choose|a: int| 0 <= a < entries.len() && (#[trigger] entries[a]).0@ == key;
            let a = if a0 < i { a0 } else { a0 - 1 };
            assert(rest[a] == entries[a0]);
            assert(rest[a].0@ == key);
        }
    }
    assert forall|key: Seq<char>| #[trigger] as_map(rest).dom().contains(key) implies as_map(
        rest,
    )[key] == as_map(entries).remove(gone)[key] by {
        lemma_as_map_dom(rest, key);
        let a = choose|a: int| 0 <= a < rest.len() && (#[trigger] rest[a]).0@ == key;
        let a0 = if a < i { a } else { a + 1 };
        assert(rest[a] == entries[a0]);
        lemma_as_map_value(rest, a);
        lemma_as_map_value(entries, a0);
    }
    assert(as_map(rest) =~= as_map(entries).remove(gone));
}

/// Adding an entry at the end puts its key and value into the map.
proof fn lemma_as_map_push<V>(entries: Seq<(String, V)>, key: String, value: V)
    ensures
        as_map(entries.push((key, value))) == as_map(entries).insert(key@, value),
{
    assert(entries.push((key, value)).drop_last() =~= entries);
}

/// A table from string keys to values.
pub struct Table<V> {
    entries: Vec<(String, V)>,
}

impl<V> View for Table<V> {
    type V = Map<Seq<char>, V>;

    /// What the table holds under each key.
    closed spec fn view(&self) -> Map<Seq<char>, V> {
        as_map(self.entries@)
    }
}

impl<V> Table<V> {
    /// The table holds no key twice.
    pub closed spec fn wf(&self) -> bool {
        keys_distinct(self.entries@)
    }

    /// An empty table.
    pub fn new() -> (table: Table<V>)
        ensures
            table.wf(),
            table@ == Map::<Seq<char>, V>::empty(),
    {
        Table { entries: Vec::new() }
    }

    /// Where `key` stands among the entries.
    fn position(&self, key: &str) -> (found: Option<usize>)
        requires
            self.wf(),
        ensures
            found is Some ==> found->0 < self.entries@.len() && self.entries@[found->0 as int].0@
                == key@,
            found is None ==> !self@.dom().contains(key@),
            found is Some ==> self@.dom().contains(key@) && self@[key@]
                == self.entries@[found->0 as int].1,
    {
        let mut i: usize = 0;
        while i < self.entries.len()
            invariant
                i <= self.entries@.len(),
                keys_distinct(self.entries@),
                forall|k: int| 0 <= k < i ==> (#[trigger] self.entries@[k]).0@ != key@,
            decreases self.entries@.len() - i,
        {
            if same_text(self.entries[i].0.as_str(), key) {
                proof {
                    lemma_as_map_value(self.entries@, i as int);
                }
                return Some(i);
            }
            i = i + 1;
        }
        proof {
            lemma_as_map_dom(self.entries@, key@);
        }
        None
    }

    /// Whether the table holds `key`.
    pub fn contains_key(&self, key: &str) -> (held: bool)
        requires
            self.wf(),
        ensures
            held == self@.dom().contains(key@),
    {
        self.position(key).is_some()
    }

    /// The value under `key`.
    pub fn get<'a>(&'a self, key: &str) -> (value: Option<&'a V>)
        requires
            self.wf(),
        ensures
            value == match self@.get(key@) {
                Some(v) => Some(&v),
                None => None,
            },
    {
        match self.position(key) {
            Some(i) => Some(&self.entries[i].1),
            None => None,
        }
    }

    /// Puts `value` under `key` and hands back what the key held before.
    pub fn insert(&mut self, key: String, value: V) -> (before: Option<V>)
        requires
            old(self).wf(),
        ensures
            final(self).wf(),
            final(self)@ == old(self)@.insert(key@, value),
            before == old(self)@.get(key@),
    {
        let ghost start = self.entries@;
        let before = match self.position(key.as_str()) {
            Some(i) => {
                proof {
                    lemma_as_map_remove(start, i as int);
                }
                let entry = self.entries.remove(i);
                Some(entry.1)
            },
            None => None,
        };
        proof {
            lemma_as_map_dom(self.entries@, key@);
            lemma_as_map_push(self.entries@, key, value);
            assert(keys_distinct(self.entries@.push((key, value)))) by {
                let after = self.entries@.push((key, value));
                assert forall|a: int, b: int| 0 <= a < b < after.len() implies (
                #[trigger] after[a]).0@ != (#[trigger] after[b]).0@ by {
                    assert(after[a] == self.entries@[a]);
                    if b < self.entries@.len() {
                        assert(after[b] == self.entries@[b]);
                    }
                }
            }
            assert(as_map(start).remove(key@).insert(key@, value) =~= as_map(start).insert(
                key@,
                value,
            ));
        }
        self.entries.push((key, value));
        before
    }

    /// Takes `key` out of the table and hands back what it held.
    pub fn remove(&mut self, key: &str) -> (value: Option<V>)
        requires
            old(self).wf(),
        ensures
            final(self).wf(),
            final(self)@ == old(self)@.remove(key@),
            value == old(self)@.get(key@),
    {
        match self.position(key) {
            Some(i) => {
                proof {
                    lemma_as_map_remove(self.entries@, i as int);
                }
                let entry = self.entries.remove(i);
                Some(entry.1)
            },
            None => {
                assert(self@.remove(key@) =~= self@);
                None
            },
        }
    }
}

} // verus!
