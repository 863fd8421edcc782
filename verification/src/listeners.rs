//! A table of event listeners, each under the key it was registered with.
//! The table keeps the order of registration, so that the listeners an
//! event fires, and the order in which it fires them, follow from the table
//! alone.

use vstd::prelude::*;

verus! {

/// The keys of the entries, in the entries' order.
pub open spec fn keys_of<H>(entries: Seq<(u32, H)>) -> Seq<u32> {
    entries.map_values(|entry: (u32, H)| entry.0)
}

/// The entries without those under `key`, in the same order.
pub open spec fn without<H>(entries: Seq<(u32, H)>, key: u32) -> Seq<(u32, H)>
    decreases entries.len(),
{
    if entries.len() == 0 {
        entries
    } else if entries.last().0 == key {
        without(entries.drop_last(), key)
    } else {
        without(entries.drop_last(), key).push(entries.last())
    }
}

/// The listener under `key`, `None` where nothing is registered under it.
pub open spec fn listener_at<H>(entries: Seq<(u32, H)>, key: u32) -> Option<H>
    decreases entries.len(),
{
    if entries.len() == 0 {
        None
    } else if entries.last().0 == key {
        Some(entries.last().1)
    } else {
        listener_at(entries.drop_last(), key)
    }
}

/// The keys grow from each entry to the next, so no key stands twice.
pub open spec fn keys_ascend<H>(entries: Seq<(u32, H)>) -> bool {
    forall|i: int, j: int|
        0 <= i < j < entries.len() ==> (#[trigger] entries[i]).0 < (#[trigger] entries[j]).0
}

/// No key is above `limit`.
pub open spec fn keys_within<H>(entries: Seq<(u32, H)>, limit: int) -> bool {
    forall|i: int| 0 <= i < entries.len() ==> (#[trigger] entries[i]).0 <= limit
}

/// Entries that do not hold `key` stay as they are.
pub proof fn lemma_without_absent<H>(entries: Seq<(u32, H)>, key: u32)
    requires
        forall|i: int| 0 <= i < entries.len() ==> (#[trigger] entries[i]).0 != key,
    ensures
        without(entries, key) == entries,
        listener_at(entries, key) is None,
    decreases entries.len(),
{
    if entries.len() > 0 {
        let front = entries.drop_last();
        assert forall|i: int| 0 <= i < front.len() implies (#[trigger] front[i]).0 != key by {
            assert(front[i] == entries[i]);
        }
        lemma_without_absent(front, key);
        assert(entries.last() == entries[entries.len() - 1]);
        assert(front.push(entries.last()) =~= entries);
    }
}

/// Where `key` stands at `i` and nowhere else, taking it out removes the
/// entry at `i`.
pub proof fn lemma_without_at<H>(entries: Seq<(u32, H)>, key: u32, i: int)
    requires
        0 <= i < entries.len(),
        entries[i].0 == key,
        forall|j: int| 0 <= j < entries.len() && j != i ==> (#[trigger] entries[j]).0 != key,
    ensures
        without(entries, key) == entries.remove(i),
        listener_at(entries, key) == Some(entries[i].1),
    decreases entries.len(),
{
    let front = entries.drop_last();
    if i == entries.len() - 1 {
        assert forall|j: int| 0 <= j < front.len() implies (#[trigger] front[j]).0 != key by {
            assert(front[j] == entries[j]);
        }
        lemma_without_absent(front, key);
        assert(entries.remove(i) =~= front);
    } else {
        assert(entries.last() == entries[entries.len() - 1]);
        assert(front[i] == entries[i]);
        assert forall|j: int| 0 <= j < front.len() && j != i implies (#[trigger] front[j]).0
            != key by {
            assert(front[j] == entries[j]);
        }
        lemma_without_at(front, key, i);
        assert(front.remove(i).push(entries.last()) =~= entries.remove(i));
    }
}

/// Among ascending entries the key at `i` stands nowhere else, so the table
/// finds the listener at `i` under it.
pub proof fn lemma_listener_at<H>(entries: Seq<(u32, H)>, i: int)
    requires
        keys_ascend(entries),
        0 <= i < entries.len(),
    ensures
        listener_at(entries, entries[i].0) == Some(entries[i].1),
        without(entries, entries[i].0) == entries.remove(i),
        forall|j: int| 0 <= j < entries.len() && j != i ==> (#[trigger] entries[j]).0 != entries[i].0,
{
    assert forall|j: int| 0 <= j < entries.len() && j != i implies (#[trigger] entries[j]).0
        != entries[i].0 by {
        if j < i {
            assert(entries[j].0 < entries[i].0);
        } else {
            assert(entries[i].0 < entries[j].0);
        }
    }
    lemma_without_at(entries, entries[i].0, i);
}

/// Taking the entry at `i` out of ascending entries leaves ascending
/// entries that hold every other key with its listener.
proof fn lemma_remove_keeps<H>(entries: Seq<(u32, H)>, i: int)
    requires
        keys_ascend(entries),
        0 <= i < entries.len(),
    ensures
        keys_ascend(entries.remove(i)),
        !keys_of(entries.remove(i)).contains(entries[i].0),
        forall|other: u32|
            other != entries[i].0 ==> listener_at(entries.remove(i), other) == listener_at(
                entries,
                other,
            ),
{
    let rest = entries.remove(i);
    assert(keys_ascend(rest)) by {
        assert forall|a: int, b: int| 0 <= a < b < rest.len() implies (#[trigger] rest[a]).0 < (
        #[trigger] rest[b]).0 by {
            let a0 = if a < i { a } else { a + 1 };
            let b0 = if b < i { b } else { b + 1 };
            assert(rest[a] == entries[a0]);
            assert(rest[b] == entries[b0]);
            assert(entries[a0].0 < entries[b0].0);
        }
    }
    lemma_listener_at(entries, i);
    assert(!keys_of(rest).contains(entries[i].0)) by {
        if keys_of(rest).contains(entries[i].0) {
            let a = choose|a: int| 0 <= a < keys_of(rest).len() && keys_of(rest)[a] == entries[i].0;
            let a0 = if a < i { a } else { a + 1 };
            assert(rest[a] == entries[a0]);
            assert(entries[a0].0 != entries[i].0);
        }
    }
    assert forall|other: u32| other != entries[i].0 implies listener_at(rest, other)
        == listener_at(entries, other) by {
        if exists|j: int| 0 <= j < entries.len() && (#[trigger] entries[j]).0 == other {
            let j = choose|j: int| 0 <= j < entries.len() && (#[trigger] entries[j]).0 == other;
            let j1 = if j < i { j } else { j - 1 };
            assert(rest[j1] == entries[j]);
            lemma_listener_at(entries, j);
            lemma_listener_at(rest, j1);
        } else {
            assert forall|j: int| 0 <= j < rest.len() implies (#[trigger] rest[j]).0 != other by {
                let j0 = if j < i { j } else { j + 1 };
                assert(rest[j] == entries[j0]);
                assert(entries[j0].0 != other);
            }
            lemma_without_absent(entries, other);
            lemma_without_absent(rest, other);
        }
    }
}

/// Taking a key out of ascending entries leaves ascending entries: the key
/// is gone, and every other key still has its listener.
pub proof fn lemma_without_keeps<H>(entries: Seq<(u32, H)>, key: u32)
    requires
        keys_ascend(entries),
    ensures
        keys_ascend(without(entries, key)),
        !keys_of(without(entries, key)).contains(key),
        listener_at(without(entries, key), key) is None,
        forall|other: u32|
            other != key ==> listener_at(without(entries, key), other) == listener_at(
                entries,
                other,
            ),
        forall|limit: int| keys_within(entries, limit) ==> keys_within(without(entries, key), limit),
{
    if exists|i: int| 0 <= i < entries.len() && (#[trigger] entries[i]).0 == key {
        let i = choose|i: int| 0 <= i < entries.len() && (#[trigger] entries[i]).0 == key;
        lemma_listener_at(entries, i);
        lemma_remove_keeps(entries, i);
        let rest = entries.remove(i);
        assert forall|limit: int| keys_within(entries, limit) implies keys_within(
            rest,
            limit,
        ) by {
            assert forall|a: int| 0 <= a < rest.len() implies (#[trigger] rest[a]).0 <= limit by {
                let a0 = if a < i { a } else { a + 1 };
                assert(rest[a] == entries[a0]);
                assert(entries[a0].0 <= limit);
            }
        }
        assert forall|j: int| 0 <= j < rest.len() implies (#[trigger] rest[j]).0 != key by {
            assert(keys_of(rest)[j] == rest[j].0);
        }
        lemma_without_absent(rest, key);
    } else {
        lemma_without_absent(entries, key);
        assert(!keys_of(entries).contains(key)) by {
            if keys_of(entries).contains(key) {
                let a = choose|a: int| 0 <= a < keys_of(entries).len() && keys_of(entries)[a] == key;
                assert(entries[a].0 == key);
            }
        }
    }
}

/// A key above all the keys of ascending entries can join them at the end.
pub proof fn lemma_push_keeps<H>(entries: Seq<(u32, H)>, key: u32, listener: H)
    requires
        keys_ascend(entries),
        keys_within(entries, key - 1),
    ensures
        keys_ascend(entries.push((key, listener))),
        keys_within(entries.push((key, listener)), key as int),
        listener_at(entries.push((key, listener)), key) == Some(listener),
        forall|other: u32|
            other != key ==> listener_at(entries.push((key, listener)), other) == listener_at(
                entries,
                other,
            ),
        keys_of(entries.push((key, listener))) == keys_of(entries).push(key),
{
    let after = entries.push((key, listener));
    assert(after.drop_last() =~= entries);
    assert forall|a: int, b: int| 0 <= a < b < after.len() implies (#[trigger] after[a]).0 < (
    #[trigger] after[b]).0 by {
        assert(after[a] == entries[a]);
        if b < entries.len() {
            assert(after[b] == entries[b]);
        }
    }
    assert forall|a: int| 0 <= a < after.len() implies (#[trigger] after[a]).0 <= key by {
        if a < entries.len() {
            assert(after[a] == entries[a]);
        }
    }
    assert(keys_of(after) =~= keys_of(entries).push(key));
}

/// Event listeners in the order in which they were registered, each under
/// its key.
pub struct Listeners<H> {
    entries: Vec<(u32, H)>,
}

impl<H> View for Listeners<H> {
    type V = Seq<(u32, H)>;

    /// The registered listeners with their keys, oldest first.
    closed spec fn view(&self) -> Seq<(u32, H)> {
        self.entries@
    }
}

impl<H> Listeners<H> {
    /// No key stands twice: the keys grow in the order of registration.
    pub open spec fn wf(&self) -> bool {
        keys_ascend(self@)
    }

    /// No listener is registered.
    pub fn new() -> (table: Listeners<H>)
        ensures
            table.wf(),
            table@ == Seq::<(u32, H)>::empty(),
    {
        Listeners { entries: Vec::new() }
    }

    /// Registers `listener` under `key`, behind the listeners that are
    /// there.
    pub fn insert(&mut self, key: u32, listener: H)
        requires
            old(self).wf(),
            keys_within(old(self)@, key - 1),
        ensures
            final(self).wf(),
            final(self)@ == old(self)@.push((key, listener)),
    {
        proof {
            lemma_push_keeps(self@, key, listener);
        }
        self.entries.push((key, listener));
    }

    /// Where `key` stands among the entries.
    fn position(&self, key: u32) -> (found: Option<usize>)
        ensures
            found is Some ==> found->0 < self@.len() && self@[found->0 as int].0 == key,
            found is Some ==> forall|j: int| 0 <= j < found->0 ==> (#[trigger] self@[j]).0 != key,
            found is None ==> forall|j: int| 0 <= j < self@.len() ==> (#[trigger] self@[j]).0 != key,
    {
        let mut i: usize = 0;
        while i < self.entries.len()
            invariant
                i <= self.entries@.len(),
                forall|j: int| 0 <= j < i ==> (#[trigger] self.entries@[j]).0 != key,
            decreases self.entries@.len() - i,
        {
            if self.entries[i].0 == key {
                return Some(i);
            }
            i = i + 1;
        }
        None
    }

    /// Takes the listener under `key` out of the table.
    pub fn remove(&mut self, key: u32) -> (listener: Option<H>)
        requires
            old(self).wf(),
        ensures
            final(self).wf(),
            final(self)@ == without(old(self)@, key),
            listener == listener_at(old(self)@, key),
    {
        proof {
            lemma_without_keeps(self@, key);
        }
        match self.position(key) {
            Some(i) => {
                proof {
                    lemma_listener_at(self@, i as int);
                }
                let entry = self.entries.remove(i);
                Some(entry.1)
            },
            None => {
                proof {
                    lemma_without_absent(self@, key);
                }
                None
            },
        }
    }

    /// The listener under `key`.
    pub fn get<'a>(&'a self, key: u32) -> (listener: Option<&'a H>)
        requires
            self.wf(),
        ensures
            listener == match listener_at(self@, key) {
                Some(l) => Some(&l),
                None => None,
            },
    {
        match self.position(key) {
            Some(i) => {
                proof {
                    lemma_listener_at(self@, i as int);
                }
                Some(&self.entries[i].1)
            },
            None => {
                proof {
                    lemma_without_absent(self@, key);
                }
                None
            },
        }
    }

    /// The keys of the listeners that are registered now, oldest first.
    pub fn keys(&self) -> (keys: Vec<u32>)
        ensures
            keys@ == keys_of(self@),
    {
        let mut keys: Vec<u32> = Vec::new();
        let mut i: usize = 0;
        while i < self.entries.len()
            invariant
                i <= self.entries@.len(),
                keys@ =~= keys_of(self@.take(i as int)),
            decreases self.entries@.len() - i,
        {
            keys.push(self.entries[i].0);
            i = i + 1;
        }
        proof {
            assert(self@.take(i as int) =~= self@);
        }
        keys
    }
}

} // verus!
