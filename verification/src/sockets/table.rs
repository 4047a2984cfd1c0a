//! A table with one entry per connection.
use crate::sockets::AddrPair;
use vstd::prelude::*;

verus! {

/// Values by the two addresses of a connection.
pub struct AddrTable<V> {
    entries: Vec<(AddrPair, V)>,
}

/// No two entries have the same key.
spec fn distinct_keys<V>(entries: Seq<(AddrPair, V)>) -> bool {
    forall|i: int, j: int|
        0 <= i < j < entries.len() ==> (#[trigger] entries[i]).0 != (#[trigger] entries[j]).0
}

/// The entries as a map.
spec fn entries_map<V>(entries: Seq<(AddrPair, V)>) -> Map<AddrPair, V>
    decreases entries.len(),
{
    if entries.len() == 0 {
        Map::empty()
    } else {
        entries_map(entries.drop_last()).insert(entries.last().0, entries.last().1)
    }
}

/// Every key of the map stands in some entry, and every entry is in the map.
proof fn lemma_entries_map<V>(entries: Seq<(AddrPair, V)>)
    requires
        distinct_keys(entries),
    ensures
        entries_map(entries).dom().finite(),
        entries_map(entries).len() == entries.len(),
        forall|i: int|
            0 <= i < entries.len() ==> entries_map(entries).contains_key(
                (#[trigger] entries[i]).0,
            ) && entries_map(entries)[entries[i].0] == entries[i].1,
        forall|k: AddrPair| #[trigger]
            entries_map(entries).contains_key(k) ==> exists|i: int|
                0 <= i < entries.len() && (#[trigger] entries[i]).0 == k,
    decreases entries.len(),
{
    if entries.len() > 0 {
        let front = entries.drop_last();
        lemma_entries_map(front);
        let last = entries.last();
        assert(!entries_map(front).contains_key(last.0)) by {
            if entries_map(front).contains_key(last.0) {
                let i = choose|i: int| 0 <= i < front.len() && (#[trigger] front[i]).0 == last.0;
                assert(entries[i].0 == entries[entries.len() - 1].0);
            }
        }
        assert forall|i: int| 0 <= i < entries.len() implies entries_map(entries).contains_key(
            (#[trigger] entries[i]).0,
        ) && entries_map(entries)[entries[i].0] == entries[i].1 by {
            if i < front.len() {
                assert(front[i] == entries[i]);
                assert(entries[i].0 != entries[entries.len() - 1].0);
            }
        }
        assert forall|k: AddrPair| #[trigger] entries_map(entries).contains_key(k) implies exists|
            i: int,
        | 0 <= i < entries.len() && (#[trigger] entries[i]).0 == k by {
            if k == last.0 {
                assert(entries[entries.len() - 1].0 == k);
            } else {
                let i = choose|i: int| 0 <= i < front.len() && (#[trigger] front[i]).0 == k;
                assert(entries[i].0 == k);
            }
        }
    }
}

impl<V> View for AddrTable<V> {
    type V = Map<AddrPair, V>;

    closed spec fn view(&self) -> Map<AddrPair, V> {
        entries_map(self.entries@)
    }
}

impl<V> AddrTable<V> {
    /// There is at most one entry for a key.
    pub closed spec fn wf(self) -> bool {
        distinct_keys(self.entries@)
    }

    /// What a caller may know of the view of a table.
    pub proof fn lemma_view(self)
        requires
            self.wf(),
        ensures
            self@.dom().finite(),
    {
        lemma_entries_map(self.entries@);
    }

    /// A table without entries.
    pub fn new() -> (r: Self)
        ensures
            r.wf(),
            r@ == Map::<AddrPair, V>::empty(),
    {
        AddrTable { entries: Vec::new() }
    }

    /// Where the entry for `key` stands.
    fn position(&self, key: &AddrPair) -> (r: Option<usize>)
        requires
            self.wf(),
        ensures
            r is None ==> !self@.contains_key(*key),
            r is Some ==> r->Some_0 < self.entries@.len() && self.entries@[r->Some_0 as int].0
                == *key && self@.contains_key(*key) && self@[*key]
                == self.entries@[r->Some_0 as int].1,
    {
        proof {
            lemma_entries_map(self.entries@);
        }
        let mut i: usize = 0;
        while i < self.entries.len()
            invariant
                self.wf(),
                i <= self.entries.len(),
                forall|j: int| 0 <= j < i ==> (#[trigger] self.entries@[j]).0 != *key,
            decreases self.entries.len() - i,
        {
            if self.entries[i].0 == *key {
                proof {
                    lemma_entries_map(self.entries@);
                }
                return Some(i);
            }
            i = i + 1;
        }
        None
    }

    /// The number of entries.
    pub fn len(&self) -> (r: usize)
        requires
            self.wf(),
        ensures
            r == self@.len(),
    {
        proof {
            lemma_entries_map(self.entries@);
        }
        self.entries.len()
    }

    /// Whether there is an entry for `key`.
    pub fn contains_key(&self, key: &AddrPair) -> (r: bool)
        requires
            self.wf(),
        ensures
            r == self@.contains_key(*key),
    {
        self.position(key).is_some()
    }

    /// The value for `key`.
    pub fn get(&self, key: &AddrPair) -> (r: Option<&V>)
        requires
            self.wf(),
        ensures
            r is Some <==> self@.contains_key(*key),
            r is Some ==> *r->Some_0 == self@[*key],
    {
        match self.position(key) {
            None => None,
            Some(i) => Some(&self.entries[i].1),
        }
    }

    /// The value for `key`, to be changed in place.
    pub fn get_mut(&mut self, key: &AddrPair) -> (r: Option<&mut V>)
        requires
            old(self).wf(),
        ensures
            final(self).wf(),
            r is Some <==> old(self)@.contains_key(*key),
            r is None ==> final(self)@ == old(self)@,
            r is Some ==> *r->Some_0 == old(self)@[*key] && final(self)@ == old(self)@.insert(
                *key,
                *final(r->Some_0),
            ),
    {
        match self.position(key) {
            None => None,
            Some(i) => {
                let ghost before = self.entries@;
                let entry = &mut self.entries[i];
                proof {
                    lemma_update(before, i as int, final(entry).1);
                    assert(after_borrow(self.entries)@ == before.update(i as int, *final(entry)));
                }
                Some(&mut entry.1)
            },
        }
    }

    /// Sets the value for `key` and returns the one that it had.
    pub fn insert(&mut self, key: AddrPair, value: V) -> (r: Option<V>)
        requires
            old(self).wf(),
        ensures
            final(self).wf(),
            final(self)@ == old(self)@.insert(key, value),
            r is Some <==> old(self)@.contains_key(key),
            r is Some ==> r->Some_0 == old(self)@[key],
    {
        match self.position(&key) {
            None => {
                proof {
                    lemma_entries_map(self.entries@);
                }
                let ghost before = self.entries@;
                self.entries.push((key, value));
                assert(self.entries@.drop_last() =~= before);
                assert forall|i: int, j: int| 0 <= i < j < self.entries@.len() implies (
                #[trigger] self.entries@[i]).0 != (#[trigger] self.entries@[j]).0 by {
                    assert(before[i].0 != key);
                }
                None
            },
            Some(i) => {
                let ghost before = self.entries@;
                self.entries.push((key, value));
                let old_entry = self.entries.swap_remove(i);
                proof {
                    lemma_update(before, i as int, value);
                    assert(self.entries@ =~= before.update(i as int, (key, value)));
                }
                Some(old_entry.1)
            },
        }
    }

    /// Takes the entry for `key` out of the table and returns its value.
    pub fn remove(&mut self, key: &AddrPair) -> (r: Option<V>)
        requires
            old(self).wf(),
        ensures
            final(self).wf(),
            final(self)@ == old(self)@.remove(*key),
            r is Some <==> old(self)@.contains_key(*key),
            r is Some ==> r->Some_0 == old(self)@[*key],
    {
        match self.position(key) {
            None => {
                assert(self@.remove(*key) =~= self@);
                None
            },
            Some(i) => {
                let ghost before = self.entries@;
                let entry = self.entries.swap_remove(i);
                proof {
                    lemma_swap_remove(before, self.entries@, i as int);
                }
                Some(entry.1)
            },
        }
    }
}

/// Changing the value of an entry changes the map at its key.
proof fn lemma_update<V>(entries: Seq<(AddrPair, V)>, i: int, value: V)
    requires
        distinct_keys(entries),
        0 <= i < entries.len(),
    ensures
        distinct_keys(entries.update(i, (entries[i].0, value))),
        entries_map(entries.update(i, (entries[i].0, value))) == entries_map(entries).insert(
            entries[i].0,
            value,
        ),
{
    let after = entries.update(i, (entries[i].0, value));
    assert forall|j: int, k: int| 0 <= j < k < after.len() implies (#[trigger] after[j]).0 != (
    #[trigger] after[k]).0 by {
        assert(entries[j].0 != entries[k].0);
    }
    lemma_entries_map(entries);
    lemma_entries_map(after);
    let m = entries_map(entries).insert(entries[i].0, value);
    assert forall|k: AddrPair| #[trigger]
        entries_map(after).contains_key(k) == m.contains_key(k) by {
        if entries_map(after).contains_key(k) {
            let j = choose|j: int| 0 <= j < after.len() && (#[trigger] after[j]).0 == k;
            assert(entries[j].0 == k);
        }
        if m.contains_key(k) {
            let j = if k == entries[i].0 {
                i
            } else {
                choose|j: int| 0 <= j < entries.len() && (#[trigger] entries[j]).0 == k
            };
            assert(after[j].0 == k);
        }
    }
    assert forall|k: AddrPair| #[trigger]
        entries_map(after).contains_key(k) implies entries_map(after)[k] == m[k] by {
        let j = choose|j: int| 0 <= j < after.len() && (#[trigger] after[j]).0 == k;
        assert(entries[j].0 == k);
        if j != i {
            assert(entries[j].0 != entries[i].0);
        }
    }
    assert(entries_map(after) =~= m);
}

/// Taking an entry out takes its key out of the map.
proof fn lemma_swap_remove<V>(entries: Seq<(AddrPair, V)>, after: Seq<(AddrPair, V)>, i: int)
    requires
        distinct_keys(entries),
        0 <= i < entries.len(),
        after == entries.update(i, entries.last()).drop_last(),
    ensures
        distinct_keys(after),
        entries_map(after) == entries_map(entries).remove(entries[i].0),
{
    let last = entries.len() - 1;
    assert forall|j: int, k: int| 0 <= j < k < after.len() implies (#[trigger] after[j]).0 != (
    #[trigger] after[k]).0 by {
        assert(entries[j].0 != entries[k].0);
        assert(entries[j].0 != entries[last].0);
        assert(entries[k].0 != entries[last].0);
    }
    lemma_entries_map(entries);
    lemma_entries_map(after);
    let m = entries_map(entries).remove(entries[i].0);
    assert forall|k: AddrPair| #[trigger]
        entries_map(after).contains_key(k) == m.contains_key(k) by {
        if entries_map(after).contains_key(k) {
            let j = choose|j: int| 0 <= j < after.len() && (#[trigger] after[j]).0 == k;
            let origin = if j == i {
                last
            } else {
                j
            };
            assert(entries[origin].0 == k);
            assert(entries[origin].0 != entries[i].0);
        }
        if m.contains_key(k) {
            let j = choose|j: int| 0 <= j < entries.len() && (#[trigger] entries[j]).0 == k;
            assert(j != i);
            if j == last {
                assert(after[i].0 == k);
            } else {
                assert(after[j].0 == k);
            }
        }
    }
    assert forall|k: AddrPair| #[trigger]
        entries_map(after).contains_key(k) implies entries_map(after)[k] == m[k] by {
        let j = choose|j: int| 0 <= j < after.len() && (#[trigger] after[j]).0 == k;
        let origin = if j == i {
            last
        } else {
            j
        };
        assert(entries[origin] == after[j]);
    }
    assert(entries_map(after) =~= m);
}

} // verus!
