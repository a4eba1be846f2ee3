//! A small string-keyed map kept as an association list.
//!
//! Keys are unique; the abstract model is a `Map` from the key's characters
//! to the stored value.

use vstd::prelude::*;

verus! {

/// The map denoted by an association list: later entries are folded in last.
pub open spec fn entries_map<V>(entries: Seq<(String, V)>) -> Map<Seq<char>, V>
    decreases entries.len(),
{
    if entries.len() == 0 {
        Map::empty()
    } else {
        entries_map(entries.drop_last()).insert(entries.last().0@, entries.last().1)
    }
}

/// No two entries share a key.
pub open spec fn keys_unique<V>(entries: Seq<(String, V)>) -> bool {
    forall|i: int, j: int|
        0 <= i < entries.len() && 0 <= j < entries.len() && i != j ==> #[trigger] entries[i].0@
            != #[trigger] entries[j].0@
}

/// Every key of the model is the key of some entry, and every entry's key is in the model.
pub proof fn lemma_entries_map_dom<V>(entries: Seq<(String, V)>, k: Seq<char>)
    ensures
        entries_map(entries).dom().contains(k) <==> exists|i: int|
            0 <= i < entries.len() && #[trigger] entries[i].0@ == k,
    decreases entries.len(),
{
    if entries.len() > 0 {
        let init = entries.drop_last();
        lemma_entries_map_dom(init, k);
        if entries_map(entries).dom().contains(k) {
            if k == entries.last().0@ {
                assert(entries[entries.len() - 1].0@ == k);
            } else {
                let i = choose|i: int| 0 <= i < init.len() && #[trigger] init[i].0@ == k;
                assert(entries[i].0@ == k);
            }
        }
        if exists|i: int| 0 <= i < entries.len() && #[trigger] entries[i].0@ == k {
            let i = choose|i: int| 0 <= i < entries.len() && #[trigger] entries[i].0@ == k;
            if i < entries.len() - 1 {
                assert(init[i].0@ == k);
            }
        }
    }
}

/// With unique keys, the model maps an entry's key to that entry's value.
pub proof fn lemma_entries_map_value<V>(entries: Seq<(String, V)>, i: int)
    requires
        keys_unique(entries),
        0 <= i < entries.len(),
    ensures
        entries_map(entries).dom().contains(entries[i].0@),
        entries_map(entries)[entries[i].0@] == entries[i].1,
    decreases entries.len(),
{
    let init = entries.drop_last();
    if i < entries.len() - 1 {
        assert(keys_unique(init)) by {
            assert forall|a: int, b: int|
                0 <= a < init.len() && 0 <= b < init.len() && a != b implies #[trigger] init[a].0@
                != #[trigger] init[b].0@ by {
                assert(init[a] == entries[a] && init[b] == entries[b]);
            }
        }
        lemma_entries_map_value(init, i);
        assert(init[i] == entries[i]);
        assert(entries[i].0@ != entries[entries.len() - 1].0@);
    }
}

/// Replacing the value of an existing entry updates the model at that key.
pub proof fn lemma_entries_map_update<V>(entries: Seq<(String, V)>, i: int, v: V)
    requires
        keys_unique(entries),
        0 <= i < entries.len(),
    ensures
        entries_map(entries.update(i, (entries[i].0, v))) =~= entries_map(entries).insert(
            entries[i].0@,
            v,
        ),
    decreases entries.len(),
{
    let upd = entries.update(i, (entries[i].0, v));
    let init = entries.drop_last();
    if i == entries.len() - 1 {
        assert(upd.drop_last() =~= init);
        // The key does not occur earlier, so inserting it last is the same as replacing it.
        assert forall|k: Seq<char>| #[trigger]
            entries_map(upd).dom().contains(k) == entries_map(entries).insert(
                entries[i].0@,
                v,
            ).dom().contains(k) by {}
        assert forall|k: Seq<char>| entries_map(upd).dom().contains(k) implies #[trigger] entries_map(
            upd,
        )[k] == entries_map(entries).insert(entries[i].0@, v)[k] by {}
    } else {
        assert(keys_unique(init)) by {
            assert forall|a: int, b: int|
                0 <= a < init.len() && 0 <= b < init.len() && a != b implies #[trigger] init[a].0@
                != #[trigger] init[b].0@ by {
                assert(init[a] == entries[a] && init[b] == entries[b]);
            }
        }
        lemma_entries_map_update(init, i, v);
        assert(upd.drop_last() =~= init.update(i, (init[i].0, v)));
        assert(upd.last() == entries.last());
        assert(entries[i].0@ != entries.last().0@);
    }
}

/// A string-keyed map with unique keys, kept in insertion order.
#[derive(Debug)]
pub struct KeyedMap<V> {
    entries: Vec<(String, V)>,
}

impl<V> KeyedMap<V> {
    /// The abstract model: a map from key characters to values.
    pub closed spec fn view(&self) -> Map<Seq<char>, V> {
        entries_map(self.entries@)
    }

    /// The entries in insertion order.
    pub closed spec fn entry_seq(&self) -> Seq<(String, V)> {
        self.entries@
    }

    /// Keys are unique.
    pub closed spec fn wf(&self) -> bool {
        keys_unique(self.entries@)
    }

    /// An empty map.
    pub fn new() -> (m: Self)
        ensures
            m.wf(),
            m.view() == Map::<Seq<char>, V>::empty(),
            m.entry_seq().len() == 0,
    {
        KeyedMap { entries: Vec::new() }
    }

    /// Number of keys.
    pub fn len(&self) -> (n: usize)
        requires
            self.wf(),
        ensures
            n == self.view().dom().len(),
            n == self.entry_seq().len(),
    {
        proof {
            self.lemma_len();
        }
        self.entries.len()
    }

    /// A well-formed map has finitely many keys, one per entry.
    pub proof fn lemma_len(&self)
        requires
            self.wf(),
        ensures
            self.view().dom().len() == self.entry_seq().len(),
            self.view().dom().finite(),
    {
        lemma_dom_len(self.entries@);
    }

    /// Whether no key is present.
    pub fn is_empty(&self) -> (b: bool)
        requires
            self.wf(),
        ensures
            b <==> self.view().dom().len() == 0,
    {
        self.len() == 0
    }

    /// Index of the entry with the given key, if any.
    fn position(&self, key: &str) -> (r: Option<usize>)
        requires
            self.wf(),
        ensures
            match r {
                Some(i) => i < self.entries@.len() && self.entries@[i as int].0@ == key@,
                None => forall|j: int|
                    0 <= j < self.entries@.len() ==> #[trigger] self.entries@[j].0@ != key@,
            },
    {
        let mut i: usize = 0;
        while i < self.entries.len()
            invariant
                i <= self.entries@.len(),
                forall|j: int| 0 <= j < i ==> #[trigger] self.entries@[j].0@ != key@,
            decreases self.entries@.len() - i,
        {
            if str_equal(self.entries[i].0.as_str(), key) {
                return Some(i);
            }
            i = i + 1;
        }
        None
    }

    /// Looks a key up.
    pub fn get(&self, key: &str) -> (r: Option<&V>)
        requires
            self.wf(),
        ensures
            match r {
                Some(v) => self.view().dom().contains(key@) && self.view()[key@] == *v,
                None => !self.view().dom().contains(key@),
            },
    {
        match self.position(key) {
            Some(i) => {
                proof {
                    lemma_entries_map_value(self.entries@, i as int);
                }
                Some(&self.entries[i].1)
            },
            None => {
                proof {
                    lemma_entries_map_dom(self.entries@, key@);
                }
                None
            },
        }
    }

    /// Whether the key is present.
    pub fn contains_key(&self, key: &str) -> (b: bool)
        requires
            self.wf(),
        ensures
            b == self.view().dom().contains(key@),
    {
        self.get(key).is_some()
    }

    /// Inserts or replaces the value under `key`.
    pub fn insert(&mut self, key: String, value: V)
        requires
            old(self).wf(),
        ensures
            final(self).wf(),
            final(self).view() == old(self).view().insert(key@, value),
    {
        match self.position(key.as_str()) {
            Some(i) => {
                let ghost old_entries = self.entries@;
                proof {
                    lemma_entries_map_update(old_entries, i as int, value);
                }
                let old_key = self.entries.remove(i);
                self.entries.insert(i, (old_key.0, value));
                assert(self.entries@ =~= old_entries.update(i as int, (old_entries[i as int].0, value)));
                assert(keys_unique(self.entries@)) by {
                    assert forall|a: int, b: int|
                        0 <= a < self.entries@.len() && 0 <= b < self.entries@.len() && a != b implies
                        #[trigger] self.entries@[a].0@ != #[trigger] self.entries@[b].0@ by {
                        assert(self.entries@[a].0 == old_entries[a].0);
                        assert(self.entries@[b].0 == old_entries[b].0);
                    }
                }
            },
            None => {
                let ghost old_entries = self.entries@;
                self.entries.push((key, value));
                assert(self.entries@.drop_last() =~= old_entries);
                assert(keys_unique(self.entries@)) by {
                    assert forall|a: int, b: int|
                        0 <= a < self.entries@.len() && 0 <= b < self.entries@.len() && a != b implies
                        #[trigger] self.entries@[a].0@ != #[trigger] self.entries@[b].0@ by {
                        if a < old_entries.len() {
                            assert(self.entries@[a] == old_entries[a]);
                        }
                        if b < old_entries.len() {
                            assert(self.entries@[b] == old_entries[b]);
                        }
                    }
                }
            },
        }
    }

    /// Removes the entry under `key`, returning its value if there was one.
    pub fn remove(&mut self, key: &str) -> (r: Option<V>)
        requires
            old(self).wf(),
        ensures
            final(self).wf(),
            final(self).view() == old(self).view().remove(key@),
            match r {
                Some(v) => old(self).view().dom().contains(key@) && old(self).view()[key@] == v,
                None => !old(self).view().dom().contains(key@),
            },
    {
        match self.position(key) {
            Some(i) => {
                let ghost before = self.entries@;
                proof {
                    lemma_entries_map_value(before, i as int);
                    lemma_entries_map_remove(before, i as int);
                }
                let (_k, v) = self.entries.remove(i);
                assert(self.entries@ == before.remove(i as int));
                Some(v)
            },
            None => {
                proof {
                    lemma_entries_map_dom(self.entries@, key@);
                }
                assert(self.view() =~= self.view().remove(key@));
                None
            },
        }
    }

    /// The entry at a position in insertion order.
    pub fn entry_at(&self, i: usize) -> (r: (&String, &V))
        requires
            i < self.entry_seq().len(),
        ensures
            *r.0 == self.entry_seq()[i as int].0,
            *r.1 == self.entry_seq()[i as int].1,
    {
        (&self.entries[i].0, &self.entries[i].1)
    }

    /// Number of entries (equal to `len` for a well-formed map).
    pub fn entry_count(&self) -> (n: usize)
        ensures
            n == self.entry_seq().len(),
    {
        self.entries.len()
    }

    /// The model is the fold of the entries.
    pub proof fn lemma_view_is_entries(&self)
        ensures
            self.view() == entries_map(self.entry_seq()),
    {
    }

    /// The well-formedness predicate is uniqueness of the keys.
    pub proof fn lemma_wf_is_unique(&self)
        ensures
            self.wf() == keys_unique(self.entry_seq()),
    {
    }
}

/// Removing the entry at `i` removes its key from the model and keeps the keys unique.
pub proof fn lemma_entries_map_remove<V>(entries: Seq<(String, V)>, i: int)
    requires
        keys_unique(entries),
        0 <= i < entries.len(),
    ensures
        keys_unique(entries.remove(i)),
        entries_map(entries.remove(i)) =~= entries_map(entries).remove(entries[i].0@),
    decreases entries.len(),
{
    let init = entries.drop_last();
    let k = entries[i].0@;
    assert(keys_unique(init)) by {
        assert forall|a: int, b: int|
            0 <= a < init.len() && 0 <= b < init.len() && a != b implies #[trigger] init[a].0@
            != #[trigger] init[b].0@ by {
            assert(init[a] == entries[a] && init[b] == entries[b]);
        }
    }
    let rem = entries.remove(i);
    assert(keys_unique(rem)) by {
        assert forall|a: int, b: int|
            0 <= a < rem.len() && 0 <= b < rem.len() && a != b implies #[trigger] rem[a].0@
            != #[trigger] rem[b].0@ by {
            let ea = if a < i { a } else { a + 1 };
            let eb = if b < i { b } else { b + 1 };
            assert(rem[a] == entries[ea]);
            assert(rem[b] == entries[eb]);
        }
    }
    if i == entries.len() - 1 {
        assert(rem =~= init);
        lemma_entries_map_dom(init, k);
        if entries_map(init).dom().contains(k) {
            let j = choose|j: int| 0 <= j < init.len() && #[trigger] init[j].0@ == k;
            assert(entries[j].0@ == entries[i].0@);
        }
    } else {
        lemma_entries_map_remove(init, i);
        assert(rem =~= init.remove(i).push(entries.last()));
        assert(rem.drop_last() =~= init.remove(i));
        assert(init[i] == entries[i]);
        assert(entries[i].0@ != entries[entries.len() - 1].0@);
    }
}

/// A map with unique keys has as many keys as entries.
proof fn lemma_dom_len<V>(entries: Seq<(String, V)>)
    requires
        keys_unique(entries),
    ensures
        entries_map(entries).dom().finite(),
        entries_map(entries).dom().len() == entries.len(),
    decreases entries.len(),
{
    if entries.len() > 0 {
        let init = entries.drop_last();
        assert(keys_unique(init)) by {
            assert forall|a: int, b: int|
                0 <= a < init.len() && 0 <= b < init.len() && a != b implies #[trigger] init[a].0@
                != #[trigger] init[b].0@ by {
                assert(init[a] == entries[a] && init[b] == entries[b]);
            }
        }
        lemma_dom_len(init);
        lemma_entries_map_dom(init, entries.last().0@);
        if entries_map(init).dom().contains(entries.last().0@) {
            let i = choose|i: int| 0 <= i < init.len() && #[trigger] init[i].0@ == entries.last().0@;
            assert(entries[i].0@ == entries[entries.len() - 1].0@);
        }
    }
}

/// String equality by characters.
pub fn str_equal(a: &str, b: &str) -> (r: bool)
    ensures
        r == (a@ == b@),
{
    let sa = a.to_owned();
    let sb = b.to_owned();
    sa == sb
}

} // verus!
