//! The header of a fragment: a mapping from field names to values that keeps
//! the order in which the fields were set.

use vstd::prelude::*;
use crate::fragment::FragmentData;
use crate::fragment::FragmentValue;

verus! {

/// The place of the first entry at or after `from` whose key is `key`, or the
/// length of `entries` where there is none.
pub open spec fn first_index<V>(entries: Seq<(Seq<char>, V)>, key: Seq<char>, from: int) -> int
    decreases entries.len() - from,
{
    if from < 0 || from >= entries.len() {
        entries.len() as int
    } else if entries[from].0 == key {
        from
    } else {
        first_index(entries, key, from + 1)
    }
}

/// Whether some entry has the key `key`.
pub open spec fn has_key<V>(entries: Seq<(Seq<char>, V)>, key: Seq<char>) -> bool {
    first_index(entries, key, 0) < entries.len()
}

/// The value of the first entry whose key is `key`.
pub open spec fn lookup<V>(entries: Seq<(Seq<char>, V)>, key: Seq<char>) -> Option<V> {
    let i = first_index(entries, key, 0);
    if i < entries.len() {
        Some(entries[i].1)
    } else {
        None
    }
}

/// The entries after `key` was set to `value`: an entry with that key keeps
/// its place and gets the value; otherwise a new entry comes last.
pub open spec fn put<V>(entries: Seq<(Seq<char>, V)>, key: Seq<char>, value: V) -> Seq<
    (Seq<char>, V),
> {
    let i = first_index(entries, key, 0);
    if i < entries.len() {
        entries.update(i, (key, value))
    } else {
        entries.push((key, value))
    }
}

/// Whether no two entries have the same key.
pub open spec fn distinct_keys<V>(entries: Seq<(Seq<char>, V)>) -> bool {
    forall|i: int, j: int|
        0 <= i < j < entries.len() ==> (#[trigger] entries[i]).0 != (#[trigger] entries[j]).0
}

/// The keys of `entries`, in order.
pub open spec fn keys_of<V>(entries: Seq<(Seq<char>, V)>) -> Seq<Seq<char>> {
    Seq::new(entries.len(), |i: int| entries[i].0)
}

/// `first_index` gives the first entry with the key, if there is one.
pub proof fn lemma_first_index<V>(entries: Seq<(Seq<char>, V)>, key: Seq<char>, from: int)
    requires
        0 <= from <= entries.len(),
    ensures
        from <= first_index(entries, key, from) <= entries.len(),
        first_index(entries, key, from) < entries.len() ==> entries[first_index(
            entries,
            key,
            from,
        )].0 == key,
        forall|k: int| from <= k < first_index(entries, key, from) ==> (#[trigger] entries[k]).0 != key,
    decreases entries.len() - from,
{
    if from < entries.len() && entries[from].0 != key {
        lemma_first_index(entries, key, from + 1);
    }
}

/// After `put`, the key has the new value and every other key has what it had.
pub proof fn lemma_put_lookup<V>(
    entries: Seq<(Seq<char>, V)>,
    key: Seq<char>,
    value: V,
    other: Seq<char>,
)
    ensures
        lookup(put(entries, key, value), key) == Some(value),
        other != key ==> lookup(put(entries, key, value), other) == lookup(entries, other),
{
    let after = put(entries, key, value);
    let i = first_index(entries, key, 0);
    lemma_first_index(entries, key, 0);
    lemma_first_index(after, key, 0);
    lemma_first_index(entries, other, 0);
    lemma_first_index(after, other, 0);
    assert(forall|k: int| 0 <= k < entries.len() ==> (#[trigger] after[k]).0 == entries[k].0);
    let a = first_index(after, key, 0);
    assert(after[i].0 == key);
    if a < i {
        assert(after[a].0 == key);
        assert(entries[a].0 != key);
    }
    if i < a {
        assert(after[i].0 != key);
    }
    assert(a == i);
    if other != key {
        let x = first_index(entries, other, 0);
        let y = first_index(after, other, 0);
        if x < y && x < entries.len() {
            assert(entries[x].0 == other);
            assert(after[x].0 != other);
        }
        if y < x {
            assert(after[y].0 == other);
            if y < entries.len() {
                assert(entries[y].0 != other);
            }
        }
        assert(x == y || (x == entries.len() && y == after.len()));
        if x < entries.len() {
            assert(after[x].1 == entries[x].1);
        }
    }
}

/// `put` keeps keys distinct.
pub proof fn lemma_put_distinct<V>(entries: Seq<(Seq<char>, V)>, key: Seq<char>, value: V)
    requires
        distinct_keys(entries),
    ensures
        distinct_keys(put(entries, key, value)),
{
    lemma_first_index(entries, key, 0);
    let after = put(entries, key, value);
    assert forall|i: int, j: int| 0 <= i < j < after.len() implies (#[trigger] after[i]).0 != (
    #[trigger] after[j]).0 by {
        if j < entries.len() {
            assert(entries[i].0 != entries[j].0);
        } else {
            assert(entries[i].0 != key);
        }
    }
}

/// The header of a fragment.
#[derive(Debug)]
pub struct Header {
    entries: Vec<(String, FragmentData)>,
}

impl View for Header {
    type V = Seq<(Seq<char>, FragmentValue)>;

    closed spec fn view(&self) -> Seq<(Seq<char>, FragmentValue)> {
        Seq::new(self.entries@.len(), |i: int| (self.entries@[i].0@, self.entries@[i].1@))
    }
}

impl Clone for Header {
    fn clone(&self) -> (r: Self)
        ensures
            r@ == self@,
    {
        let mut entries: Vec<(String, FragmentData)> = Vec::new();
        let mut i: usize = 0;
        while i < self.entries.len()
            invariant
                i <= self.entries.len(),
                entries.len() == i,
                forall|k: int|
                    0 <= k < i ==> entries@[k].0@ == self.entries@[k].0@ && entries@[k].1@
                        == self.entries@[k].1@,
            decreases self.entries.len() - i,
        {
            entries.push((self.entries[i].0.clone(), self.entries[i].1.clone()));
            i += 1;
        }
        let ghost model = Seq::new(entries@.len(), |i: int| (entries@[i].0@, entries@[i].1@));
        assert(model =~= self@);
        Header { entries }
    }
}

impl Header {
    /// Whether no two fields have the same name. A header made by `new` and
    /// filled by `insert` is well formed.
    pub open spec fn well_formed(&self) -> bool {
        distinct_keys(self@)
    }

    /// A header without fields.
    pub fn new() -> (r: Header)
        ensures
            r@ == Seq::<(Seq<char>, FragmentValue)>::empty(),
            r.well_formed(),
    {
        let entries: Vec<(String, FragmentData)> = Vec::new();
        let ghost model = Seq::new(entries@.len(), |i: int| (entries@[i].0@, entries@[i].1@));
        assert(model =~= Seq::<(Seq<char>, FragmentValue)>::empty());
        Header { entries }
    }

    /// The number of fields.
    pub fn len(&self) -> (r: usize)
        ensures
            r == self@.len(),
    {
        self.entries.len()
    }

    /// Whether the header has no field.
    pub fn is_empty(&self) -> (r: bool)
        ensures
            r == (self@.len() == 0),
    {
        self.entries.len() == 0
    }

    /// The name and the value of the field at place `i`, for every place
    /// below the number of fields, and nothing from there on.
    pub fn entry_at(&self, i: usize) -> (r: Option<(&String, &FragmentData)>)
        ensures
            match r {
                Some((name, value)) => i < self@.len() && name@ == self@[i as int].0 && value@
                    == self@[i as int].1,
                None => i >= self@.len(),
            },
    {
        if i < self.entries.len() {
            Some((&self.entries[i].0, &self.entries[i].1))
        } else {
            None
        }
    }

    /// The place of the field `key`.
    pub fn position(&self, key: &str) -> (r: Option<usize>)
        ensures
            match r {
                Some(i) => i < self@.len() && i == first_index(self@, key@, 0),
                None => first_index(self@, key@, 0) == self@.len(),
            },
    {
        let mut i: usize = 0;
        while i < self.entries.len()
            invariant
                i <= self.entries.len(),
                first_index(self@, key@, 0) == first_index(self@, key@, i as int),
            decreases self.entries.len() - i,
        {
            if crate::text::str_eq(self.entries[i].0.as_str(), key) {
                return Some(i);
            }
            i += 1;
        }
        None
    }

    /// Whether the header has the field `key`.
    pub fn contains_key(&self, key: &str) -> (r: bool)
        ensures
            r == has_key(self@, key@),
    {
        self.position(key).is_some()
    }

    /// The value of the field `key`.
    pub fn get(&self, key: &str) -> (r: Option<&FragmentData>)
        ensures
            match r {
                Some(v) => lookup(self@, key@) == Some(v@),
                None => lookup(self@, key@) is None,
            },
    {
        match self.position(key) {
            Some(i) => Some(&self.entries[i].1),
            None => None,
        }
    }

    /// Sets the field `key` to `value`. A field that the header has keeps its
    /// place, and its former value is returned; a new field comes last.
    pub fn insert(&mut self, key: String, value: FragmentData) -> (r: Option<FragmentData>)
        ensures
            final(self)@ == put(old(self)@, key@, value@),
            old(self).well_formed() ==> final(self).well_formed(),
            match r {
                Some(v) => lookup(old(self)@, key@) == Some(v@),
                None => lookup(old(self)@, key@) is None,
            },
    {
        proof {
            if self.well_formed() {
                lemma_put_distinct(self@, key@, value@);
            }
        }
        let ghost before = self@;
        match self.position(key.as_str()) {
            Some(i) => {
                let mut entry = (key, value);
                let slot = &mut self.entries[i];
                std::mem::swap(slot, &mut entry);
                assert(self@ =~= put(before, key@, value@));
                Some(entry.1)
            },
            None => {
                self.entries.push((key, value));
                assert(self@ =~= put(before, key@, value@));
                None
            },
        }
    }
}

} // verus!
