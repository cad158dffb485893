use vstd::prelude::*;

verus! {

/// A pair of a key and a value, as sequences of characters.
pub type Entry = (Seq<char>, Seq<char>);

/// The map that a sequence of entries denotes: later entries win over earlier
/// ones with the same key.
pub open spec fn map_of(s: Seq<Entry>) -> Map<Seq<char>, Seq<char>>
    decreases s.len(),
{
    if s.len() == 0 {
        Map::empty()
    } else {
        map_of(s.drop_last()).insert(s.last().0, s.last().1)
    }
}

/// The index of the last entry of `s` whose key is `k`, or -1 when there is none.
pub open spec fn last_index_of(s: Seq<Entry>, k: Seq<char>) -> int
    decreases s.len(),
{
    if s.len() == 0 {
        -1
    } else if s.last().0 == k {
        s.len() - 1
    } else {
        last_index_of(s.drop_last(), k)
    }
}

/// The entries after `k` is set to `v`: an existing entry for `k` keeps its place
/// and takes the new value, otherwise the pair goes to the end.
pub open spec fn set_entry(s: Seq<Entry>, k: Seq<char>, v: Seq<char>) -> Seq<Entry> {
    let i = last_index_of(s, k);
    if i >= 0 {
        s.update(i, (k, v))
    } else {
        s.push((k, v))
    }
}

/// `last_index_of` finds the last entry with the key, and only where there is one.
pub proof fn lemma_last_index_of(s: Seq<Entry>, k: Seq<char>)
    ensures
        -1 <= last_index_of(s, k) < s.len(),
        last_index_of(s, k) >= 0 ==> s[last_index_of(s, k)].0 == k,
        forall|j: int| last_index_of(s, k) < j < s.len() ==> s[j].0 != k,
    decreases s.len(),
{
    if s.len() > 0 {
        let d = s.drop_last();
        lemma_last_index_of(d, k);
        assert forall|j: int| last_index_of(s, k) < j < s.len() implies s[j].0 != k by {
            if j < d.len() {
                assert(s[j] == d[j]);
            }
        }
    }
}

/// A key is in the map exactly when an entry has it; its value is the last such entry's.
pub proof fn lemma_map_of_lookup(s: Seq<Entry>, k: Seq<char>)
    ensures
        map_of(s).contains_key(k) == (last_index_of(s, k) >= 0),
        last_index_of(s, k) >= 0 ==> map_of(s)[k] == s[last_index_of(s, k)].1,
    decreases s.len(),
{
    if s.len() > 0 {
        lemma_map_of_lookup(s.drop_last(), k);
        lemma_last_index_of(s.drop_last(), k);
    }
}

/// Setting an entry sets the key in the map.
pub proof fn lemma_map_of_set(s: Seq<Entry>, k: Seq<char>, v: Seq<char>)
    ensures
        map_of(set_entry(s, k, v)) == map_of(s).insert(k, v),
    decreases s.len(),
{
    let i = last_index_of(s, k);
    if i < 0 {
        assert(s.push((k, v)).drop_last() =~= s);
    } else if s.last().0 == k {
        assert(s.update(i, (k, v)).drop_last() =~= s.drop_last());
        assert(map_of(s.update(i, (k, v))) =~= map_of(s).insert(k, v));
    } else {
        let d = s.drop_last();
        lemma_last_index_of(d, k);
        assert(s.update(i, (k, v)).drop_last() =~= d.update(i, (k, v)));
        lemma_map_of_set(d, k, v);
        assert(map_of(s.update(i, (k, v))) =~= map_of(s).insert(k, v));
    }
}

/// A map from strings to strings that keeps the order in which keys first came.
#[derive(Debug)]
pub struct StrMap {
    entries: Vec<(String, String)>,
}

impl StrMap {
    /// The entries in their order, as character sequences.
    pub closed spec fn entries(&self) -> Seq<Entry> {
        self.entries@.map_values(|e: (String, String)| (e.0@, e.1@))
    }

    /// An empty map.
    pub fn new() -> (r: StrMap)
        ensures
            r.entries() == Seq::<Entry>::empty(),
            r@ == Map::<Seq<char>, Seq<char>>::empty(),
    {
        let r = StrMap { entries: Vec::new() };
        assert(r.entries() =~= Seq::<Entry>::empty());
        r
    }

    /// Sets `key` to `value`; a later value for a key replaces the earlier one.
    pub fn insert(&mut self, key: String, value: String)
        ensures
            final(self).entries() == set_entry(old(self).entries(), key@, value@),
            final(self)@ == old(self)@.insert(key@, value@),
    {
        let ghost s = self.entries();
        let mut i: usize = self.entries.len();
        while i > 0
            invariant
                i <= self.entries.len(),
                self.entries() == s,
                s == old(self).entries(),
                forall|j: int| i <= j < s.len() ==> s[j].0 != key@,
            decreases i,
        {
            i = i - 1;
            assert(s[i as int] == (self.entries@[i as int].0@, self.entries@[i as int].1@));
            if self.entries[i].0 == key {
                let ghost kv = key@;
                let ghost vv = value@;
                proof {
                    lemma_last_index_of(s, kv);
                    lemma_map_of_set(s, kv, vv);
                }
                self.entries.set(i, (key, value));
                assert(self.entries() =~= s.update(i as int, (kv, vv)));
                return;
            }
        }
        let ghost kv = key@;
        let ghost vv = value@;
        proof {
            lemma_last_index_of(s, kv);
            lemma_map_of_set(s, kv, vv);
        }
        self.entries.push((key, value));
        assert(self.entries() =~= s.push((kv, vv)));
    }

    /// The value stored for `key`, if any.
    pub fn get(&self, key: &str) -> (r: Option<&String>)
        ensures
            r.is_some() == self@.contains_key(key@),
            r.is_some() ==> r.unwrap()@ == self@[key@],
    {
        let k = String::from_str(key);
        let mut i: usize = self.entries.len();
        while i > 0
            invariant
                i <= self.entries.len(),
                k@ == key@,
                forall|j: int| i <= j < self.entries().len() ==> self.entries()[j].0 != key@,
            decreases i,
        {
            i = i - 1;
            assert(self.entries()[i as int] == (
                self.entries@[i as int].0@,
                self.entries@[i as int].1@,
            ));
            if self.entries[i].0 == k {
                proof {
                    lemma_last_index_of(self.entries(), key@);
                    lemma_map_of_lookup(self.entries(), key@);
                }
                return Some(&self.entries[i].1);
            }
        }
        proof {
            lemma_last_index_of(self.entries(), key@);
            lemma_map_of_lookup(self.entries(), key@);
        }
        None
    }

    /// The number of entries.
    pub fn len(&self) -> (r: usize)
        ensures
            r == self.entries().len(),
    {
        self.entries.len()
    }

    /// The key and the value of the entry at position `i`.
    pub fn entry(&self, i: usize) -> (r: (&String, &String))
        requires
            i < self.entries().len(),
        ensures
            r.0@ == self.entries()[i as int].0,
            r.1@ == self.entries()[i as int].1,
    {
        (&self.entries[i].0, &self.entries[i].1)
    }
}

impl View for StrMap {
    type V = Map<Seq<char>, Seq<char>>;

    open spec fn view(&self) -> Map<Seq<char>, Seq<char>> {
        map_of(self.entries())
    }
}

} // verus!
