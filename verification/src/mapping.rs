//! The mapping from secret keys to secret values.
use vstd::prelude::*;
use crate::secret::SecretEntry;

verus! {

/// No two entries of `s` share a key.
pub open spec fn keys_distinct(s: Seq<SecretEntry>) -> bool {
    forall|i: int, j: int| 0 <= i < j < s.len() ==> s[i].key@ != s[j].key@
}

/// Whether some entry of `s` is stored under `key`.
pub open spec fn has_key(s: Seq<SecretEntry>, key: Seq<char>) -> bool {
    exists|i: int| 0 <= i < s.len() && s[i].key@ == key
}

/// The position of an entry of `s` that is stored under `key`.
pub open spec fn position_of(s: Seq<SecretEntry>, key: Seq<char>) -> int {
    choose|i: int| 0 <= i < s.len() && s[i].key@ == key
}

/// The mapping that a list of entries stands for: each key that occurs maps to
/// the value listed with it.
pub open spec fn entries_map(s: Seq<SecretEntry>) -> Map<Seq<char>, Seq<char>> {
    Map::new(|k: Seq<char>| has_key(s, k), |k: Seq<char>| s[position_of(s, k)].value@)
}

/// In a list with distinct keys, each entry is what its key maps to.
pub proof fn lemma_entry_lookup(s: Seq<SecretEntry>, i: int)
    requires
        keys_distinct(s),
        0 <= i < s.len(),
    ensures
        entries_map(s).contains_key(s[i].key@),
        entries_map(s)[s[i].key@] == s[i].value@,
{
    let found = position_of(s, s[i].key@);
    assert(found == i);
}

/// A list with distinct keys stands for a finite mapping with as many keys as
/// the list has entries.
pub proof fn lemma_entries_map_len(s: Seq<SecretEntry>)
    requires
        keys_distinct(s),
    ensures
        entries_map(s).dom().finite(),
        entries_map(s).dom().len() == s.len(),
    decreases s.len(),
{
    if s.len() == 0 {
        assert(entries_map(s).dom() =~= Set::<Seq<char>>::empty());
    } else {
        let t = s.drop_last();
        let k = s.last().key@;
        lemma_entries_map_len(t);
        assert(entries_map(s).dom() =~= entries_map(t).dom().insert(k)) by {
            assert forall|x: Seq<char>| has_key(s, x) <==> (has_key(t, x) || x == k) by {
                if has_key(s, x) {
                    let i = position_of(s, x);
                    if i < s.len() - 1 {
                        assert(t[i].key@ == x);
                    }
                }
            }
        }
    }
}

/// A mapping from secret keys to secret values, each key held once.
#[derive(Debug)]
pub struct SecretMap {
    entries: Vec<SecretEntry>,
}

impl View for SecretMap {
    type V = Map<Seq<char>, Seq<char>>;

    closed spec fn view(&self) -> Map<Seq<char>, Seq<char>> {
        entries_map(self.entries@)
    }
}

impl SecretMap {
    #[verifier::type_invariant]
    spec fn well_formed(&self) -> bool {
        keys_distinct(self.entries@)
    }

    /// The empty mapping.
    pub fn new() -> (m: Self)
        ensures
            m@ == Map::<Seq<char>, Seq<char>>::empty(),
    {
        let m = SecretMap { entries: Vec::new() };
        m
    }

    /// The number of keys.
    pub fn len(&self) -> (n: usize)
        ensures
            self@.dom().finite(),
            n == self@.len(),
    {
        proof {
            use_type_invariant(self);
            lemma_entries_map_len(self.entries@);
        }
        self.entries.len()
    }

    /// Whether the mapping holds no key.
    pub fn is_empty(&self) -> (b: bool)
        ensures
            b == (self@ == Map::<Seq<char>, Seq<char>>::empty()),
    {
        proof {
            use_type_invariant(self);
            if self.entries@.len() > 0 {
                lemma_entry_lookup(self.entries@, 0);
            } else {
                assert(self@ =~= Map::<Seq<char>, Seq<char>>::empty());
            }
        }
        self.entries.len() == 0
    }

    fn position(&self, key: &String) -> (r: Option<usize>)
        ensures
            match r {
                Some(i) => i < self.entries@.len() && self.entries@[i as int].key@ == key@,
                None => !has_key(self.entries@, key@),
            },
    {
        let mut i: usize = 0;
        while i < self.entries.len()
            invariant
                i <= self.entries@.len(),
                forall|j: int| 0 <= j < i ==> self.entries@[j].key@ != key@,
            decreases self.entries@.len() - i,
        {
            if self.entries[i].key == *key {
                return Some(i);
            }
            i += 1;
        }
        None
    }

    /// The value stored under `key`, if there is one.
    pub fn get(&self, key: &str) -> (r: Option<&String>)
        ensures
            match r {
                Some(v) => self@.contains_key(key@) && self@[key@] == v@,
                None => !self@.contains_key(key@),
            },
    {
        let owned = key.to_owned();
        match self.position(&owned) {
            Some(i) => {
                proof {
                    use_type_invariant(self);
                    lemma_entry_lookup(self.entries@, i as int);
                }
                Some(&self.entries[i].value)
            },
            None => None,
        }
    }

    /// Stores `value` under `key`, in place of what was stored there before.
    pub fn insert(&mut self, key: String, value: String)
        ensures
            final(self)@ == old(self)@.insert(key@, value@),
    {
        proof {
            use_type_invariant(&*self);
        }
        let found = self.position(&key);
        let mut entries: Vec<SecretEntry> = Vec::new();
        std::mem::swap(&mut self.entries, &mut entries);
        let entry = SecretEntry { key, value };
        match found {
            Some(i) => {
                proof {
                    lemma_replace(entries@, i as int, entry);
                }
                entries[i] = entry;
            },
            None => {
                proof {
                    lemma_append(entries@, entry);
                }
                entries.push(entry);
            },
        }
        std::mem::swap(&mut self.entries, &mut entries);
    }

    /// The entries of the mapping, one for each key.
    pub fn entries(&self) -> (r: &[SecretEntry])
        ensures
            keys_distinct(r@),
            entries_map(r@) == self@,
            r@.len() == self@.len(),
    {
        proof {
            use_type_invariant(self);
            lemma_entries_map_len(self.entries@);
        }
        self.entries.as_slice()
    }

    /// Gives up the mapping as its entries, one for each key.
    pub fn into_entries(self) -> (r: Vec<SecretEntry>)
        ensures
            keys_distinct(r@),
            entries_map(r@) == self@,
            r@.len() == self@.len(),
    {
        proof {
            use_type_invariant(&self);
            lemma_entries_map_len(self.entries@);
        }
        self.entries
    }
}

/// Replacing the value of the entry at `i` stores the new value under that
/// entry's key and leaves the other keys as they were.
proof fn lemma_replace(before: Seq<SecretEntry>, i: int, entry: SecretEntry)
    requires
        keys_distinct(before),
        0 <= i < before.len(),
        before[i].key@ == entry.key@,
    ensures
        keys_distinct(before.update(i, entry)),
        entries_map(before.update(i, entry)) == entries_map(before).insert(
            entry.key@,
            entry.value@,
        ),
{
    let after = before.update(i, entry);
    let target = entries_map(before).insert(entry.key@, entry.value@);
    assert forall|j: int| 0 <= j < after.len() implies #[trigger] after[j].key@
        == before[j].key@ by {}
    assert forall|k: Seq<char>| entries_map(after).contains_key(k) <==> target.contains_key(
        k,
    ) by {
        if has_key(before, k) {
            assert(after[position_of(before, k)].key@ == k);
        }
    }
    assert forall|k: Seq<char>| entries_map(after).contains_key(k) implies entries_map(after)[k]
        == target[k] by {
        let p = position_of(after, k);
        lemma_entry_lookup(after, p);
        if k != entry.key@ {
            lemma_entry_lookup(before, p);
        }
    }
}

/// Appending an entry under a key that is not held yet stores its value under
/// that key and leaves the other keys as they were.
proof fn lemma_append(before: Seq<SecretEntry>, entry: SecretEntry)
    requires
        keys_distinct(before),
        !has_key(before, entry.key@),
    ensures
        keys_distinct(before.push(entry)),
        entries_map(before.push(entry)) == entries_map(before).insert(entry.key@, entry.value@),
{
    let after = before.push(entry);
    let target = entries_map(before).insert(entry.key@, entry.value@);
    assert forall|k: Seq<char>| entries_map(after).contains_key(k) <==> target.contains_key(
        k,
    ) by {
        if has_key(before, k) {
            assert(after[position_of(before, k)].key@ == k);
        }
        if k == entry.key@ {
            assert(after[after.len() - 1].key@ == k);
        }
    }
    assert forall|k: Seq<char>| entries_map(after).contains_key(k) implies entries_map(after)[k]
        == target[k] by {
        let p = position_of(after, k);
        lemma_entry_lookup(after, p);
        if k != entry.key@ {
            lemma_entry_lookup(before, p);
        }
    }
}

} // verus!
