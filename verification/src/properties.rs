//! A mapping from string keys to string values, kept as a list of entries.

use vstd::prelude::*;
use crate::text::same_text;

verus! {

/// The value that a list of entries gives to `key`: that of the first entry
/// with this key, if there is one.
pub open spec fn lookup(entries: Seq<(String, String)>, key: Seq<char>) -> Option<Seq<char>>
    decreases entries.len(),
{
    if entries.len() == 0 {
        None
    } else if entries[0].0@ == key {
        Some(entries[0].1@)
    } else {
        lookup(entries.drop_first(), key)
    }
}

/// Whether no two entries of the list share a key.
pub open spec fn distinct_keys(entries: Seq<(String, String)>) -> bool {
    forall|i: int, j: int|
        0 <= i < j < entries.len() ==> entries[i].0@ != entries[j].0@
}

/// If none of the first `n` entries has the key, the lookup may skip them.
pub proof fn lemma_lookup_skip(entries: Seq<(String, String)>, key: Seq<char>, n: int)
    requires
        0 <= n <= entries.len(),
        forall|i: int| 0 <= i < n ==> entries[i].0@ != key,
    ensures
        lookup(entries, key) == lookup(entries.skip(n), key),
    decreases n,
{
    if n == 0 {
        assert(entries.skip(0) =~= entries);
    } else {
        let rest = entries.drop_first();
        assert forall|i: int| 0 <= i < n - 1 implies rest[i].0@ != key by {
            assert(rest[i] == entries[i + 1]);
        }
        lemma_lookup_skip(rest, key, n - 1);
        assert(rest.skip(n - 1) =~= entries.skip(n));
    }
}

/// A lookup finds a key exactly when some entry has it.
pub proof fn lemma_lookup_found(entries: Seq<(String, String)>, key: Seq<char>)
    ensures
        lookup(entries, key) is Some <==> exists|i: int|
            0 <= i < entries.len() && entries[i].0@ == key,
    decreases entries.len(),
{
    if entries.len() > 0 {
        let rest = entries.drop_first();
        lemma_lookup_found(rest, key);
        if entries[0].0@ != key {
            if lookup(rest, key) is Some {
                let i = choose|i: int| 0 <= i < rest.len() && rest[i].0@ == key;
                assert(entries[i + 1].0@ == key);
            }
            if exists|i: int| 0 <= i < entries.len() && entries[i].0@ == key {
                let i = choose|i: int| 0 <= i < entries.len() && entries[i].0@ == key;
                assert(rest[i - 1].0@ == key);
            }
        }
    }
}

/// String properties of a component or of a status.
#[derive(Debug)]
pub struct Properties {
    pub entries: Vec<(String, String)>,
}

impl View for Properties {
    type V = Map<Seq<char>, Seq<char>>;

    open spec fn view(&self) -> Map<Seq<char>, Seq<char>> {
        Map::new(
            |k: Seq<char>| lookup(self.entries@, k) is Some,
            |k: Seq<char>| lookup(self.entries@, k).unwrap(),
        )
    }
}

impl Properties {
    /// Whether every key is held by one entry only.
    pub open spec fn well_formed(&self) -> bool {
        distinct_keys(self.entries@)
    }

    /// The empty mapping.
    pub fn new() -> (r: Properties)
        ensures
            r@ == Map::<Seq<char>, Seq<char>>::empty(),
            r.well_formed(),
    {
        let r = Properties { entries: Vec::new() };
        assert(r@ =~= Map::<Seq<char>, Seq<char>>::empty());
        r
    }

    /// The value of `key`, if the mapping has one.
    pub fn get(&self, key: &str) -> (r: Option<&String>)
        ensures
            r is Some == self@.contains_key(key@),
            r matches Some(v) ==> v@ == self@[key@],
    {
        let mut i: usize = 0;
        while i < self.entries.len()
            invariant
                i <= self.entries.len(),
                forall|j: int| 0 <= j < i ==> self.entries@[j].0@ != key@,
            decreases self.entries.len() - i,
        {
            if same_text(self.entries[i].0.as_str(), key) {
                proof {
                    lemma_lookup_skip(self.entries@, key@, i as int);
                }
                return Some(&self.entries[i].1);
            }
            i += 1;
        }
        proof {
            lemma_lookup_found(self.entries@, key@);
        }
        None
    }

    /// Gives `key` the value `value`, in place of the one it had, if any.
    pub fn insert(&mut self, key: String, value: String)
        ensures
            final(self)@ == old(self)@.insert(key@, value@),
            old(self).well_formed() ==> final(self).well_formed(),
    {
        let ghost before = self.entries@;
        let mut i: usize = 0;
        while i < self.entries.len()
            invariant
                i <= self.entries.len(),
                self.entries@ == before,
                before == old(self).entries@,
                forall|j: int| 0 <= j < i ==> before[j].0@ != key@,
            decreases self.entries.len() - i,
        {
            if same_text(self.entries[i].0.as_str(), key.as_str()) {
                self.entries.set(i, (key, value));
                proof {
                    let after = self.entries@;
                    assert forall|k: Seq<char>| lookup(after, k) == (if k == key@ {
                        Some(value@)
                    } else {
                        lookup(before, k)
                    }) by {
                        lemma_lookup_replace(before, after, i as int, k);
                    }
                    assert(self@ =~= old(self)@.insert(key@, value@));
                    assert(distinct_keys(before) ==> distinct_keys(after)) by {
                        assert forall|a: int| 0 <= a < after.len() implies after[a].0@
                            == before[a].0@ by {}
                    }
                }
                return ;
            }
            i += 1;
        }
        self.entries.push((key, value));
        proof {
            let after = self.entries@;
            assert forall|k: Seq<char>| lookup(after, k) == (if k == key@ {
                Some(value@)
            } else {
                lookup(before, k)
            }) by {
                lemma_lookup_push(before, (key, value), k);
            }
            assert(self@ =~= old(self)@.insert(key@, value@));
        }
    }
}

/// What a lookup gives after the entry at `at` got a new value for its key.
pub proof fn lemma_lookup_replace(
    before: Seq<(String, String)>,
    after: Seq<(String, String)>,
    at: int,
    key: Seq<char>,
)
    requires
        0 <= at < before.len(),
        after.len() == before.len(),
        after[at].0@ == before[at].0@,
        forall|j: int| 0 <= j < before.len() && j != at ==> after[j] == before[j],
        forall|j: int| 0 <= j < at ==> (#[trigger] before[j]).0@ != before[at].0@,
    ensures
        lookup(after, key) == (if key == after[at].0@ {
            Some(after[at].1@)
        } else {
            lookup(before, key)
        }),
    decreases before.len(),
{
    if at == 0 {
        if key != after[0].0@ {
            assert(after.drop_first() =~= before.drop_first());
        }
    } else {
        assert(after[0] == before[0]);
        assert(before[0].0@ != before[at].0@);
        let b = before.drop_first();
        let a = after.drop_first();
        assert forall|j: int| 0 <= j < b.len() && j != at - 1 implies a[j] == b[j] by {
            assert(a[j] == after[j + 1]);
            assert(b[j] == before[j + 1]);
        }
        assert forall|j: int| 0 <= j < at - 1 implies (#[trigger] b[j]).0@ != b[at - 1].0@ by {
            assert(b[j] == before[j + 1]);
        }
        lemma_lookup_replace(b, a, at - 1, key);
    }
}

/// What a lookup gives after an entry was added at the end.
pub proof fn lemma_lookup_push(
    before: Seq<(String, String)>,
    entry: (String, String),
    key: Seq<char>,
)
    requires
        forall|j: int| 0 <= j < before.len() ==> before[j].0@ != entry.0@,
    ensures
        lookup(before.push(entry), key) == (if key == entry.0@ {
            Some(entry.1@)
        } else {
            lookup(before, key)
        }),
    decreases before.len(),
{
    let after = before.push(entry);
    if before.len() == 0 {
        assert(after.drop_first() =~= before);
    } else {
        assert(after[0] == before[0]);
        let b = before.drop_first();
        assert forall|j: int| 0 <= j < b.len() implies b[j].0@ != entry.0@ by {
            assert(b[j] == before[j + 1]);
        }
        lemma_lookup_push(b, entry, key);
        assert(after.drop_first() =~= b.push(entry));
    }
}

} // verus!
