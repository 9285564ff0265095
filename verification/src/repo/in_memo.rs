//! The capability set shared by every entity-kind store: a keyed map held
//! as ordered key/value pairs, with upsert semantics.

use vstd::prelude::*;

verus! {

/// The mathematical contents of a store backed by a vector of pairs: the
/// same pairs, with the keys read as character sequences.
pub open spec fn spec_entries<V>(data: Seq<(String, V)>) -> Seq<(Seq<char>, V)> {
    Seq::new(data.len(), |i: int| (data[i].0@, data[i].1))
}

/// No key occurs twice: the store is a map.
pub open spec fn spec_unique_keys<V>(s: Seq<(Seq<char>, V)>) -> bool {
    forall|i: int, j: int| 0 <= i < j < s.len() ==> s[i].0 != s[j].0
}

/// Whether some entry holds the key.
pub open spec fn spec_contains_key<V>(s: Seq<(Seq<char>, V)>, key: Seq<char>) -> bool {
    exists|i: int| 0 <= i < s.len() && s[i].0 == key
}

/// The index of the entry holding the key; meaningful under
/// `spec_unique_keys` when the key is present.
pub open spec fn spec_key_index<V>(s: Seq<(Seq<char>, V)>, key: Seq<char>) -> int {
    choose|i: int| 0 <= i < s.len() && s[i].0 == key
}

/// The value stored under the key, if any.
pub open spec fn spec_find<V>(s: Seq<(Seq<char>, V)>, key: Seq<char>) -> Option<V> {
    if spec_contains_key(s, key) {
        Some(s[spec_key_index(s, key)].1)
    } else {
        None
    }
}

/// Stores `v` under `key`: replaces the entry already holding `key`, or
/// appends a fresh entry.
pub open spec fn spec_upsert<V>(s: Seq<(Seq<char>, V)>, key: Seq<char>, v: V) -> Seq<
    (Seq<char>, V),
> {
    if spec_contains_key(s, key) {
        s.update(spec_key_index(s, key), (key, v))
    } else {
        s.push((key, v))
    }
}

/// Upsert keeps keys unique.
pub proof fn lemma_upsert_preserves_unique_keys<V>(s: Seq<(Seq<char>, V)>, key: Seq<char>, v: V)
    requires
        spec_unique_keys(s),
    ensures
        spec_unique_keys(spec_upsert(s, key, v)),
        spec_contains_key(spec_upsert(s, key, v), key),
        spec_find(spec_upsert(s, key, v), key) == Some(v),
{
    let t = spec_upsert(s, key, v);
    if spec_contains_key(s, key) {
        let i = spec_key_index(s, key);
        assert(0 <= i < s.len() && s[i].0 == key);
        assert(t[i].0 == key);
        assert(spec_unique_keys(t));
        let j = spec_key_index(t, key);
        assert(0 <= j < t.len() && t[j].0 == key);
        if i != j {
            assert(t[j] == s[j]);
            assert(s[j].0 == s[i].0);
            assert(false);
        }
        assert(t[i].1 == v);
    } else {
        assert(t[s.len() as int].0 == key);
        assert forall|i: int, j: int| 0 <= i < j < t.len() implies t[i].0 != t[j].0 by {
            if j < s.len() {
                assert(t[i] == s[i] && t[j] == s[j]);
            } else {
                assert(t[j].0 == key && t[i] == s[i]);
                assert(!spec_contains_key(s, key));
                if s[i].0 == key {
                    assert(spec_contains_key(s, key));
                }
            }
        }
        let j = spec_key_index(t, key);
        assert(0 <= j < t.len() && t[j].0 == key);
        if j != s.len() {
            assert(s[j].0 == key);
            assert(spec_contains_key(s, key));
        }
        assert(t[j].1 == v);
    }
}

/// Upsert idempotence: storing under a key already present replaces the
/// value and leaves the entry count unchanged, and storing twice under one
/// key is the same as storing the last value once.
pub proof fn lemma_upsert_idempotent<V>(s: Seq<(Seq<char>, V)>, key: Seq<char>, v1: V, v2: V)
    requires
        spec_unique_keys(s),
    ensures
        spec_contains_key(s, key) ==> spec_upsert(s, key, v1).len() == s.len(),
        spec_upsert(spec_upsert(s, key, v1), key, v2).len() == spec_upsert(s, key, v1).len(),
        spec_upsert(spec_upsert(s, key, v1), key, v2) == spec_upsert(s, key, v2),
{
    let t1 = spec_upsert(s, key, v1);
    lemma_upsert_preserves_unique_keys(s, key, v1);
    let j = spec_key_index(t1, key);
    assert(0 <= j < t1.len() && t1[j].0 == key);
    if spec_contains_key(s, key) {
        let i = spec_key_index(s, key);
        assert(0 <= i < s.len() && s[i].0 == key);
        if i != j {
            assert(t1[i].0 == key);
            assert(false);
        }
        assert(spec_upsert(t1, key, v2) =~= spec_upsert(s, key, v2));
    } else {
        if j != s.len() {
            assert(t1[j] == s[j]);
            assert(spec_contains_key(s, key));
        }
        assert(spec_upsert(t1, key, v2) =~= spec_upsert(s, key, v2));
    }
}

/// The capability set of an entity-kind store: insert by natural or
/// explicit key with overwrite-on-collision, point lookup, and the full
/// ordered mapping.
pub trait InMemoRepository<V>: Sized {
    /// The stored key/value pairs, in insertion order.
    spec fn entries(&self) -> Seq<(Seq<char>, V)>;

    /// The key under which `push` stores a value.
    spec fn natural_key(value: V) -> Seq<char>;

    /// An empty store.
    fn new() -> (r: Self)
        ensures
            r.entries() == Seq::<(Seq<char>, V)>::empty(),
    ;

    /// Stores the value under its natural key, replacing any previous
    /// value held there.
    fn push(&mut self, value: V)
        requires
            spec_unique_keys(old(self).entries()),
        ensures
            final(self).entries() == spec_upsert(
                old(self).entries(),
                Self::natural_key(value),
                value,
            ),
            spec_unique_keys(final(self).entries()),
    ;

    /// Stores the value under an explicit key, replacing any previous
    /// value held there.
    fn insert(&mut self, key: String, value: V)
        requires
            spec_unique_keys(old(self).entries()),
        ensures
            final(self).entries() == spec_upsert(old(self).entries(), key@, value),
            spec_unique_keys(final(self).entries()),
    ;

    /// Point lookup; absent keys yield nothing.
    fn find<'a>(&'a self, key: &String) -> (r: Option<&'a V>)
        requires
            spec_unique_keys(self.entries()),
        ensures
            match r {
                Some(v) => spec_find(self.entries(), key@) == Some(*v),
                None => spec_find(self.entries(), key@) is None,
            },
    ;

    /// The full stored mapping, as ordered key/value pairs.
    fn all<'a>(&'a self) -> (r: &'a Vec<(String, V)>)
        ensures
            spec_entries(r@) == self.entries(),
    ;
}

} // verus!
