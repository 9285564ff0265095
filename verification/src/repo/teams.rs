//! The team store, keyed by team id.

use vstd::prelude::*;

use crate::repo::in_memo::{
    spec_contains_key, spec_entries, spec_key_index, spec_unique_keys, spec_upsert,
    InMemoRepository,
};
use crate::repo::model::Team;
use vstd::pervasive::VecAdditionalExecFns;

verus! {

/// Teams, keyed by team id.
#[derive(Debug, Clone)]
pub struct TeamsRepo {
    data: Vec<(String, Team)>,
}

impl InMemoRepository<Team> for TeamsRepo {
    closed spec fn entries(&self) -> Seq<(Seq<char>, Team)> {
        spec_entries(self.data@)
    }

    open spec fn natural_key(value: Team) -> Seq<char> {
        value.id@
    }

    fn new() -> (r: Self) {
        let r = TeamsRepo { data: Vec::new() };
        proof {
            assert(r.entries() =~= Seq::<(Seq<char>, Team)>::empty());
        }
        r
    }

    fn push(&mut self, value: Team) {
        let key = value.id.clone();
        self.insert(key, value);
    }

    fn insert(&mut self, key: String, value: Team) {
        let ghost old_entries = self.entries();
        let n = self.data.len();
        let mut i: usize = 0;
        while i < n
            invariant
                n == self.data.len(),
                i <= n,
                self.entries() == old_entries,
                old_entries == old(self).entries(),
                spec_unique_keys(old_entries),
                forall|j: int| 0 <= j < i ==> old_entries[j].0 != key@,
            decreases n - i,
        {
            if self.data[i].0.eq(&key) {
                proof {
                    assert(old_entries[i as int].0 == key@);
                    assert(spec_contains_key(old_entries, key@));
                    let j = spec_key_index(old_entries, key@);
                    assert(0 <= j < old_entries.len() && old_entries[j].0 == key@);
                    if j != i {
                        assert(false);
                    }
                }
                self.data.set(i, (key, value));
                proof {
                    assert(self.entries() =~= spec_upsert(old_entries, key@, value));
                    assert(spec_unique_keys(self.entries()));
                }
                return ;
            }
            i = i + 1;
        }
        proof {
            if spec_contains_key(old_entries, key@) {
                let j = spec_key_index(old_entries, key@);
                assert(0 <= j < old_entries.len() && old_entries[j].0 == key@);
                assert(false);
            }
        }
        self.data.push((key, value));
        proof {
            assert(self.entries() =~= spec_upsert(old_entries, key@, value));
            assert forall|a: int, b: int|
                0 <= a < b < self.entries().len() implies self.entries()[a].0
                != self.entries()[b].0 by {
                if b < old_entries.len() {
                    assert(self.entries()[a] == old_entries[a]);
                    assert(self.entries()[b] == old_entries[b]);
                } else {
                    assert(self.entries()[b].0 == key@);
                    assert(self.entries()[a] == old_entries[a]);
                }
            }
        }
    }

    fn find<'a>(&'a self, key: &String) -> (r: Option<&'a Team>) {
        let n = self.data.len();
        let mut i: usize = 0;
        while i < n
            invariant
                n == self.data.len(),
                i <= n,
                spec_unique_keys(self.entries()),
                forall|j: int| 0 <= j < i ==> self.entries()[j].0 != key@,
            decreases n - i,
        {
            if self.data[i].0.eq(key) {
                proof {
                    assert(self.entries()[i as int].0 == key@);
                    assert(spec_contains_key(self.entries(), key@));
                    let j = spec_key_index(self.entries(), key@);
                    assert(0 <= j < self.entries().len() && self.entries()[j].0 == key@);
                    if j != i {
                        assert(false);
                    }
                }
                return Some(&self.data[i].1);
            }
            i = i + 1;
        }
        proof {
            if spec_contains_key(self.entries(), key@) {
                let j = spec_key_index(self.entries(), key@);
                assert(0 <= j < self.entries().len() && self.entries()[j].0 == key@);
                assert(false);
            }
        }
        None
    }

    fn all<'a>(&'a self) -> (r: &'a Vec<(String, Team)>) {
        &self.data
    }
}

} // verus!
