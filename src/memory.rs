use vstd::prelude::*;

use crate::error::KvError;
use crate::storage::{Storage, StoreModel};
use crate::value::{pair_model, Kvpair, Value};

verus! {

struct Entry {
    table: String,
    key: String,
    value: Value,
}

spec fn entry_id(e: Entry) -> (Seq<char>, Seq<char>) {
    (e.table@, e.key@)
}

/// An in-memory backend: one entry per (table, key), data lost on drop.
///
/// The entries sit in a `Vec` searched from the front, so each operation is
/// linear in the number of entries. A hash map keyed by `String` would be
/// constant time in expectation, but what vstd states of such a map does not
/// carry the proofs below; the `Vec` keeps every operation proved.
pub struct MemTable {
    entries: Vec<Entry>,
    model: Ghost<StoreModel>,
}

impl MemTable {
    spec fn wf(&self) -> bool {
        &&& forall|i: int, j: int|
            0 <= i < j < self.entries@.len() ==> entry_id(#[trigger] self.entries@[i]) != entry_id(
                #[trigger] self.entries@[j],
            )
        &&& forall|i: int|
            0 <= i < self.entries@.len() ==> {
                &&& self.model@.contains_key(entry_id(#[trigger] self.entries@[i]))
                &&& self.model@[entry_id(self.entries@[i])] == self.entries@[i].value@
            }
        &&& forall|tk: (Seq<char>, Seq<char>)|
            #[trigger] self.model@.contains_key(tk) ==> exists|i: int|
                0 <= i < self.entries@.len() && entry_id(self.entries@[i]) == tk
    }

    /// An empty store.
    pub fn new() -> (r: MemTable)
        ensures
            r.contents() == Map::<(Seq<char>, Seq<char>), crate::value::ValueModel>::empty(),
            r.reliable(),
            r.well_formed(),
    {
        MemTable { entries: Vec::new(), model: Ghost(Map::empty()) }
    }

    /// The position of the entry for (`table`, `key`), if there is one.
    fn find(&self, table: &String, key: &String) -> (r: Option<usize>)
        requires
            self.wf(),
        ensures
            r matches Some(i) ==> i < self.entries@.len() && entry_id(self.entries@[i as int]) == (
            table@, key@),
            r is None ==> !self.contents().contains_key((table@, key@)),
    {
        let mut i: usize = 0;
        while i < self.entries.len()
            invariant
                self.wf(),
                i <= self.entries@.len(),
                forall|j: int| 0 <= j < i ==> entry_id(#[trigger] self.entries@[j]) != (table@, key@),
            decreases self.entries@.len() - i,
        {
            let e = &self.entries[i];
            if e.table == *table && e.key == *key {
                return Some(i);
            }
            i = i + 1;
        }
        None
    }
}

impl Storage for MemTable {
    closed spec fn contents(&self) -> StoreModel {
        self.model@
    }

    open spec fn reliable(&self) -> bool {
        true
    }

    closed spec fn well_formed(&self) -> bool {
        self.wf()
    }

    fn get(&self, table: &str, key: &str) -> (r: Result<Option<Value>, KvError>) {
        let t = table.to_owned();
        let k = key.to_owned();
        match self.find(&t, &k) {
            Some(i) => Ok(Some(self.entries[i].value.duplicate())),
            None => Ok(None),
        }
    }

    fn set(&mut self, table: &str, key: String, value: Value) -> (r: Result<Option<Value>, KvError>) {
        let t = table.to_owned();
        let ghost id = (table@, key@);
        let ghost v = value@;
        match self.find(&t, &key) {
            Some(i) => {
                let prev = self.entries[i].value.duplicate();
                let ghost before = self.entries@;
                let e = Entry { table: t, key, value };
                self.entries.set(i, e);
                self.model = Ghost(self.model@.insert(id, v));
                assert forall|tk: (Seq<char>, Seq<char>)| #[trigger]
                    self.model@.contains_key(tk) implies exists|j: int|
                    0 <= j < self.entries@.len() && entry_id(self.entries@[j]) == tk by {
                    if tk != id {
                        let j = choose|j: int|
                            0 <= j < before.len() && entry_id(before[j]) == tk;
                        assert(entry_id(self.entries@[j]) == tk);
                    } else {
                        assert(entry_id(self.entries@[i as int]) == tk);
                    }
                }
                Ok(Some(prev))
            },
            None => {
                let ghost before = self.entries@;
                let e = Entry { table: t, key, value };
                self.entries.push(e);
                self.model = Ghost(self.model@.insert(id, v));
                assert forall|tk: (Seq<char>, Seq<char>)| #[trigger]
                    self.model@.contains_key(tk) implies exists|j: int|
                    0 <= j < self.entries@.len() && entry_id(self.entries@[j]) == tk by {
                    if tk != id {
                        let j = choose|j: int|
                            0 <= j < before.len() && entry_id(before[j]) == tk;
                        assert(entry_id(self.entries@[j]) == tk);
                    } else {
                        assert(entry_id(self.entries@[before.len() as int]) == tk);
                    }
                }
                Ok(None)
            },
        }
    }

    fn contains(&self, table: &str, key: &str) -> (r: Result<bool, KvError>) {
        let t = table.to_owned();
        let k = key.to_owned();
        Ok(self.find(&t, &k).is_some())
    }

    fn del(&mut self, table: &str, key: &str) -> (r: Result<Option<Value>, KvError>) {
        let t = table.to_owned();
        let k = key.to_owned();
        let ghost id = (table@, key@);
        match self.find(&t, &k) {
            Some(i) => {
                let ghost before = self.entries@;
                let e = self.entries.remove(i);
                self.model = Ghost(self.model@.remove(id));
                assert forall|j: int| 0 <= j < self.entries@.len() implies entry_id(
                    #[trigger] self.entries@[j],
                ) != id by {
                    if j < i {
                        assert(self.entries@[j] == before[j]);
                    } else {
                        assert(self.entries@[j] == before[j + 1]);
                    }
                }
                assert forall|tk: (Seq<char>, Seq<char>)| #[trigger]
                    self.model@.contains_key(tk) implies exists|j: int|
                    0 <= j < self.entries@.len() && entry_id(self.entries@[j]) == tk by {
                    let j = choose|j: int| 0 <= j < before.len() && entry_id(before[j]) == tk;
                    if j < i {
                        assert(entry_id(self.entries@[j]) == tk);
                    } else {
                        assert(entry_id(self.entries@[j - 1]) == tk);
                    }
                }
                Ok(Some(e.value))
            },
            None => {
                assert(self.model@.remove(id) =~= self.model@);
                Ok(None)
            },
        }
    }

    fn get_all(&self, table: &str) -> (r: Result<Vec<Kvpair>, KvError>) {
        let t = table.to_owned();
        let mut out: Vec<Kvpair> = Vec::new();
        let ghost mut idx: Seq<int> = Seq::empty();
        let mut i: usize = 0;
        while i < self.entries.len()
            invariant
                self.wf(),
                t@ == table@,
                i <= self.entries@.len(),
                idx.len() == out@.len(),
                forall|a: int|
                    0 <= a < idx.len() ==> 0 <= #[trigger] idx[a] < i && self.entries@[idx[a]].table@
                        == table@ && out@[a].key@ == self.entries@[idx[a]].key@
                        && (out@[a].value matches Some(v) && v@ == self.entries@[idx[a]].value@),
                forall|a: int, b: int| 0 <= a < b < idx.len() ==> #[trigger] idx[a] < #[trigger] idx[b],
                forall|j: int|
                    0 <= j < i && (#[trigger] self.entries@[j]).table@ == table@ ==> exists|a: int|
                        0 <= a < idx.len() && idx[a] == j,
            decreases self.entries@.len() - i,
        {
            let e = &self.entries[i];
            if e.table == t {
                let p = Kvpair::new(e.key.clone(), e.value.duplicate());
                out.push(p);
                proof {
                    let ghost old_idx = idx;
                    idx = idx.push(i as int);
                    assert forall|j: int|
                        0 <= j < i + 1 && (#[trigger] self.entries@[j]).table@ == table@ implies exists|a: int|
                        0 <= a < idx.len() && idx[a] == j by {
                        if j < i {
                            let a = choose|a: int| 0 <= a < old_idx.len() && old_idx[a] == j;
                            assert(idx[a] == j);
                        } else {
                            assert(idx[idx.len() - 1] == j);
                        }
                    }
                }
            }
            i = i + 1;
        }
        proof {
            let m = self.model@;
            let ps = out@.map_values(|p: Kvpair| pair_model(p));
            assert forall|a: int, b: int| 0 <= a < b < ps.len() implies #[trigger] ps[a].0
                != #[trigger] ps[b].0 by {
                assert(idx[a] < idx[b]);
                assert(entry_id(self.entries@[idx[a]]) != entry_id(self.entries@[idx[b]]));
            }
            assert forall|a: int| 0 <= a < ps.len() implies m.contains_key(
                (table@, #[trigger] ps[a].0),
            ) && ps[a].1 == Some(m[(table@, ps[a].0)]) by {
                assert(entry_id(self.entries@[idx[a]]) == (table@, ps[a].0));
            }
            assert forall|k: Seq<char>| #[trigger] m.contains_key((table@, k)) implies exists|a: int|
                0 <= a < ps.len() && ps[a].0 == k by {
                let j = choose|j: int|
                    0 <= j < self.entries@.len() && entry_id(self.entries@[j]) == (table@, k);
                assert(self.entries@[j].table@ == table@);
                let a = choose|a: int| 0 <= a < idx.len() && idx[a] == j;
                assert(ps[a].0 == k);
            }
        }
        Ok(out)
    }
}

} // verus!
