use vstd::prelude::*;

use crate::error::KvError;
use crate::value::{pair_model, Kvpair, Value, ValueModel};

verus! {

/// The model of a store: a value for each (table, key) that holds one.
pub type StoreModel = Map<(Seq<char>, Seq<char>), ValueModel>;

/// The model of an optional value.
pub open spec fn option_model(o: Option<Value>) -> Option<ValueModel> {
    match o {
        Some(v) => Some(v@),
        None => None,
    }
}

/// The value stored under `key` in `table`, if any.
pub open spec fn lookup(m: StoreModel, table: Seq<char>, key: Seq<char>) -> Option<ValueModel> {
    if m.contains_key((table, key)) {
        Some(m[(table, key)])
    } else {
        None
    }
}

/// `ps` lists the pairs of `table` in `m`: each key once, each with its stored value, none missing.
pub open spec fn lists_table(
    ps: Seq<(Seq<char>, Option<ValueModel>)>,
    m: StoreModel,
    table: Seq<char>,
) -> bool {
    &&& forall|i: int, j: int| 0 <= i < j < ps.len() ==> #[trigger] ps[i].0 != #[trigger] ps[j].0
    &&& forall|i: int|
        0 <= i < ps.len() ==> m.contains_key((table, #[trigger] ps[i].0)) && ps[i].1 == Some(
            m[(table, ps[i].0)],
        )
    &&& forall|k: Seq<char>|
        #[trigger] m.contains_key((table, k)) ==> exists|i: int| 0 <= i < ps.len() && ps[i].0 == k
}

/// A storage backend: named tables of string keys and typed values.
///
/// `contents` is the model of what the backend holds; a backend that is
/// `reliable` never reports a failure, and `well_formed` is its internal invariant.
///
/// A table is listed whole by `get_all`; there is no lazy iterator over a
/// table, so `get_all` also serves callers that would walk it.
pub trait Storage {
    spec fn contents(&self) -> StoreModel;

    spec fn reliable(&self) -> bool;

    /// The backend's internal invariant, kept by every operation.
    spec fn well_formed(&self) -> bool;

    /// The value under `key` in `table`, or `None`; reading creates nothing.
    fn get(&self, table: &str, key: &str) -> (r: Result<Option<Value>, KvError>)
        requires
            self.well_formed(),
        ensures
            self.reliable() ==> r is Ok,
            r matches Ok(o) ==> option_model(o) == lookup(self.contents(), table@, key@),
    ;

    /// Stores `value` under `key` in `table` and returns the value it replaced.
    fn set(&mut self, table: &str, key: String, value: Value) -> (r: Result<Option<Value>, KvError>)
        requires
            old(self).well_formed(),
        ensures
            final(self).well_formed(),
            final(self).reliable() == old(self).reliable(),
            old(self).reliable() ==> r is Ok,
            r matches Ok(o) ==> {
                &&& option_model(o) == lookup(old(self).contents(), table@, key@)
                &&& final(self).contents() == old(self).contents().insert((table@, key@), value@)
            },
    ;

    /// Whether `table` holds `key`.
    fn contains(&self, table: &str, key: &str) -> (r: Result<bool, KvError>)
        requires
            self.well_formed(),
        ensures
            self.reliable() ==> r is Ok,
            r matches Ok(b) ==> b == self.contents().contains_key((table@, key@)),
    ;

    /// Removes `key` from `table` and returns the value it held; an absent key is no error.
    fn del(&mut self, table: &str, key: &str) -> (r: Result<Option<Value>, KvError>)
        requires
            old(self).well_formed(),
        ensures
            final(self).well_formed(),
            final(self).reliable() == old(self).reliable(),
            old(self).reliable() ==> r is Ok,
            r matches Ok(o) ==> {
                &&& option_model(o) == lookup(old(self).contents(), table@, key@)
                &&& final(self).contents() == old(self).contents().remove((table@, key@))
            },
    ;

    /// Every pair of `table`, in an order of the backend's choosing.
    fn get_all(&self, table: &str) -> (r: Result<Vec<Kvpair>, KvError>)
        requires
            self.well_formed(),
        ensures
            self.reliable() ==> r is Ok,
            r matches Ok(ps) ==> lists_table(ps@.map_values(|p: Kvpair| pair_model(p)), self.contents(), table@),
    ;
}

} // verus!
