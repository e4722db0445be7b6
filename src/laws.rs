use vstd::prelude::*;

use crate::storage::{lists_table, lookup, StoreModel};
use crate::value::ValueModel;

verus! {

/// One write to a store: a set of a value, or a removal.
pub enum StoreOp {
    Put(Seq<char>, Seq<char>, ValueModel),
    Remove(Seq<char>, Seq<char>),
}

/// The store after one write, as `Storage::set` and `Storage::del` state it.
pub open spec fn apply_op(m: StoreModel, op: StoreOp) -> StoreModel {
    match op {
        StoreOp::Put(t, k, v) => m.insert((t, k), v),
        StoreOp::Remove(t, k) => m.remove((t, k)),
    }
}

/// The store after a sequence of writes, in order.
pub open spec fn apply_ops(m: StoreModel, ops: Seq<StoreOp>) -> StoreModel
    decreases ops.len(),
{
    if ops.len() == 0 {
        m
    } else {
        apply_op(apply_ops(m, ops.drop_last()), ops.last())
    }
}

/// Some write of `ops` sets (`t`, `k`) and no later one removes it.
pub open spec fn set_survives(ops: Seq<StoreOp>, t: Seq<char>, k: Seq<char>) -> bool {
    exists|i: int|
        0 <= i < ops.len() && (#[trigger] ops[i] matches StoreOp::Put(t2, k2, _) && t2 == t && k2
            == k) && forall|j: int|
            i < j < ops.len() ==> !(#[trigger] ops[j] matches StoreOp::Remove(t3, k3) && t3 == t && k3
                == k)
}

/// Overwriting a key: a first set of a fresh key finds nothing, a second set finds
/// the first value, and a read then finds the second.
pub proof fn lemma_overwrite_round_trip(
    m: StoreModel,
    t: Seq<char>,
    k: Seq<char>,
    v1: ValueModel,
    v2: ValueModel,
)
    requires
        lookup(m, t, k) is None,
        v1 != v2,
    ensures
        lookup(m, t, k) == None::<ValueModel>,
        lookup(m.insert((t, k), v1), t, k) == Some(v1),
        lookup(m.insert((t, k), v1).insert((t, k), v2), t, k) == Some(v2),
{
}

/// Removing an absent key finds nothing and leaves the store as it was.
pub proof fn lemma_delete_absent(m: StoreModel, t: Seq<char>, k: Seq<char>)
    requires
        lookup(m, t, k) is None,
    ensures
        lookup(m, t, k) == None::<ValueModel>,
        m.remove((t, k)) == m,
        apply_op(m, StoreOp::Remove(t, k)) == m,
{
    assert(m.remove((t, k)) =~= m);
}

/// Starting from an empty store, a key is present exactly when some set of it
/// has not been followed by a removal of it.
pub proof fn lemma_existence(ops: Seq<StoreOp>, t: Seq<char>, k: Seq<char>)
    ensures
        apply_ops(Map::empty(), ops).contains_key((t, k)) <==> set_survives(ops, t, k),
    decreases ops.len(),
{
    if ops.len() > 0 {
        let init = ops.drop_last();
        lemma_existence(init, t, k);
        let n = ops.len() - 1;
        if set_survives(ops, t, k) {
            let i = choose|i: int|
                0 <= i < ops.len() && (#[trigger] ops[i] matches StoreOp::Put(t2, k2, _) && t2 == t
                    && k2 == k) && forall|j: int|
                    i < j < ops.len() ==> !(#[trigger] ops[j] matches StoreOp::Remove(t3, k3) && t3 == t
                        && k3 == k);
            if i < n {
                assert(init[i] == ops[i]);
                assert forall|j: int| i < j < init.len() implies !(#[trigger] init[j] matches StoreOp::Remove(
                    t3,
                    k3,
                ) && t3 == t && k3 == k) by {
                    assert(init[j] == ops[j]);
                }
            }
        } else {
            match ops[n] {
                StoreOp::Put(t2, k2, _) => {
                    assert(!(t2 == t && k2 == k));
                },
                StoreOp::Remove(_, _) => {},
            }
            if set_survives(init, t, k) {
                let i = choose|i: int|
                    0 <= i < init.len() && (#[trigger] init[i] matches StoreOp::Put(t2, k2, _) && t2
                        == t && k2 == k) && forall|j: int|
                        i < j < init.len() ==> !(#[trigger] init[j] matches StoreOp::Remove(t3, k3) && t3
                            == t && k3 == k);
                assert(ops[i] == init[i]);
                assert forall|j: int| i < j < ops.len() && j != n implies !(#[trigger] ops[j] matches StoreOp::Remove(
                    t3,
                    k3,
                ) && t3 == t && k3 == k) by {
                    assert(init[j] == ops[j]);
                }
            }
        }
    }
}

/// The store after setting each (key, value) of `ops` in `table`, in order.
pub open spec fn set_all(m: StoreModel, table: Seq<char>, ops: Seq<(Seq<char>, ValueModel)>) -> StoreModel
    decreases ops.len(),
{
    if ops.len() == 0 {
        m
    } else {
        set_all(m, table, ops.drop_last()).insert((table, ops.last().0), ops.last().1)
    }
}

/// The keys that `ops` sets.
pub open spec fn keys_of(ops: Seq<(Seq<char>, ValueModel)>) -> Set<Seq<char>> {
    ops.map_values(|o: (Seq<char>, ValueModel)| o.0).to_set()
}

/// The last value that `ops` sets for `k`, if any.
pub open spec fn last_value(ops: Seq<(Seq<char>, ValueModel)>, k: Seq<char>) -> Option<ValueModel>
    decreases ops.len(),
{
    if ops.len() == 0 {
        None
    } else if ops.last().0 == k {
        Some(ops.last().1)
    } else {
        last_value(ops.drop_last(), k)
    }
}

proof fn lemma_set_all(table: Seq<char>, ops: Seq<(Seq<char>, ValueModel)>, t: Seq<char>, k: Seq<char>)
    ensures
        set_all(Map::empty(), table, ops).contains_key((t, k)) <==> (t == table && keys_of(
            ops,
        ).contains(k)),
        lookup(set_all(Map::empty(), table, ops), table, k) == last_value(ops, k),
    decreases ops.len(),
{
    if ops.len() > 0 {
        let init = ops.drop_last();
        lemma_set_all(table, init, t, k);
        lemma_set_all(table, init, table, k);
        let ks = ops.map_values(|o: (Seq<char>, ValueModel)| o.0);
        let kis = init.map_values(|o: (Seq<char>, ValueModel)| o.0);
        assert(ks =~= kis.push(ops.last().0));
        kis.lemma_push_to_set_commute(ops.last().0);
    }
}

/// A full listing of a table that was filled by a sequence of sets, from an empty
/// store: one pair per distinct key set, each with the last value set for it.
pub proof fn lemma_full_scan(
    table: Seq<char>,
    ops: Seq<(Seq<char>, ValueModel)>,
    ps: Seq<(Seq<char>, Option<ValueModel>)>,
)
    requires
        lists_table(ps, set_all(Map::empty(), table, ops), table),
    ensures
        ps.len() == keys_of(ops).len(),
        forall|i: int| 0 <= i < ps.len() ==> #[trigger] ps[i].1 == last_value(ops, ps[i].0),
        forall|i: int, j: int| 0 <= i < j < ps.len() ==> ps[i].0 != ps[j].0,
{
    let m = set_all(Map::empty(), table, ops);
    let pk = ps.map_values(|p: (Seq<char>, Option<ValueModel>)| p.0);
    assert forall|i: int| 0 <= i < ps.len() implies #[trigger] ps[i].1 == last_value(ops, ps[i].0) by {
        lemma_set_all(table, ops, table, ps[i].0);
    }
    assert(pk.no_duplicates()) by {
        assert forall|i: int, j: int|
            0 <= i < pk.len() && 0 <= j < pk.len() && i != j implies pk[i] != pk[j] by {
            if i < j {
                assert(ps[i].0 != ps[j].0);
            } else {
                assert(ps[j].0 != ps[i].0);
            }
        }
    }
    pk.unique_seq_to_set();
    assert forall|k: Seq<char>| pk.to_set().contains(k) <==> keys_of(ops).contains(k) by {
        lemma_set_all(table, ops, table, k);
        if keys_of(ops).contains(k) {
            assert(m.contains_key((table, k)));
            let i = choose|i: int| 0 <= i < ps.len() && ps[i].0 == k;
            assert(pk[i] == k);
        }
        if pk.to_set().contains(k) {
            let i = choose|i: int| 0 <= i < pk.len() && pk[i] == k;
            assert(m.contains_key((table, ps[i].0)));
        }
    }
    assert(pk.to_set() =~= keys_of(ops));
}

} // verus!
