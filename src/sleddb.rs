use vstd::prelude::*;
use vstd::string::StrSliceExecFns;
use vstd::utf8::{decode_utf8, encode_utf8, valid_utf8};

use crate::codec::{decode_spec, decode_value, encode_value, lemma_value_round_trip, string_from_utf8, tail_bytes, value_bytes};
use crate::error::KvError;
use crate::storage::{Storage, StoreModel};
use crate::value::{pair_model, Kvpair, Value, ValueModel};

verus! {

/// sled's database handle, carried through as an opaque value.
#[verifier::external_type_specification]
#[verifier::external_body]
pub struct ExDb(sled::Db);

/// What a sled database holds: a map from key bytes to value bytes.
pub uninterp spec fn db_contents(db: sled::Db) -> Map<Seq<u8>, Seq<u8>>;

/// The model of an optional byte string.
pub open spec fn bytes_model(o: Option<Vec<u8>>) -> Option<Seq<u8>> {
    match o {
        Some(b) => Some(b@),
        None => None,
    }
}

/// The bytes stored under `key` in `raw`, if any.
pub open spec fn raw_lookup(raw: Map<Seq<u8>, Seq<u8>>, key: Seq<u8>) -> Option<Seq<u8>> {
    if raw.contains_key(key) {
        Some(raw[key])
    } else {
        None
    }
}

/// Relies on sled's `Tree::get`: the value stored under `key`, or `None`.
#[verifier::external_body]
fn db_get(db: &sled::Db, key: &[u8]) -> (r: Result<Option<Vec<u8>>, String>)
    ensures
        r matches Ok(o) ==> bytes_model(o) == raw_lookup(db_contents(*db), key@),
{
    db.get(key).map(|o| o.map(|v| v.to_vec())).map_err(|e| e.to_string())
}

/// Relies on sled's `Tree::insert`: stores `value` under `key` and returns the value it replaced.
#[verifier::external_body]
fn db_insert(db: &mut sled::Db, key: &[u8], value: Vec<u8>) -> (r: Result<Option<Vec<u8>>, String>)
    ensures
        r matches Ok(o) ==> bytes_model(o) == raw_lookup(db_contents(*old(db)), key@)
            && db_contents(*final(db)) == db_contents(*old(db)).insert(key@, value@),
{
    db.insert(key, value).map(|o| o.map(|v| v.to_vec())).map_err(|e| e.to_string())
}

/// Relies on sled's `Tree::remove`: removes `key` and returns the value it held.
#[verifier::external_body]
fn db_remove(db: &mut sled::Db, key: &[u8]) -> (r: Result<Option<Vec<u8>>, String>)
    ensures
        r matches Ok(o) ==> bytes_model(o) == raw_lookup(db_contents(*old(db)), key@)
            && db_contents(*final(db)) == db_contents(*old(db)).remove(key@),
{
    db.remove(key).map(|o| o.map(|v| v.to_vec())).map_err(|e| e.to_string())
}

/// `b` begins with `p`.
pub open spec fn has_prefix(b: Seq<u8>, p: Seq<u8>) -> bool {
    p.len() <= b.len() && b.subrange(0, p.len() as int) == p
}

/// Relies on sled's `Tree::scan_prefix`: every entry whose key begins with `prefix`,
/// each once and in ascending key order, when no other handle writes meanwhile.
#[verifier::external_body]
fn db_scan_prefix(db: &sled::Db, prefix: &[u8]) -> (r: Result<Vec<(Vec<u8>, Vec<u8>)>, String>)
    ensures
        r matches Ok(es) ==> {
            &&& forall|i: int, j: int| 0 <= i < j < es@.len() ==> bytes_lt(#[trigger] es@[i].0@, #[trigger] es@[j].0@)
            &&& forall|i: int| 0 <= i < es@.len() ==> {
                &&& has_prefix(#[trigger] es@[i].0@, prefix@)
                &&& raw_lookup(db_contents(*db), es@[i].0@) == Some(es@[i].1@)
            }
            &&& forall|k: Seq<u8>| #[trigger] db_contents(*db).contains_key(k) && has_prefix(k, prefix@)
                ==> exists|i: int| 0 <= i < es@.len() && es@[i].0@ == k
        },
{
    let it = db.scan_prefix(prefix).map(|e| e.map(|(k, v)| (k.to_vec(), v.to_vec())));
    it.collect::<Result<Vec<_>, _>>().map_err(|e| e.to_string())
}

/// The composite key of `key` in `table`: the table name, a `:`, then the key.
pub open spec fn full_key(table: Seq<char>, key: Seq<char>) -> Seq<char> {
    table + seq![':'] + key
}

/// The prefix that every composite key of `table` begins with.
pub open spec fn table_prefix(table: Seq<char>) -> Seq<char> {
    table + seq![':']
}

/// A table name that the composite keys can carry: one without `:`.
pub open spec fn valid_table(table: Seq<char>) -> bool {
    !table.contains(':')
}

/// The store that the raw entries of a database hold: each entry under the
/// composite key of a valid table whose bytes decode to a value.
pub open spec fn sled_view(raw: Map<Seq<u8>, Seq<u8>>) -> StoreModel {
    Map::new(
        |tk: (Seq<char>, Seq<char>)|
            valid_table(tk.0) && raw.contains_key(encode_utf8(full_key(tk.0, tk.1))) && decode_spec(
                raw[encode_utf8(full_key(tk.0, tk.1))],
            ) is Some,
        |tk: (Seq<char>, Seq<char>)| decode_spec(raw[encode_utf8(full_key(tk.0, tk.1))])->Some_0,
    )
}

proof fn lemma_encode_concat(a: Seq<char>, b: Seq<char>)
    ensures
        encode_utf8(a + b) == encode_utf8(a) + encode_utf8(b),
    decreases a.len(),
{
    if a.len() > 0 {
        assert((a + b).drop_first() =~= a.drop_first() + b);
        assert((a + b)[0] == a[0]);
        lemma_encode_concat(a.drop_first(), b);
        assert(encode_utf8(a + b) =~= encode_utf8(a) + encode_utf8(b));
    }
}

proof fn lemma_encode_injective(a: Seq<char>, b: Seq<char>)
    requires
        encode_utf8(a) == encode_utf8(b),
    ensures
        a == b,
{
    vstd::utf8::encode_utf8_decode_utf8(a);
    vstd::utf8::encode_utf8_decode_utf8(b);
}

proof fn lemma_full_key_injective(t1: Seq<char>, k1: Seq<char>, t2: Seq<char>, k2: Seq<char>)
    requires
        valid_table(t1),
        valid_table(t2),
        encode_utf8(full_key(t1, k1)) == encode_utf8(full_key(t2, k2)),
    ensures
        t1 == t2 && k1 == k2,
{
    lemma_encode_injective(full_key(t1, k1), full_key(t2, k2));
    let f = full_key(t1, k1);
    if t1.len() < t2.len() {
        assert(f[t1.len() as int] == ':');
        assert(t2[t1.len() as int] == ':');
        assert(t2.contains(':'));
    } else if t2.len() < t1.len() {
        assert(f[t2.len() as int] == ':');
        assert(t1[t2.len() as int] == ':');
        assert(t1.contains(':'));
    } else {
        assert(t1 =~= f.subrange(0, t1.len() as int));
        assert(t2 =~= f.subrange(0, t1.len() as int));
        assert(k1 =~= f.subrange(t1.len() as int + 1, f.len() as int));
        assert(k2 =~= f.subrange(t1.len() as int + 1, f.len() as int));
    }
}

proof fn lemma_view_insert(raw: Map<Seq<u8>, Seq<u8>>, t: Seq<char>, k: Seq<char>, v: ValueModel)
    requires
        valid_table(t),
    ensures
        sled_view(raw.insert(encode_utf8(full_key(t, k)), value_bytes(v))) == sled_view(raw).insert(
            (t, k),
            v,
        ),
{
    let raw2 = raw.insert(encode_utf8(full_key(t, k)), value_bytes(v));
    lemma_value_round_trip(v);
    assert forall|tk: (Seq<char>, Seq<char>)| tk != (t, k) && valid_table(tk.0) implies encode_utf8(
        full_key(tk.0, tk.1),
    ) != encode_utf8(full_key(t, k)) by {
        if encode_utf8(full_key(tk.0, tk.1)) == encode_utf8(full_key(t, k)) {
            lemma_full_key_injective(tk.0, tk.1, t, k);
        }
    }
    assert(sled_view(raw2) =~= sled_view(raw).insert((t, k), v));
}

proof fn lemma_view_remove(raw: Map<Seq<u8>, Seq<u8>>, t: Seq<char>, k: Seq<char>)
    requires
        valid_table(t),
    ensures
        sled_view(raw.remove(encode_utf8(full_key(t, k)))) == sled_view(raw).remove((t, k)),
{
    let raw2 = raw.remove(encode_utf8(full_key(t, k)));
    assert forall|tk: (Seq<char>, Seq<char>)| tk != (t, k) && valid_table(tk.0) implies encode_utf8(
        full_key(tk.0, tk.1),
    ) != encode_utf8(full_key(t, k)) by {
        if encode_utf8(full_key(tk.0, tk.1)) == encode_utf8(full_key(t, k)) {
            lemma_full_key_injective(tk.0, tk.1, t, k);
        }
    }
    assert(sled_view(raw2) =~= sled_view(raw).remove((t, k)));
}

/// Turns an optional outcome into an outcome that may hold nothing.
pub fn flip<T, E>(x: Option<Result<T, E>>) -> (r: Result<Option<T>, E>)
    ensures
        match x {
            None => r == Ok::<Option<T>, E>(None),
            Some(Ok(v)) => r == Ok::<Option<T>, E>(Some(v)),
            Some(Err(e)) => r == Err::<Option<T>, E>(e),
        },
{
    match x {
        None => Ok(None),
        Some(Ok(v)) => Ok(Some(v)),
        Some(Err(e)) => Err(e),
    }
}

/// The key that a composite key carries after the prefix of its table, if those bytes are UTF-8.
pub fn ivec_to_key(ivec: &[u8], prefix_len: usize) -> (r: Option<String>)
    requires
        prefix_len <= ivec@.len(),
    ensures
        r is Some <==> valid_utf8(ivec@.subrange(prefix_len as int, ivec@.len() as int)),
        r matches Some(s) ==> s@ == decode_utf8(ivec@.subrange(prefix_len as int, ivec@.len() as int)),
{
    string_from_utf8(tail_bytes(ivec, prefix_len))
}

fn has_separator(s: &str) -> (r: bool)
    ensures
        r == s@.contains(':'),
{
    let n = s.unicode_len();
    let mut i: usize = 0;
    while i < n
        invariant
            n == s@.len(),
            i <= n,
            forall|j: int| 0 <= j < i ==> s@[j] != ':',
        decreases n - i,
    {
        if s.get_char(i) == ':' {
            return true;
        }
        i = i + 1;
    }
    false
}

fn separator_error(table: &str) -> (r: KvError)
    ensures
        r is InvalidCommand,
{
    let mut s = String::from_str("table name holds ':': ");
    s.append(table);
    KvError::InvalidCommand(s)
}

fn storage_error(op: &str, table: &str, key: &str, cause: String) -> (r: KvError)
    ensures
        r matches KvError::StorageError(o, t, k, c) && o@ == op@ && t@ == table@ && k@ == key@ && c
            == cause,
{
    KvError::StorageError(op.to_owned(), table.to_owned(), key.to_owned(), cause)
}

/// A persistent backend on a sled database: each entry is stored under the
/// composite key `table:key`, and a table is listed by a prefix scan.
pub struct SledDb(sled::Db);

impl SledDb {
    /// A backend on an opened database, which this backend alone writes.
    pub fn new(db: sled::Db) -> (r: SledDb)
        ensures
            r.contents() == sled_view(db_contents(db)),
    {
        SledDb(db)
    }

    fn get_full_key(table: &str, key: &str) -> (r: String)
        ensures
            r@ == full_key(table@, key@),
    {
        let mut s = String::from_str(table);
        s.append(":");
        s.append(key);
        proof {
            reveal_strlit(":");
            assert(s@ =~= full_key(table@, key@));
        }
        s
    }

    fn get_table_prefix(table: &str) -> (r: String)
        ensures
            r@ == table_prefix(table@),
    {
        let mut s = String::from_str(table);
        s.append(":");
        proof {
            reveal_strlit(":");
            assert(s@ =~= table_prefix(table@));
        }
        s
    }

    fn decode_stored(o: Option<Vec<u8>>) -> (r: Result<Option<Value>, KvError>)
        ensures
            match bytes_model(o) {
                None => r == Ok::<Option<Value>, KvError>(None),
                Some(b) => match decode_spec(b) {
                    Some(v) => r matches Ok(Some(x)) && x@ == v,
                    None => r == Err::<Option<Value>, KvError>(KvError::DecodeError),
                },
            },
    {
        let decoded = match o {
            None => None,
            Some(b) => Some(decode_value(b.as_slice())),
        };
        flip(decoded)
    }
}

impl Storage for SledDb {
    closed spec fn contents(&self) -> StoreModel {
        sled_view(db_contents(self.0))
    }

    open spec fn reliable(&self) -> bool {
        false
    }

    open spec fn well_formed(&self) -> bool {
        true
    }

    fn get(&self, table: &str, key: &str) -> (r: Result<Option<Value>, KvError>)
        ensures
            (r matches Err(e) && e is InvalidCommand) <==> table@.contains(':'),
            r matches Err(e) ==> e is InvalidCommand || e is StorageError || e is DecodeError,
            (r matches Err(e) && e is DecodeError) ==> !self.contents().contains_key((table@, key@)),
    {
        if has_separator(table) {
            return Err(separator_error(table));
        }
        let name = SledDb::get_full_key(table, key);
        match db_get(&self.0, name.as_str().as_bytes()) {
            Ok(o) => SledDb::decode_stored(o),
            Err(e) => Err(storage_error("get", table, key, e)),
        }
    }

    fn set(&mut self, table: &str, key: String, value: Value) -> (r: Result<Option<Value>, KvError>)
        ensures
            (r matches Err(e) && e is InvalidCommand) <==> table@.contains(':'),
            r matches Err(e) ==> e is InvalidCommand || e is StorageError || e is DecodeError,
            (r matches Err(e) && e is DecodeError) ==> final(self).contents() == old(self).contents().insert(
                (table@, key@),
                value@,
            ),
    {
        if has_separator(table) {
            return Err(separator_error(table));
        }
        let name = SledDb::get_full_key(table, key.as_str());
        let data = encode_value(&value);
        let ghost raw = db_contents(self.0);
        match db_insert(&mut self.0, name.as_str().as_bytes(), data) {
            Ok(o) => {
                proof {
                    lemma_view_insert(raw, table@, key@, value@);
                }
                SledDb::decode_stored(o)
            },
            Err(e) => Err(storage_error("set", table, key.as_str(), e)),
        }
    }

    fn contains(&self, table: &str, key: &str) -> (r: Result<bool, KvError>)
        ensures
            (r matches Err(e) && e is InvalidCommand) <==> table@.contains(':'),
            r matches Err(e) ==> e is InvalidCommand || e is StorageError || e is DecodeError,
    {
        match self.get(table, key) {
            Ok(o) => Ok(o.is_some()),
            Err(e) => Err(e),
        }
    }

    fn del(&mut self, table: &str, key: &str) -> (r: Result<Option<Value>, KvError>)
        ensures
            (r matches Err(e) && e is InvalidCommand) <==> table@.contains(':'),
            r matches Err(e) ==> e is InvalidCommand || e is StorageError || e is DecodeError,
            (r matches Err(e) && e is DecodeError) ==> final(self).contents() == old(self).contents().remove(
                (table@, key@),
            ),
    {
        if has_separator(table) {
            return Err(separator_error(table));
        }
        let name = SledDb::get_full_key(table, key);
        let ghost raw = db_contents(self.0);
        match db_remove(&mut self.0, name.as_str().as_bytes()) {
            Ok(o) => {
                proof {
                    lemma_view_remove(raw, table@, key@);
                }
                SledDb::decode_stored(o)
            },
            Err(e) => Err(storage_error("del", table, key, e)),
        }
    }

    fn get_all(&self, table: &str) -> (r: Result<Vec<Kvpair>, KvError>)
        ensures
            (r matches Err(e) && e is InvalidCommand) <==> table@.contains(':'),
            r matches Err(e) ==> e is InvalidCommand || e is StorageError || e is DecodeError,
            r matches Ok(ps) ==> forall|i: int, j: int|
                0 <= i < j < ps@.len() ==> bytes_lt(
                    encode_utf8(#[trigger] ps@[i].key@),
                    encode_utf8(#[trigger] ps@[j].key@),
                ),
    {
        if has_separator(table) {
            return Err(separator_error(table));
        }
        let prefix = SledDb::get_table_prefix(table);
        let pb = prefix.as_str().as_bytes();
        let es = match db_scan_prefix(&self.0, pb) {
            Ok(es) => es,
            Err(e) => {
                return Err(storage_error("get_all", table, "", e));
            },
        };
        let ghost raw = db_contents(self.0);
        let ghost m = self.contents();
        let ghost pl = pb@.len() as int;
        let ps = match pairs_from_scan(&es, pb.len()) {
            Ok(ps) => ps,
            Err(e) => {
                return Err(e);
            },
        };
        proof {
            let pm = ps@.map_values(|p: Kvpair| pair_model(p));
            let t = table@;
            assert(pb@ == encode_utf8(table_prefix(t)));
            assert forall|a: int| 0 <= a < pm.len() implies encode_utf8(full_key(t, #[trigger] pm[a].0))
                == es@[a].0@ && pb@ + encode_utf8(pm[a].0) == es@[a].0@ by {
                let suffix = es@[a].0@.subrange(pl, es@[a].0@.len() as int);
                vstd::utf8::decode_utf8_encode_utf8(suffix);
                assert(es@[a].0@ =~= pb@ + suffix);
                lemma_encode_concat(table_prefix(t), pm[a].0);
                assert(full_key(t, pm[a].0) =~= table_prefix(t) + pm[a].0);
            }
            assert forall|a: int, b: int| 0 <= a < b < pm.len() implies #[trigger] pm[a].0 != #[trigger] pm[b].0 by {
                assert(encode_utf8(full_key(t, pm[a].0)) == es@[a].0@);
                assert(encode_utf8(full_key(t, pm[b].0)) == es@[b].0@);
            }
            assert forall|a: int| 0 <= a < pm.len() implies m.contains_key((t, #[trigger] pm[a].0)) && pm[a].1 == Some(
                m[(t, pm[a].0)],
            ) by {
                assert(encode_utf8(full_key(t, pm[a].0)) == es@[a].0@);
            }
            assert forall|k: Seq<char>| #[trigger] m.contains_key((t, k)) implies exists|a: int|
                0 <= a < pm.len() && pm[a].0 == k by {
                let fk = encode_utf8(full_key(t, k));
                lemma_encode_concat(table_prefix(t), k);
                assert(full_key(t, k) =~= table_prefix(t) + k);
                assert(fk.subrange(0, pl) =~= pb@);
                assert(raw.contains_key(fk) && has_prefix(fk, pb@));
                let j = choose|j: int| 0 <= j < es@.len() && es@[j].0@ == fk;
                assert(encode_utf8(full_key(t, pm[j].0)) == fk);
                lemma_full_key_injective(t, pm[j].0, t, k);
            }
            assert forall|i: int, j: int| 0 <= i < j < ps@.len() implies bytes_lt(
                encode_utf8(#[trigger] ps@[i].key@),
                encode_utf8(#[trigger] ps@[j].key@),
            ) by {
                assert(pm[i].0 == ps@[i].key@ && pm[j].0 == ps@[j].key@);
                lemma_lt_drop_prefix(pb@, encode_utf8(pm[i].0), encode_utf8(pm[j].0));
            }
        }
        Ok(ps)
    }
}

/// `a` comes before `b` in lexicographic byte order.
pub open spec fn bytes_lt(a: Seq<u8>, b: Seq<u8>) -> bool {
    exists|n: int|
        0 <= n <= a.len() && n <= b.len() && #[trigger] a.subrange(0, n) == b.subrange(0, n) && (
        (n == a.len() && n < b.len()) || (n < a.len() && n < b.len() && a[n] < b[n]))
}

proof fn lemma_lt_drop_prefix(p: Seq<u8>, x: Seq<u8>, y: Seq<u8>)
    requires
        bytes_lt(p + x, p + y),
    ensures
        bytes_lt(x, y),
{
    let a = p + x;
    let b = p + y;
    let n = choose|n: int|
        0 <= n <= a.len() && n <= b.len() && #[trigger] a.subrange(0, n) == b.subrange(0, n) && (
        (n == a.len() && n < b.len()) || (n < a.len() && n < b.len() && a[n] < b[n]));
    if n < p.len() {
        assert(a[n] == p[n] && b[n] == p[n]);
    } else {
        let m = n - p.len();
        assert forall|i: int| 0 <= i < m implies x[i] == y[i] by {
            assert(a.subrange(0, n)[p.len() + i] == a[p.len() + i]);
            assert(b.subrange(0, n)[p.len() + i] == b[p.len() + i]);
        }
        assert(x.subrange(0, m) =~= y.subrange(0, m));
        if m < x.len() && m < y.len() {
            assert(a[n] == x[m] && b[n] == y[m]);
        }
    }
}

/// The scan entry at `k`, `v` is a pair: the key bytes after the prefix are UTF-8
/// and the value bytes decode.
pub open spec fn entry_decodes(prefix_len: int, k: Seq<u8>, v: Seq<u8>) -> bool {
    valid_utf8(k.subrange(prefix_len, k.len() as int)) && decode_spec(v) is Some
}

/// The pairs that the entries of a table's prefix scan hold, in scan order: each
/// key is what follows the prefix, each value is decoded. An entry that does not
/// decode gives `DecodeError`.
pub fn pairs_from_scan(es: &Vec<(Vec<u8>, Vec<u8>)>, prefix_len: usize) -> (r: Result<Vec<Kvpair>, KvError>)
    requires
        forall|i: int| 0 <= i < es@.len() ==> prefix_len <= (#[trigger] es@[i]).0@.len(),
    ensures
        r is Ok <==> forall|i: int|
            0 <= i < es@.len() ==> entry_decodes(prefix_len as int, (#[trigger] es@[i]).0@, es@[i].1@),
        r matches Err(e) ==> e == KvError::DecodeError,
        r matches Ok(ps) ==> {
            &&& ps@.len() == es@.len()
            &&& forall|i: int|
                0 <= i < es@.len() ==> pair_model(#[trigger] ps@[i]) == (
                    decode_utf8(es@[i].0@.subrange(prefix_len as int, es@[i].0@.len() as int)),
                    decode_spec(es@[i].1@),
                )
        },
{
    let mut out: Vec<Kvpair> = Vec::new();
    let mut i: usize = 0;
    while i < es.len()
        invariant
            i <= es@.len(),
            out@.len() == i,
            forall|j: int| 0 <= j < es@.len() ==> prefix_len <= (#[trigger] es@[j]).0@.len(),
            forall|j: int| 0 <= j < i ==> entry_decodes(prefix_len as int, (#[trigger] es@[j]).0@, es@[j].1@),
            forall|j: int|
                0 <= j < i ==> pair_model(#[trigger] out@[j]) == (
                    decode_utf8(es@[j].0@.subrange(prefix_len as int, es@[j].0@.len() as int)),
                    decode_spec(es@[j].1@),
                ),
        decreases es@.len() - i,
    {
        let key = ivec_to_key(es[i].0.as_slice(), prefix_len);
        let value = decode_value(es[i].1.as_slice());
        match (key, value) {
            (Some(k), Ok(v)) => {
                out.push(Kvpair::new(k, v));
            },
            _ => {
                assert(!entry_decodes(prefix_len as int, es@[i as int].0@, es@[i as int].1@));
                return Err(KvError::DecodeError);
            },
        }
        i = i + 1;
    }
    Ok(out)
}

} // verus!
