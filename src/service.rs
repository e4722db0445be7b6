use vstd::prelude::*;

use crate::command::{
    error_response, pairs_response, value_response, CommandRequest, CommandResponse, Hdel, Hexist,
    Hget, Hgetall, Hset, RequestData, ResponseModel, STATUS_BAD_REQUEST, STATUS_INTERNAL_ERROR,
    STATUS_NOT_FOUND, STATUS_OK,
};
use crate::error::KvError;
use crate::memory::MemTable;
use crate::storage::{lists_table, lookup, option_model, Storage, StoreModel};
use crate::value::{pair_model, Kvpair, Value, ValueModel};

verus! {

/// A status code that a response may carry.
pub open spec fn known_status(s: u32) -> bool {
    s == STATUS_OK || s == STATUS_BAD_REQUEST || s == STATUS_NOT_FOUND || s
        == STATUS_INTERNAL_ERROR
}

/// The response that reports a malformed request with the given detail.
pub open spec fn invalid_command_response(detail: Seq<char>) -> ResponseModel {
    ResponseModel {
        status: STATUS_BAD_REQUEST,
        message: "Command parse command: `"@ + detail + "`"@,
        values: Seq::empty(),
        pairs: Seq::empty(),
    }
}

/// The value that a write or removal reports: the one it replaced, or no value.
pub open spec fn previous_or_absent(o: Option<ValueModel>) -> ValueModel {
    match o {
        Some(v) => v,
        None => ValueModel::Absent,
    }
}

/// The response that a store holding `m` owes a listing of `table`.
pub open spec fn lists_response(r: ResponseModel, m: StoreModel, table: Seq<char>) -> bool {
    &&& r.status == STATUS_OK
    &&& r.message == Seq::<char>::empty()
    &&& r.values == Seq::<ValueModel>::empty()
    &&& lists_table(r.pairs, m, table)
}

/// The answer to a read of one key: its value, `NotFound` when absent, or the store's error.
pub fn get_response(table: String, key: String, r: Result<Option<Value>, KvError>) -> (res: CommandResponse)
    ensures
        res@ == match r {
            Ok(Some(v)) => value_response(v@),
            Ok(None) => error_response(KvError::NotFound(table, key)),
            Err(e) => error_response(e),
        },
{
    match r {
        Ok(Some(v)) => CommandResponse::from_value(v),
        Ok(None) => CommandResponse::from_error(KvError::NotFound(table, key)),
        Err(e) => CommandResponse::from_error(e),
    }
}

/// The answer to a write or removal: the value it replaced (no value if none), or the store's error.
pub fn previous_response(r: Result<Option<Value>, KvError>) -> (res: CommandResponse)
    ensures
        res@ == match r {
            Ok(o) => value_response(previous_or_absent(option_model(o))),
            Err(e) => error_response(e),
        },
{
    match r {
        Ok(Some(v)) => CommandResponse::from_value(v),
        Ok(None) => CommandResponse::from_value(Value::default()),
        Err(e) => CommandResponse::from_error(e),
    }
}

/// The answer to an existence check: the boolean as a value; a store failure is
/// answered as `NotFound` for the key.
pub fn contains_response(table: String, key: String, r: Result<bool, KvError>) -> (res: CommandResponse)
    ensures
        res@ == match r {
            Ok(b) => value_response(ValueModel::Bool(b)),
            Err(_) => error_response(KvError::NotFound(table, key)),
        },
{
    match r {
        Ok(b) => CommandResponse::from_value(Value::from_bool(b)),
        Err(_) => CommandResponse::from_error(KvError::NotFound(table, key)),
    }
}

/// The answer to a listing: the pairs as they came, or the store's error.
pub fn get_all_response(r: Result<Vec<Kvpair>, KvError>) -> (res: CommandResponse)
    ensures
        res@ == match r {
            Ok(ps) => pairs_response(ps@.map_values(|p: Kvpair| pair_model(p))),
            Err(e) => error_response(e),
        },
{
    match r {
        Ok(ps) => CommandResponse::from_pairs(ps),
        Err(e) => CommandResponse::from_error(e),
    }
}

/// The execution of one command against a storage backend.
///
/// Each command's answer to the store's result is the function of that result
/// stated by `get_response`, `previous_response`, `contains_response` or
/// `get_all_response`.
pub trait CommandService: Sized {
    /// `r` is the response owed to this command by a store holding `m`, when the store does not fail.
    spec fn answers(self, m: StoreModel, r: ResponseModel) -> bool;

    /// What the store holds after this command, when the store does not fail.
    spec fn effect(self, m: StoreModel) -> StoreModel;

    /// The command lacks a part it needs and is refused without touching the store.
    spec fn malformed(self) -> bool;

    /// Runs the command against `store` and returns its response.
    fn execute<S: Storage>(self, store: &mut S) -> (r: CommandResponse)
        requires
            old(store).well_formed(),
        ensures
            final(store).well_formed(),
            final(store).reliable() == old(store).reliable(),
            known_status(r@.status),
            self.malformed() ==> self.answers(old(store).contents(), r@) && *final(store) == *old(
                store,
            ),
            old(store).reliable() || r@.status == STATUS_OK ==> {
                &&& self.answers(old(store).contents(), r@)
                &&& final(store).contents() == self.effect(old(store).contents())
            },
    ;
}

/// A server that owns a store.
pub trait Service<Store = MemTable> {

}

impl CommandService for Hgetall {
    open spec fn malformed(self) -> bool {
        false
    }

    open spec fn answers(self, m: StoreModel, r: ResponseModel) -> bool {
        lists_response(r, m, self.table@)
    }

    open spec fn effect(self, m: StoreModel) -> StoreModel {
        m
    }

    fn execute<S: Storage>(self, store: &mut S) -> (r: CommandResponse) {
        let r = store.get_all(self.table.as_str());
        get_all_response(r)
    }
}

impl CommandService for Hget {
    open spec fn malformed(self) -> bool {
        false
    }

    open spec fn answers(self, m: StoreModel, r: ResponseModel) -> bool {
        match lookup(m, self.table@, self.key@) {
            Some(v) => r == value_response(v),
            None => r == error_response(KvError::NotFound(self.table, self.key)),
        }
    }

    open spec fn effect(self, m: StoreModel) -> StoreModel {
        m
    }

    fn execute<S: Storage>(self, store: &mut S) -> (r: CommandResponse) {
        let r = store.get(self.table.as_str(), self.key.as_str());
        get_response(self.table, self.key, r)
    }
}

impl CommandService for Hset {
    open spec fn malformed(self) -> bool {
        self.pair is None
    }

    open spec fn answers(self, m: StoreModel, r: ResponseModel) -> bool {
        match self.pair {
            Some(p) => r == value_response(previous_or_absent(lookup(m, self.table@, p.key@))),
            None => r == invalid_command_response("hset: pair is missing"@),
        }
    }

    open spec fn effect(self, m: StoreModel) -> StoreModel {
        match self.pair {
            Some(p) => m.insert(
                (self.table@, p.key@),
                match p.value {
                    Some(v) => v@,
                    None => ValueModel::Absent,
                },
            ),
            None => m,
        }
    }

    fn execute<S: Storage>(self, store: &mut S) -> (r: CommandResponse) {
        match self.pair {
            Some(p) => {
                let value = match p.value {
                    Some(v) => v,
                    None => Value::default(),
                };
                let r = store.set(self.table.as_str(), p.key, value);
                previous_response(r)
            },
            None => CommandResponse::from_error(
                KvError::InvalidCommand(String::from_str("hset: pair is missing")),
            ),
        }
    }
}

impl CommandService for Hexist {
    open spec fn malformed(self) -> bool {
        false
    }

    open spec fn answers(self, m: StoreModel, r: ResponseModel) -> bool {
        r == value_response(ValueModel::Bool(m.contains_key((self.table@, self.key@))))
    }

    open spec fn effect(self, m: StoreModel) -> StoreModel {
        m
    }

    fn execute<S: Storage>(self, store: &mut S) -> (r: CommandResponse) {
        let r = store.contains(self.table.as_str(), self.key.as_str());
        contains_response(self.table, self.key, r)
    }
}

impl CommandService for Hdel {
    open spec fn malformed(self) -> bool {
        false
    }

    open spec fn answers(self, m: StoreModel, r: ResponseModel) -> bool {
        r == value_response(previous_or_absent(lookup(m, self.table@, self.key@)))
    }

    open spec fn effect(self, m: StoreModel) -> StoreModel {
        m.remove((self.table@, self.key@))
    }

    fn execute<S: Storage>(self, store: &mut S) -> (r: CommandResponse) {
        let r = store.del(self.table.as_str(), self.key.as_str());
        previous_response(r)
    }
}

/// `r` is the response owed to `cmd` by a store holding `m`, when the store does not fail.
pub open spec fn request_answers(cmd: CommandRequest, m: StoreModel, r: ResponseModel) -> bool {
    match cmd.request_data {
        Some(RequestData::Hget(c)) => c.answers(m, r),
        Some(RequestData::Hgetall(c)) => c.answers(m, r),
        Some(RequestData::Hset(c)) => c.answers(m, r),
        Some(RequestData::Hexist(c)) => c.answers(m, r),
        Some(RequestData::Hdel(c)) => c.answers(m, r),
        None => r == invalid_command_response("request holds no command"@),
    }
}

/// `cmd` names no command, or names one that lacks a part it needs.
pub open spec fn request_malformed(cmd: CommandRequest) -> bool {
    match cmd.request_data {
        Some(RequestData::Hget(c)) => c.malformed(),
        Some(RequestData::Hgetall(c)) => c.malformed(),
        Some(RequestData::Hset(c)) => c.malformed(),
        Some(RequestData::Hexist(c)) => c.malformed(),
        Some(RequestData::Hdel(c)) => c.malformed(),
        None => true,
    }
}

/// What a store holding `m` holds after `cmd`, when the store does not fail.
pub open spec fn request_effect(cmd: CommandRequest, m: StoreModel) -> StoreModel {
    match cmd.request_data {
        Some(RequestData::Hget(c)) => c.effect(m),
        Some(RequestData::Hgetall(c)) => c.effect(m),
        Some(RequestData::Hset(c)) => c.effect(m),
        Some(RequestData::Hexist(c)) => c.effect(m),
        Some(RequestData::Hdel(c)) => c.effect(m),
        None => m,
    }
}

/// Routes `cmd` to its command and returns the response; every request gets one.
pub fn dispatch<S: Storage>(cmd: CommandRequest, store: &mut S) -> (r: CommandResponse)
    requires
        old(store).well_formed(),
    ensures
        final(store).well_formed(),
        final(store).reliable() == old(store).reliable(),
        known_status(r@.status),
        request_malformed(cmd) ==> request_answers(cmd, old(store).contents(), r@) && *final(store)
            == *old(store),
        old(store).reliable() || r@.status == STATUS_OK ==> {
            &&& request_answers(cmd, old(store).contents(), r@)
            &&& final(store).contents() == request_effect(cmd, old(store).contents())
        },
{
    match cmd.request_data {
        Some(RequestData::Hget(c)) => c.execute(store),
        Some(RequestData::Hgetall(c)) => c.execute(store),
        Some(RequestData::Hset(c)) => c.execute(store),
        Some(RequestData::Hexist(c)) => c.execute(store),
        Some(RequestData::Hdel(c)) => c.execute(store),
        None => CommandResponse::from_error(
            KvError::InvalidCommand(String::from_str("request holds no command")),
        ),
    }
}

} // verus!
