use vstd::prelude::*;

use crate::error::KvError;
use crate::value::{pair_model, Kvpair, Value, ValueModel};

verus! {

/// Set `pair` in `table`.
#[derive(Debug, PartialEq)]
pub struct Hset {
    pub table: String,
    pub pair: Option<Kvpair>,
}

/// Read `key` from `table`.
#[derive(Debug, PartialEq)]
pub struct Hget {
    pub table: String,
    pub key: String,
}

/// List every pair of `table`.
#[derive(Debug, PartialEq)]
pub struct Hgetall {
    pub table: String,
}

/// Ask whether `key` is present in `table`.
#[derive(Debug, PartialEq)]
pub struct Hexist {
    pub table: String,
    pub key: String,
}

/// Remove `key` from `table`.
#[derive(Debug, PartialEq)]
pub struct Hdel {
    pub table: String,
    pub key: String,
}

#[derive(Debug, PartialEq)]
pub enum RequestData {
    Hget(Hget),
    Hgetall(Hgetall),
    Hset(Hset),
    Hexist(Hexist),
    Hdel(Hdel),
}

/// A decoded client command; `request_data == None` is a malformed request.
#[derive(Debug, PartialEq)]
pub struct CommandRequest {
    pub request_data: Option<RequestData>,
}

/// The reply to one command: a status code, an error text, and either values or pairs.
#[derive(Debug, PartialEq)]
pub struct CommandResponse {
    pub status: u32,
    pub message: String,
    pub values: Vec<Value>,
    pub pairs: Vec<Kvpair>,
}

/// The mathematical model of a `CommandResponse`.
pub struct ResponseModel {
    pub status: u32,
    pub message: Seq<char>,
    pub values: Seq<ValueModel>,
    pub pairs: Seq<(Seq<char>, Option<ValueModel>)>,
}

pub const STATUS_OK: u32 = 200;

pub const STATUS_BAD_REQUEST: u32 = 400;

pub const STATUS_NOT_FOUND: u32 = 404;

pub const STATUS_INTERNAL_ERROR: u32 = 500;

impl View for CommandResponse {
    type V = ResponseModel;

    open spec fn view(&self) -> ResponseModel {
        ResponseModel {
            status: self.status,
            message: self.message@,
            values: self.values@.map_values(|v: Value| v@),
            pairs: self.pairs@.map_values(|p: Kvpair| pair_model(p)),
        }
    }
}

/// The response that carries one value.
pub open spec fn value_response(v: ValueModel) -> ResponseModel {
    ResponseModel { status: STATUS_OK, message: Seq::empty(), values: seq![v], pairs: Seq::empty() }
}

/// The response that carries a sequence of pairs.
pub open spec fn pairs_response(ps: Seq<(Seq<char>, Option<ValueModel>)>) -> ResponseModel {
    ResponseModel { status: STATUS_OK, message: Seq::empty(), values: Seq::empty(), pairs: ps }
}

/// The status code that reports an error of this kind.
pub open spec fn error_status(e: KvError) -> u32 {
    match e {
        KvError::NotFound(_, _) => STATUS_NOT_FOUND,
        KvError::InvalidCommand(_) => STATUS_BAD_REQUEST,
        _ => STATUS_INTERNAL_ERROR,
    }
}

/// The response that reports an error.
pub open spec fn error_response(e: KvError) -> ResponseModel {
    ResponseModel {
        status: error_status(e),
        message: e.message_spec(),
        values: Seq::empty(),
        pairs: Seq::empty(),
    }
}

/// Relies on http's `StatusCode::OK`, whose code is 200.
#[verifier::external_body]
fn code_ok() -> (r: u16)
    ensures
        r == 200,
{
    http::StatusCode::OK.as_u16()
}

/// Relies on http's `StatusCode::BAD_REQUEST`, whose code is 400.
#[verifier::external_body]
fn code_bad_request() -> (r: u16)
    ensures
        r == 400,
{
    http::StatusCode::BAD_REQUEST.as_u16()
}

/// Relies on http's `StatusCode::NOT_FOUND`, whose code is 404.
#[verifier::external_body]
fn code_not_found() -> (r: u16)
    ensures
        r == 404,
{
    http::StatusCode::NOT_FOUND.as_u16()
}

/// Relies on http's `StatusCode::INTERNAL_SERVER_ERROR`, whose code is 500.
#[verifier::external_body]
fn code_internal_error() -> (r: u16)
    ensures
        r == 500,
{
    http::StatusCode::INTERNAL_SERVER_ERROR.as_u16()
}

impl CommandResponse {
    /// A success response that carries `v`.
    pub fn from_value(v: Value) -> (r: CommandResponse)
        ensures
            r@ == value_response(v@),
    {
        let values = vec![v];
        let r = CommandResponse {
            status: code_ok() as u32,
            message: String::new(),
            values,
            pairs: Vec::new(),
        };
        assert(r@.values =~= seq![v@]);
        assert(r@.pairs =~= Seq::<(Seq<char>, Option<ValueModel>)>::empty());
        r
    }

    /// A success response that carries `pairs`.
    pub fn from_pairs(pairs: Vec<Kvpair>) -> (r: CommandResponse)
        ensures
            r@ == pairs_response(pairs@.map_values(|p: Kvpair| pair_model(p))),
    {
        let r = CommandResponse { status: code_ok() as u32, message: String::new(), values: Vec::new(), pairs };
        assert(r@.values =~= Seq::<ValueModel>::empty());
        r
    }

    /// The response that reports `e`: not found, bad request, or an internal error.
    pub fn from_error(e: KvError) -> (r: CommandResponse)
        ensures
            r@ == error_response(e),
    {
        let message = e.message();
        let status = match e {
            KvError::NotFound(_, _) => code_not_found(),
            KvError::InvalidCommand(_) => code_bad_request(),
            _ => code_internal_error(),
        };
        let r = CommandResponse { status: status as u32, message, values: Vec::new(), pairs: Vec::new() };
        assert(r@.values =~= Seq::<ValueModel>::empty());
        assert(r@.pairs =~= Seq::<(Seq<char>, Option<ValueModel>)>::empty());
        r
    }
}

impl CommandRequest {
    pub fn new_hset(table: &str, key: &str, value: Value) -> (r: CommandRequest)
        ensures
            r.request_data matches Some(RequestData::Hset(c)) && c.table@ == table@
                && (c.pair matches Some(p) && p.key@ == key@ && (p.value matches Some(v)
                && v@ == value@)),
    {
        CommandRequest {
            request_data: Some(RequestData::Hset(Hset {
                table: table.to_owned(),
                pair: Some(Kvpair::new(key.to_owned(), value)),
            })),
        }
    }

    pub fn new_hget(table: &str, key: &str) -> (r: CommandRequest)
        ensures
            r.request_data matches Some(RequestData::Hget(c)) && c.table@ == table@ && c.key@
                == key@,
    {
        CommandRequest {
            request_data: Some(RequestData::Hget(Hget { table: table.to_owned(), key: key.to_owned() })),
        }
    }

    pub fn new_hgetall(table: &str) -> (r: CommandRequest)
        ensures
            r.request_data matches Some(RequestData::Hgetall(c)) && c.table@ == table@,
    {
        CommandRequest { request_data: Some(RequestData::Hgetall(Hgetall { table: table.to_owned() })) }
    }

    pub fn new_hcontains(table: &str, key: &str) -> (r: CommandRequest)
        ensures
            r.request_data matches Some(RequestData::Hexist(c)) && c.table@ == table@ && c.key@
                == key@,
    {
        CommandRequest {
            request_data: Some(RequestData::Hexist(Hexist { table: table.to_owned(), key: key.to_owned() })),
        }
    }

    pub fn new_hdel(table: &str, key: &str) -> (r: CommandRequest)
        ensures
            r.request_data matches Some(RequestData::Hdel(c)) && c.table@ == table@ && c.key@
                == key@,
    {
        CommandRequest {
            request_data: Some(RequestData::Hdel(Hdel { table: table.to_owned(), key: key.to_owned() })),
        }
    }
}

} // verus!
