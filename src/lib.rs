pub mod codec;
pub mod command;
pub mod error;
pub mod laws;
pub mod memory;
pub mod service;
pub mod sleddb;
pub mod storage;
pub mod value;

pub use command::{
    CommandRequest, CommandResponse, Hdel, Hexist, Hget, Hgetall, Hset, RequestData, ResponseModel,
};
pub use error::KvError;
pub use memory::MemTable;
pub use service::{dispatch, CommandService, Service};
pub use sleddb::SledDb;
pub use storage::Storage;
pub use value::{Kvpair, Value, ValueKind, ValueModel};
