use vstd::prelude::*;

verus! {

/// The closed set of failures that cross the storage and command boundary.
#[derive(Debug, PartialEq)]
pub enum KvError {
    NotFound(String, String),
    InvalidCommand(String),
    ConvertError(String, String),
    StorageError(String, String, String, String),
    EncodeError,
    DecodeError,
    Internal(String),
}

impl KvError {
    /// The human-readable text of the error.
    pub open spec fn message_spec(&self) -> Seq<char> {
        match self {
            KvError::NotFound(t, k) => "Not found for table:"@ + t@ + ", key:"@ + k@,
            KvError::InvalidCommand(c) => "Command parse command: `"@ + c@ + "`"@,
            KvError::ConvertError(f, t) => "Cannot convert value "@ + f@ + " to "@ + t@,
            KvError::StorageError(c, t, k, e) => "Cannot process command "@ + c@ + " with table: "@
                + t@ + ", key: "@ + k@ + ". Error: "@ + e@,
            KvError::EncodeError => "Failed to encode protobuf message"@,
            KvError::DecodeError => "Failed to decode protobuf message"@,
            KvError::Internal(d) => "Internal error: "@ + d@,
        }
    }

    /// Renders the error as text.
    pub fn message(&self) -> (r: String)
        ensures
            r@ == self.message_spec(),
    {
        match self {
            KvError::NotFound(t, k) => {
                let mut s = String::from_str("Not found for table:");
                s.append(t.as_str());
                s.append(", key:");
                s.append(k.as_str());
                s
            },
            KvError::InvalidCommand(c) => {
                let mut s = String::from_str("Command parse command: `");
                s.append(c.as_str());
                s.append("`");
                s
            },
            KvError::ConvertError(f, t) => {
                let mut s = String::from_str("Cannot convert value ");
                s.append(f.as_str());
                s.append(" to ");
                s.append(t.as_str());
                s
            },
            KvError::StorageError(c, t, k, e) => {
                let mut s = String::from_str("Cannot process command ");
                s.append(c.as_str());
                s.append(" with table: ");
                s.append(t.as_str());
                s.append(", key: ");
                s.append(k.as_str());
                s.append(". Error: ");
                s.append(e.as_str());
                s
            },
            KvError::EncodeError => String::from_str("Failed to encode protobuf message"),
            KvError::DecodeError => String::from_str("Failed to decode protobuf message"),
            KvError::Internal(d) => {
                let mut s = String::from_str("Internal error: ");
                s.append(d.as_str());
                s
            },
        }
    }
}

} // verus!
