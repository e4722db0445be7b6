use vstd::prelude::*;

verus! {

/// The payload of a present value.
#[derive(Debug, PartialEq)]
pub enum ValueKind {
    String(String),
    Binary(Vec<u8>),
    Integer(i64),
    /// A 64-bit float, held as its IEEE-754 bit pattern.
    Float(u64),
    Bool(bool),
}

/// A typed scalar value; `value == None` is the distinct "no value" state.
#[derive(Debug, PartialEq)]
pub struct Value {
    pub value: Option<ValueKind>,
}

/// The mathematical model of a `Value`.
pub enum ValueModel {
    Absent,
    Str(Seq<char>),
    Binary(Seq<u8>),
    Integer(i64),
    Float(u64),
    Bool(bool),
}

impl View for Value {
    type V = ValueModel;

    open spec fn view(&self) -> ValueModel {
        match self.value {
            None => ValueModel::Absent,
            Some(ValueKind::String(s)) => ValueModel::Str(s@),
            Some(ValueKind::Binary(b)) => ValueModel::Binary(b@),
            Some(ValueKind::Integer(i)) => ValueModel::Integer(i),
            Some(ValueKind::Float(f)) => ValueModel::Float(f),
            Some(ValueKind::Bool(b)) => ValueModel::Bool(b),
        }
    }
}

impl Value {
    /// A copy of this value with the same model.
    pub fn duplicate(&self) -> (r: Value)
        ensures
            r@ == self@,
    {
        match &self.value {
            None => Value { value: None },
            Some(ValueKind::String(s)) => Value { value: Some(ValueKind::String(s.clone())) },
            Some(ValueKind::Binary(b)) => {
                let c = b.clone();
                assert(c@ =~= b@);
                Value { value: Some(ValueKind::Binary(c)) }
            },
            Some(ValueKind::Integer(i)) => Value { value: Some(ValueKind::Integer(*i)) },
            Some(ValueKind::Float(f)) => Value { value: Some(ValueKind::Float(*f)) },
            Some(ValueKind::Bool(b)) => Value { value: Some(ValueKind::Bool(*b)) },
        }
    }
}

impl Default for Value {
    fn default() -> (r: Value)
        ensures
            r@ == ValueModel::Absent,
    {
        Value { value: None }
    }
}

impl From<i32> for Value {
    fn from(v: i32) -> (r: Value) {
        Value { value: Some(ValueKind::Integer(v as i64)) }
    }
}

impl vstd::std_specs::convert::FromSpecImpl<i32> for Value {
    open spec fn obeys_from_spec() -> bool {
        true
    }

    open spec fn from_spec(v: i32) -> Value {
        Value { value: Some(ValueKind::Integer(v as i64)) }
    }
}

impl From<String> for Value {
    fn from(v: String) -> (r: Value) {
        Value { value: Some(ValueKind::String(v)) }
    }
}

impl vstd::std_specs::convert::FromSpecImpl<String> for Value {
    open spec fn obeys_from_spec() -> bool {
        true
    }

    open spec fn from_spec(v: String) -> Value {
        Value { value: Some(ValueKind::String(v)) }
    }
}

impl Value {
    /// A boolean value.
    pub fn from_bool(v: bool) -> (r: Value)
        ensures
            r@ == ValueModel::Bool(v),
    {
        Value { value: Some(ValueKind::Bool(v)) }
    }

    /// A string value holding a copy of `s`.
    pub fn from_str(s: &str) -> (r: Value)
        ensures
            r@ == ValueModel::Str(s@),
    {
        Value { value: Some(ValueKind::String(s.to_owned())) }
    }
}

/// A key bound to a value.
#[derive(Debug, PartialEq)]
pub struct Kvpair {
    pub key: String,
    pub value: Option<Value>,
}

/// The model of a pair: its key and, when present, the model of its value.
pub open spec fn pair_model(p: Kvpair) -> (Seq<char>, Option<ValueModel>) {
    (p.key@, match p.value {
        Some(v) => Some(v@),
        None => None,
    })
}

impl Kvpair {
    pub fn new(key: String, value: Value) -> (r: Kvpair)
        ensures
            r.key@ == key@,
            r.value matches Some(v) && v@ == value@,
    {
        Kvpair { key, value: Some(value) }
    }
}

} // verus!
