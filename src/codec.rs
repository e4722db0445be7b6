use vstd::prelude::*;
use vstd::utf8::{decode_utf8, encode_utf8, valid_utf8};

use crate::error::KvError;
use crate::value::{Value, ValueKind, ValueModel};

verus! {

/// The eight little-endian bytes of `x`.
pub open spec fn u64_le(x: u64) -> Seq<u8> {
    seq![
        x as u8,
        (x >> 8u64) as u8,
        (x >> 16u64) as u8,
        (x >> 24u64) as u8,
        (x >> 32u64) as u8,
        (x >> 40u64) as u8,
        (x >> 48u64) as u8,
        (x >> 56u64) as u8,
    ]
}

/// The integer whose little-endian bytes are the first eight of `b`.
pub open spec fn le_u64(b: Seq<u8>) -> u64
    recommends
        b.len() >= 8,
{
    (b[0] as u64) | (b[1] as u64) << 8u64 | (b[2] as u64) << 16u64 | (b[3] as u64) << 24u64 | (
    b[4] as u64) << 32u64 | (b[5] as u64) << 40u64 | (b[6] as u64) << 48u64 | (b[7] as u64)
        << 56u64
}

proof fn lemma_le_round_trip(x: u64)
    ensures
        le_u64(u64_le(x)) == x,
{
    let b = u64_le(x);
    let (b0, b1, b2, b3, b4, b5, b6, b7) = (b[0], b[1], b[2], b[3], b[4], b[5], b[6], b[7]);
    assert((b0 as u64) | (b1 as u64) << 8u64 | (b2 as u64) << 16u64 | (b3 as u64) << 24u64 | (
    b4 as u64) << 32u64 | (b5 as u64) << 40u64 | (b6 as u64) << 48u64 | (b7 as u64) << 56u64
        == x) by (bit_vector)
        requires
            b0 == x as u8,
            b1 == (x >> 8u64) as u8,
            b2 == (x >> 16u64) as u8,
            b3 == (x >> 24u64) as u8,
            b4 == (x >> 32u64) as u8,
            b5 == (x >> 40u64) as u8,
            b6 == (x >> 48u64) as u8,
            b7 == (x >> 56u64) as u8,
    ;
}

/// The stored form of a value: a tag byte, then the payload (UTF-8 text, raw
/// bytes, eight little-endian bytes, or one byte for a boolean).
///
/// This is the library's own format, not a protobuf encoding: a database
/// written by a protobuf-based store is not read back by this one.
pub open spec fn value_bytes(v: ValueModel) -> Seq<u8> {
    match v {
        ValueModel::Absent => seq![0u8],
        ValueModel::Str(s) => seq![1u8] + encode_utf8(s),
        ValueModel::Binary(b) => seq![2u8] + b,
        ValueModel::Integer(i) => seq![3u8] + u64_le(i as u64),
        ValueModel::Float(f) => seq![4u8] + u64_le(f),
        ValueModel::Bool(b) => seq![5u8, if b { 1u8 } else { 0u8 }],
    }
}

/// The value whose stored form is `b`, if `b` is one.
pub open spec fn decode_spec(b: Seq<u8>) -> Option<ValueModel> {
    if b.len() == 0 {
        None
    } else {
        let rest = b.subrange(1, b.len() as int);
        if b[0] == 0 && rest.len() == 0 {
            Some(ValueModel::Absent)
        } else if b[0] == 1 && valid_utf8(rest) {
            Some(ValueModel::Str(decode_utf8(rest)))
        } else if b[0] == 2 {
            Some(ValueModel::Binary(rest))
        } else if b[0] == 3 && rest.len() == 8 {
            Some(ValueModel::Integer(le_u64(rest) as i64))
        } else if b[0] == 4 && rest.len() == 8 {
            Some(ValueModel::Float(le_u64(rest)))
        } else if b[0] == 5 && rest.len() == 1 && rest[0] <= 1 {
            Some(ValueModel::Bool(rest[0] == 1))
        } else {
            None
        }
    }
}

/// Decoding the stored form of a value gives the value back.
pub proof fn lemma_value_round_trip(v: ValueModel)
    ensures
        decode_spec(value_bytes(v)) == Some(v),
{
    let b = value_bytes(v);
    let rest = b.subrange(1, b.len() as int);
    match v {
        ValueModel::Absent => {},
        ValueModel::Str(s) => {
            assert(rest =~= encode_utf8(s));
            vstd::utf8::encode_utf8_valid_utf8(s);
            vstd::utf8::encode_utf8_decode_utf8(s);
        },
        ValueModel::Binary(x) => {
            assert(rest =~= x);
        },
        ValueModel::Integer(i) => {
            assert(rest =~= u64_le(i as u64));
            lemma_le_round_trip(i as u64);
            assert(((i as u64) as i64) == i) by (bit_vector);
        },
        ValueModel::Float(f) => {
            assert(rest =~= u64_le(f));
            lemma_le_round_trip(f);
        },
        ValueModel::Bool(x) => {},
    }
}

fn push_u64_le(out: &mut Vec<u8>, x: u64)
    ensures
        final(out)@ == old(out)@ + u64_le(x),
{
    out.push(x as u8);
    out.push((x >> 8u64) as u8);
    out.push((x >> 16u64) as u8);
    out.push((x >> 24u64) as u8);
    out.push((x >> 32u64) as u8);
    out.push((x >> 40u64) as u8);
    out.push((x >> 48u64) as u8);
    out.push((x >> 56u64) as u8);
    assert(final(out)@ =~= old(out)@ + u64_le(x));
}

/// The bytes of `b` from position `from` on.
pub fn tail_bytes(b: &[u8], from: usize) -> (r: Vec<u8>)
    requires
        from <= b@.len(),
    ensures
        r@ == b@.subrange(from as int, b@.len() as int),
{
    let mut r: Vec<u8> = Vec::new();
    let mut i: usize = from;
    while i < b.len()
        invariant
            from <= i <= b@.len(),
            r@ == b@.subrange(from as int, i as int),
        decreases b@.len() - i,
    {
        r.push(b[i]);
        i = i + 1;
        assert(r@ =~= b@.subrange(from as int, i as int));
    }
    r
}

/// Relies on std's `String::from_utf8`: it succeeds exactly on valid UTF-8 and
/// keeps the bytes as they are.
#[verifier::external_body]
pub(crate) fn string_from_utf8(b: Vec<u8>) -> (r: Option<String>)
    ensures
        r is Some <==> valid_utf8(b@),
        r matches Some(s) ==> s@ == decode_utf8(b@),
{
    String::from_utf8(b).ok()
}

/// The stored form of `v`.
pub fn encode_value(v: &Value) -> (r: Vec<u8>)
    ensures
        r@ == value_bytes(v@),
{
    let mut out: Vec<u8> = Vec::new();
    match &v.value {
        None => out.push(0u8),
        Some(ValueKind::String(s)) => {
            out.push(1u8);
            let bytes = s.as_str().as_bytes();
            let mut i: usize = 0;
            while i < bytes.len()
                invariant
                    i <= bytes@.len(),
                    out@ == seq![1u8] + bytes@.subrange(0, i as int),
                decreases bytes@.len() - i,
            {
                out.push(bytes[i]);
                i = i + 1;
                assert(out@ =~= seq![1u8] + bytes@.subrange(0, i as int));
            }
            assert(bytes@.subrange(0, bytes@.len() as int) =~= bytes@);
        },
        Some(ValueKind::Binary(b)) => {
            out.push(2u8);
            let mut i: usize = 0;
            while i < b.len()
                invariant
                    i <= b@.len(),
                    out@ == seq![2u8] + b@.subrange(0, i as int),
                decreases b@.len() - i,
            {
                out.push(b[i]);
                i = i + 1;
                assert(out@ =~= seq![2u8] + b@.subrange(0, i as int));
            }
            assert(b@.subrange(0, b@.len() as int) =~= b@);
        },
        Some(ValueKind::Integer(i)) => {
            out.push(3u8);
            push_u64_le(&mut out, *i as u64);
        },
        Some(ValueKind::Float(f)) => {
            out.push(4u8);
            push_u64_le(&mut out, *f);
        },
        Some(ValueKind::Bool(b)) => {
            out.push(5u8);
            out.push(if *b { 1u8 } else { 0u8 });
        },
    }
    out
}

/// The value whose stored form is `b`; bytes that are no stored form give `DecodeError`.
pub fn decode_value(b: &[u8]) -> (r: Result<Value, KvError>)
    ensures
        r is Ok <==> decode_spec(b@) is Some,
        r matches Ok(v) ==> decode_spec(b@) == Some(v@),
        r matches Err(e) ==> e == KvError::DecodeError,
{
    if b.len() == 0 {
        return Err(KvError::DecodeError);
    }
    let tag = b[0];
    let n = b.len() - 1;
    if tag == 0 && n == 0 {
        Ok(Value { value: None })
    } else if tag == 1 {
        match string_from_utf8(tail_bytes(b, 1)) {
            Some(s) => Ok(Value { value: Some(ValueKind::String(s)) }),
            None => Err(KvError::DecodeError),
        }
    } else if tag == 2 {
        Ok(Value { value: Some(ValueKind::Binary(tail_bytes(b, 1))) })
    } else if (tag == 3 || tag == 4) && n == 8 {
        let x: u64 = (b[1] as u64) | (b[2] as u64) << 8u64 | (b[3] as u64) << 16u64 | (b[4] as u64)
            << 24u64 | (b[5] as u64) << 32u64 | (b[6] as u64) << 40u64 | (b[7] as u64) << 48u64 | (
        b[8] as u64) << 56u64;
        let ghost rest = b@.subrange(1, b@.len() as int);
        assert(x == le_u64(rest));
        if tag == 3 {
            Ok(Value { value: Some(ValueKind::Integer(x as i64)) })
        } else {
            Ok(Value { value: Some(ValueKind::Float(x)) })
        }
    } else if tag == 5 && n == 1 && b[1] <= 1 {
        Ok(Value { value: Some(ValueKind::Bool(b[1] == 1)) })
    } else {
        Err(KvError::DecodeError)
    }
}

} // verus!
