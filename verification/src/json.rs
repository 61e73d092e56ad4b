//! The crate's own JSON value type, and the trusted decoding step that turns
//! a response body into it.
//!
//! Catalog responses are decoded by serde_json and then converted, variant by
//! variant, into `JsonValue`, so that every field lookup the record decoders
//! make is ordinary verified code over a plain data type.

use vstd::prelude::*;
use crate::text::str_eq;

verus! {

#[derive(Debug)]
pub enum JsonValue {
    Null,
    Bool(bool),
    Int(i64),
    Str(String),
    Arr(Vec<JsonValue>),
    Obj(Vec<(String, JsonValue)>),
}

/// The value of the first field named `key` in a field list.
pub open spec fn spec_field_in(fields: Seq<(String, JsonValue)>, key: Seq<char>) -> Option<
    JsonValue,
>
    decreases fields.len(),
{
    if fields.len() == 0 {
        None
    } else if fields[0].0@ == key {
        Some(fields[0].1)
    } else {
        spec_field_in(fields.drop_first(), key)
    }
}

impl JsonValue {
    /// The value of the field named `key`, if this is an object that has one.
    pub open spec fn spec_field(self, key: Seq<char>) -> Option<JsonValue> {
        match self {
            JsonValue::Obj(fields) => spec_field_in(fields@, key),
            _ => None,
        }
    }

    pub open spec fn spec_str_field(self, key: Seq<char>) -> Option<Seq<char>> {
        match self.spec_field(key) {
            Some(JsonValue::Str(s)) => Some(s@),
            _ => None,
        }
    }

    pub open spec fn spec_int_field(self, key: Seq<char>) -> Option<i64> {
        match self.spec_field(key) {
            Some(JsonValue::Int(n)) => Some(n),
            _ => None,
        }
    }

    pub open spec fn spec_arr_field(self, key: Seq<char>) -> Option<Seq<JsonValue>> {
        match self.spec_field(key) {
            Some(JsonValue::Arr(a)) => Some(a@),
            _ => None,
        }
    }

    /// Looks up a field of an object; `None` on a missing field or any
    /// non-object value.
    pub fn field<'a>(&'a self, key: &str) -> (r: Option<&'a JsonValue>)
        ensures
            match r {
                Some(v) => self.spec_field(key@) == Some(*v),
                None => self.spec_field(key@) is None,
            },
    {
        match self {
            JsonValue::Obj(fields) => {
                proof {
                    assert(self.spec_field(key@) == spec_field_in(fields@, key@));
                }
                let mut i: usize = 0;
                proof {
                    assert(fields@.skip(0) =~= fields@);
                }
                while i < fields.len()
                    invariant
                        i <= fields@.len(),
                        self.spec_field(key@) == spec_field_in(fields@, key@),
                        spec_field_in(fields@, key@) == spec_field_in(
                            fields@.skip(i as int),
                            key@,
                        ),
                    decreases fields@.len() - i,
                {
                    proof {
                        assert(fields@.skip(i as int).drop_first() =~= fields@.skip(i + 1 as int));
                        assert(fields@.skip(i as int)[0] == fields@[i as int]);
                    }
                    if str_eq(fields[i].0.as_str(), key) {
                        proof {
                            assert(spec_field_in(fields@.skip(i as int), key@) == Some(
                                fields@[i as int].1,
                            ));
                        }
                        return Some(&fields[i].1);
                    }
                    i = i + 1;
                }
                None
            },
            _ => None,
        }
    }

    pub fn as_str(&self) -> (r: Option<&String>)
        ensures
            match r {
                Some(s) => self matches JsonValue::Str(v) && v@ == s@,
                None => !(self matches JsonValue::Str(_)),
            },
    {
        match self {
            JsonValue::Str(s) => Some(s),
            _ => None,
        }
    }

    pub fn as_i64(&self) -> (r: Option<i64>)
        ensures
            match r {
                Some(n) => self matches JsonValue::Int(v) && v == n,
                None => !(self matches JsonValue::Int(_)),
            },
    {
        match self {
            JsonValue::Int(n) => Some(*n),
            _ => None,
        }
    }

    pub fn as_array(&self) -> (r: Option<&Vec<JsonValue>>)
        ensures
            match r {
                Some(a) => self matches JsonValue::Arr(v) && v@ == a@,
                None => !(self matches JsonValue::Arr(_)),
            },
    {
        match self {
            JsonValue::Arr(a) => Some(a),
            _ => None,
        }
    }

    /// Looks up a string field of an object.
    pub fn str_field<'a>(&'a self, key: &str) -> (r: Option<&'a String>)
        ensures
            match r {
                Some(s) => self.spec_str_field(key@) == Some(s@),
                None => self.spec_str_field(key@) is None,
            },
    {
        match self.field(key) {
            Some(v) => v.as_str(),
            None => None,
        }
    }

    /// Looks up an integer field of an object.
    pub fn int_field(&self, key: &str) -> (r: Option<i64>)
        ensures
            r == self.spec_int_field(key@),
    {
        match self.field(key) {
            Some(v) => v.as_i64(),
            None => None,
        }
    }

    /// Looks up an array field of an object.
    pub fn arr_field<'a>(&'a self, key: &str) -> (r: Option<&'a Vec<JsonValue>>)
        ensures
            match r {
                Some(a) => self.spec_arr_field(key@) == Some(a@),
                None => self.spec_arr_field(key@) is None,
            },
    {
        match self.field(key) {
            Some(v) => v.as_array(),
            None => None,
        }
    }
}

/// Declares serde_json's value type so decoded documents can pass through;
/// the library never looks inside one.
#[verifier::external_type_specification]
#[verifier::external_body]
pub struct ExSerdeValue(serde_json::Value);

/// What decoding a JSON response body yields: a function of the bytes alone,
/// deterministic across processes and machines.
pub uninterp spec fn decoded_json(bytes: Seq<u8>) -> Option<JsonValue>;

/// Relies on serde_json::from_slice: decodes a JSON document from bytes,
/// `None` on malformed input; together with the variant conversion below,
/// the result is a function of the bytes alone.
#[verifier::external_body]
fn decode_bytes(body: &Vec<u8>) -> (r: Option<JsonValue>)
    ensures
        r == decoded_json(body@),
{
    serde_json::from_slice::<serde_json::Value>(body).ok().map(|v| convert_value(&v))
}

/// Relies on the public variants of serde_json::Value: each variant is moved
/// into the crate's own JSON value, one arm each. Numbers are kept only when
/// they are exact 64-bit integers; the catalog decoders read nothing else
/// from them, and serde_json's as_i64 answers None for the rest just as a
/// null would.
#[verifier::external_body]
fn convert_value(v: &serde_json::Value) -> JsonValue
{
    match v {
        serde_json::Value::Null => JsonValue::Null,
        serde_json::Value::Bool(b) => JsonValue::Bool(*b),
        serde_json::Value::Number(n) => match n.as_i64() {
            Some(i) => JsonValue::Int(i),
            None => JsonValue::Null,
        },
        serde_json::Value::String(s) => JsonValue::Str(s.clone()),
        serde_json::Value::Array(a) => JsonValue::Arr(a.iter().map(convert_value).collect()),
        serde_json::Value::Object(o) => JsonValue::Obj(
            o.iter().map(|(k, x)| (k.clone(), convert_value(x))).collect(),
        ),
    }
}

/// Decodes a JSON response body into the crate's own value type; `None` when
/// the bytes are not a JSON document.
pub fn parse_json(body: &Vec<u8>) -> (r: Option<JsonValue>)
    ensures
        r == decoded_json(body@),
{
    decode_bytes(body)
}

} // verus!
