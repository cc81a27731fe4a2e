//! The JSON side of the wire envelope, flattened to exactly what the
//! envelope reads: the top-level object's fields, each classified as a
//! string, an array of integer-or-not items, or anything else. Nested
//! structure beyond that never influences decoding, so it is not modelled.
//!
//! Parsing itself is delegated to `serde_json` behind a trusted boundary;
//! everything downstream of the parse is verified.

use vstd::prelude::*;
use vstd::utf8::{decode_utf8, valid_utf8};

verus! {

/// An array element, as integer extraction sees it: an unsigned integer, or
/// something else (a float, a negative number, a non-number).
#[derive(Clone, Copy, Debug)]
pub enum JsonItem {
    U(u64),
    NonU,
}

/// Mathematical image of a field value.
pub ghost enum JsonValModel {
    Str(Seq<char>),
    Arr(Seq<JsonItem>),
    Other,
}

/// A field value of the top-level object, as the envelope reads it.
#[derive(Debug)]
pub enum JsonVal {
    Str(String),
    Arr(Vec<JsonItem>),
    Other,
}

impl View for JsonVal {
    type V = JsonValModel;

    open spec fn view(&self) -> JsonValModel {
        match self {
            JsonVal::Str(s) => JsonValModel::Str(s@),
            JsonVal::Arr(v) => JsonValModel::Arr(v@),
            JsonVal::Other => JsonValModel::Other,
        }
    }
}

/// Mathematical image of a parse outcome.
pub ghost enum ParsedJsonModel {
    NotJson,
    NonObj,
    Obj(Seq<(Seq<char>, JsonValModel)>),
}

/// The outcome of parsing a text frame: not JSON at all, JSON but not an
/// object, or an object with its fields.
#[derive(Debug)]
pub enum ParsedJson {
    NotJson,
    NonObj,
    Obj(Vec<(String, JsonVal)>),
}

impl View for ParsedJson {
    type V = ParsedJsonModel;

    open spec fn view(&self) -> ParsedJsonModel {
        match self {
            ParsedJson::NotJson => ParsedJsonModel::NotJson,
            ParsedJson::NonObj => ParsedJsonModel::NonObj,
            ParsedJson::Obj(fields) => ParsedJsonModel::Obj(
                Seq::new(fields@.len(), |i: int| (fields@[i].0@, fields@[i].1@)),
            ),
        }
    }
}

/// What `serde_json` makes of a text, flattened to the envelope's view of
/// it. A pure function of the text: the same frame always parses the same
/// way, in every process.
pub uninterp spec fn json_parse(text: Seq<char>) -> ParsedJsonModel;

#[verifier::external_type_specification]
#[verifier::external_body]
pub struct ExValue(serde_json::Value);

/// Relies on serde_json::Value::as_u64, which is `Some` exactly for
/// non-negative integer numbers that fit in the type.
#[verifier::external_body]
fn item_of_value(v: &serde_json::Value) -> JsonItem {
    match v.as_u64() {
        Some(u) => JsonItem::U(u),
        None => JsonItem::NonU,
    }
}

/// Relies on serde_json::Value: strings and arrays are carried over, array
/// items classified by Value::as_u64; every other value reads as `Other`,
/// which is all the envelope ever distinguishes.
#[verifier::external_body]
fn val_of_value(v: &serde_json::Value) -> JsonVal {
    match v {
        serde_json::Value::String(s) => JsonVal::Str(s.clone()),
        serde_json::Value::Array(a) => JsonVal::Arr(a.iter().map(item_of_value).collect()),
        _ => JsonVal::Other,
    }
}

/// Relies on serde_json::from_str: a deterministic parse of the text, whose
/// flattened outcome this crate names `json_parse`.
#[verifier::external_body]
pub(crate) fn parse_json(text: &str) -> (r: ParsedJson)
    ensures
        r@ == json_parse(text@),
{
    match serde_json::from_str::<serde_json::Value>(text) {
        Ok(serde_json::Value::Object(m)) => ParsedJson::Obj(
            m.iter().map(|(k, v)| (k.clone(), val_of_value(v))).collect(),
        ),
        Ok(_) => ParsedJson::NonObj,
        Err(_) => ParsedJson::NotJson,
    }
}

/// Relies on String::from_utf8: `Ok` exactly on valid UTF-8 input, and the
/// resulting string reads the decoded scalar values.
#[verifier::external_body]
pub(crate) fn bytes_to_utf8(data: &Vec<u8>) -> (r: Option<String>)
    ensures
        match r {
            Some(s) => valid_utf8(data@) && s@ == decode_utf8(data@),
            None => !valid_utf8(data@),
        },
{
    String::from_utf8(data.clone()).ok()
}

} // verus!
