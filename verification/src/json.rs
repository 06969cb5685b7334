//! The JSON boundary the connectors rely on.
//!
//! Venue frames arrive as JSON text.  Decoding is done by `serde_json`;
//! the decoded document is converted, one constructor for one, into the
//! library's own `Json` model, which holds exactly what the venue
//! protocols read: null, booleans, integers in `u64` range, strings,
//! arrays and object members.  What a given text decodes to is a function
//! of the text alone, so it carries the name `json_of`; every contract
//! downstream of the parse is exact over that name, and all navigation of
//! the model is verified library code.

use vstd::prelude::*;

use crate::text::str_eq;

verus! {

#[verifier::external_type_specification]
#[verifier::external_body]
pub struct ExValue(serde_json::Value);

/// The library's image of a decoded JSON document.
#[derive(Debug)]
pub enum Json {
    Null,
    Bool(bool),
    /// A number in `u64` range — the only numbers these protocols read.
    UInt(u64),
    /// A number outside `u64` range (negative, fractional, or too large);
    /// present in the document but never read by the protocols.
    OtherNum,
    Text(String),
    Array(Vec<Json>),
    /// Members in decoded order; `serde_json`'s map holds each key once.
    Object(Vec<(String, Json)>),
}

/// What `text` decodes to: `None` for malformed JSON, otherwise the
/// document's image.  The result depends on the characters alone.
pub uninterp spec fn json_of(text: Seq<char>) -> Option<Json>;

/// Relies on serde_json::from_str: decodes one JSON document, or fails on
/// malformed input; the same text always decodes to the same document.
#[verifier::external_body]
pub fn parse_json(text: &str) -> (r: Option<Json>)
    ensures
        r == json_of(text@),
{
    match serde_json::from_str::<serde_json::Value>(text) {
        Ok(v) => Some(value_to_json(v)),
        Err(_) => None,
    }
}

/// Relies on serde_json::Value and serde_json::Number::as_u64: converts
/// the decoded document into the library's model, one constructor for
/// one.
#[verifier::external_body]
fn value_to_json(v: serde_json::Value) -> Json {
    match v {
        serde_json::Value::Null => Json::Null,
        serde_json::Value::Bool(b) => Json::Bool(b),
        serde_json::Value::Number(n) => match n.as_u64() {
            Some(u) => Json::UInt(u),
            None => Json::OtherNum,
        },
        serde_json::Value::String(s) => Json::Text(s),
        serde_json::Value::Array(a) => Json::Array(a.into_iter().map(value_to_json).collect()),
        serde_json::Value::Object(m) => Json::Object(
            m.into_iter().map(|(k, w)| (k, value_to_json(w))).collect(),
        ),
    }
}

/// The first member named `key`, scanning the object's fields in order.
pub open spec fn spec_member_of(fields: Seq<(String, Json)>, key: Seq<char>) -> Option<Json>
    decreases fields.len(),
{
    if fields.len() == 0 {
        None
    } else if fields[0].0@ == key {
        Some(fields[0].1)
    } else {
        spec_member_of(fields.drop_first(), key)
    }
}

/// The member named `key`, when the document is an object that has one.
pub open spec fn spec_member(j: Json, key: Seq<char>) -> Option<Json> {
    match j {
        Json::Object(fields) => spec_member_of(fields@, key),
        _ => None,
    }
}

proof fn lemma_member_at(fields: Seq<(String, Json)>, key: Seq<char>, i: int)
    requires
        0 <= i <= fields.len(),
        forall|j: int| 0 <= j < i ==> fields[j].0@ != key,
        i < fields.len() ==> fields[i].0@ == key,
    ensures
        spec_member_of(fields, key) == if i == fields.len() {
            None::<Json>
        } else {
            Some(fields[i].1)
        },
    decreases fields.len(),
{
    if fields.len() == 0 {
    } else if i == 0 {
    } else {
        let df = fields.drop_first();
        assert(forall|j: int| 0 <= j < df.len() ==> df[j] == fields[j + 1]);
        lemma_member_at(df, key, i - 1);
    }
}

impl Json {
    /// Looks the member named `key` up in this document.
    pub fn get<'a>(&'a self, key: &str) -> (r: Option<&'a Json>)
        ensures
            r matches Some(v) ==> spec_member(*self, key@) == Some(*v),
            r is None ==> spec_member(*self, key@) is None,
    {
        let fields = match self {
            Json::Object(fields) => fields,
            _ => {
                return None;
            },
        };
        let mut i: usize = 0;
        while i < fields.len()
            invariant
                i <= fields@.len(),
                *self == Json::Object(*fields),
                forall|j: int| 0 <= j < i ==> fields@[j].0@ != key@,
            decreases fields@.len() - i,
        {
            if str_eq(fields[i].0.as_str(), key) {
                proof {
                    lemma_member_at(fields@, key@, i as int);
                    assert(spec_member(*self, key@) == spec_member_of(fields@, key@));
                    assert(spec_member_of(fields@, key@) == Some(fields@[i as int].1));
                }
                return Some(&fields[i].1);
            }
            i = i + 1;
        }
        proof {
            lemma_member_at(fields@, key@, fields@.len() as int);
        }
        None
    }
}

} // verus!
