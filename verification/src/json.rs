//! JSON documents as the library reads them: the value's structure, with
//! numbers, arrays and objects also carried as the compact text that
//! serde_json writes for them.
use vstd::prelude::*;

use crate::text::same_text;

verus! {

/// A JSON value.
#[derive(Debug)]
pub enum Json {
    Null,
    Bool(bool),
    /// A number, as the text serde_json writes for it.
    Number(String),
    Str(String),
    /// The elements, and the whole array as compact JSON text.
    Array(Vec<Json>, String),
    /// The members in order, and the whole object as compact JSON text.
    Object(Vec<(String, Json)>, String),
}

/// The value of the first member named `key`.
pub open spec fn member(fields: Seq<(String, Json)>, key: Seq<char>) -> Option<Json>
    decreases fields.len(),
{
    if fields.len() == 0 {
        None
    } else if fields[0].0@ == key {
        Some(fields[0].1)
    } else {
        member(fields.drop_first(), key)
    }
}

/// No two members share a key.
pub open spec fn keys_distinct(fields: Seq<(String, Json)>) -> bool {
    forall|i: int, j: int|
        0 <= i < j < fields.len() ==> (#[trigger] fields[i]).0@ != (#[trigger] fields[j]).0@
}

impl Json {
    /// Every object in the value, nested ones too, has distinct keys, as a
    /// serde_json map does.
    pub open spec fn wf(self) -> bool
        decreases self,
    {
        match self {
            Json::Array(items, _) => forall|i: int|
                0 <= i < items@.len() ==> (#[trigger] items@[i]).wf(),
            Json::Object(fields, _) => keys_distinct(fields@) && forall|i: int|
                0 <= i < fields@.len() ==> (#[trigger] fields@[i]).1.wf(),
            _ => true,
        }
    }

    /// `value.get(key)`: the member `key` of an object; nothing for other values.
    pub open spec fn spec_get(self, key: Seq<char>) -> Option<Json> {
        match self {
            Json::Object(fields, _) => member(fields@, key),
            _ => None,
        }
    }

    /// `value.get(i)`: the element `i` of an array; nothing for other values.
    pub open spec fn spec_at(self, i: int) -> Option<Json> {
        match self {
            Json::Array(items, _) => if 0 <= i < items@.len() { Some(items@[i]) } else { None },
            _ => None,
        }
    }

    /// `value.as_str()`: the text of a string value.
    pub open spec fn spec_as_str(self) -> Option<Seq<char>> {
        match self {
            Json::Str(s) => Some(s@),
            _ => None,
        }
    }

    /// The value written as compact JSON (`value.to_string()`), for values
    /// other than strings.
    pub open spec fn spec_text(self) -> Seq<char> {
        match self {
            Json::Null => "null"@,
            Json::Bool(b) => if b { "true"@ } else { "false"@ },
            Json::Number(t) => t@,
            Json::Str(s) => s@,
            Json::Array(_, t) => t@,
            Json::Object(_, t) => t@,
        }
    }

    /// The member named `key`, where `self` is an object that has one.
    pub fn get(&self, key: &str) -> (r: Option<&Json>)
        ensures
            match r {
                Some(v) => self.spec_get(key@) == Some(*v),
                None => self.spec_get(key@) is None,
            },
    {
        match self {
            Json::Object(fields, _) => {
                let n = fields.len();
                let mut i: usize = 0;
                assert(fields@.skip(0) =~= fields@);
                while i < n
                    invariant
                        n == fields@.len(),
                        i <= n,
                        member(fields@, key@) == member(fields@.skip(i as int), key@),
                        self.spec_get(key@) == member(fields@, key@),
                    decreases n - i,
                {
                    let ghost rest = fields@.skip(i as int);
                    assert(rest.drop_first() =~= fields@.skip(i + 1));
                    if same_text(fields[i].0.as_str(), key) {
                        assert(rest[0] == fields@[i as int]);
                        return Some(&fields[i].1);
                    }
                    i = i + 1;
                }
                None
            },
            _ => None,
        }
    }

    /// The element at `i`, where `self` is an array that long.
    pub fn at(&self, i: usize) -> (r: Option<&Json>)
        ensures
            match r {
                Some(v) => self.spec_at(i as int) == Some(*v),
                None => self.spec_at(i as int) is None,
            },
    {
        match self {
            Json::Array(items, _) => if i < items.len() {
                Some(&items[i])
            } else {
                None
            },
            _ => None,
        }
    }

    /// The text of a string value.
    pub fn as_str(&self) -> (r: Option<&str>)
        ensures
            match r {
                Some(s) => self.spec_as_str() == Some(s@),
                None => self.spec_as_str() is None,
            },
    {
        match self {
            Json::Str(s) => Some(s.as_str()),
            _ => None,
        }
    }

    /// The value written as compact JSON, for values other than strings.
    pub fn text(&self) -> (r: String)
        ensures
            r@ == self.spec_text(),
    {
        match self {
            Json::Null => String::from_str("null"),
            Json::Bool(b) => if *b {
                String::from_str("true")
            } else {
                String::from_str("false")
            },
            Json::Number(t) => t.clone(),
            Json::Str(s) => s.clone(),
            Json::Array(_, t) => t.clone(),
            Json::Object(_, t) => t.clone(),
        }
    }
}

#[verifier::external_type_specification]
#[verifier::external_body]
pub struct ExJsonValue(serde_json::Value);

/// The value serde_json reads from a text: none where the text is not JSON.
pub uninterp spec fn spec_parse_json(text: Seq<char>) -> Option<Json>;

/// `serde_json::from_str::<serde_json::Value>`, the value taken to the
/// library's form: the result is named `spec_parse_json` of the text. Its
/// objects have distinct keys: serde_json's map (a `BTreeMap`, or an
/// `IndexMap` under `preserve_order`) holds one entry per key.
#[verifier::external_body]
pub(crate) fn parse_json(text: &str) -> (r: Option<Json>)
    ensures
        r == spec_parse_json(text@),
        r matches Some(j) ==> j.wf(),
{
    serde_json::from_str::<serde_json::Value>(text).ok().map(|v| json_of_value(&v))
}

/// A serde_json value in the library's form, one node for one node, with the
/// compact text serde_json writes (`Value::to_string`) for numbers, arrays and objects.
#[verifier::external_body]
fn json_of_value(v: &serde_json::Value) -> Json {
    match v {
        serde_json::Value::Null => Json::Null,
        serde_json::Value::Bool(b) => Json::Bool(*b),
        serde_json::Value::Number(n) => Json::Number(n.to_string()),
        serde_json::Value::String(s) => Json::Str(s.clone()),
        serde_json::Value::Array(a) => Json::Array(a.iter().map(json_of_value).collect(), v.to_string()),
        serde_json::Value::Object(m) => Json::Object(
            m.iter().map(|(k, x)| (k.clone(), json_of_value(x))).collect(),
            v.to_string(),
        ),
    }
}

} // verus!
