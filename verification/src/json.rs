//! A JSON document as plain values, what `serde_json` makes of bytes, and the
//! lookups the modules make in it, with the meaning that `serde_json::Value`
//! gives them: indexing a missing key, an index out of range, or anything
//! that is not an object or an array yields `null`.

use vstd::prelude::*;
use crate::text::str_eq;

verus! {

/// A JSON value. Numbers keep the text that `serde_json` prints for them;
/// object members keep the order `serde_json` hands them out in (sorted by
/// key, each key once).
pub enum Json {
    Null,
    Bool(bool),
    Number(String),
    Str(String),
    Array(Vec<Json>),
    Object(Vec<(String, Json)>),
}

/// The value stored under the first member whose key is `key`.
#[verifier::opaque]
pub open spec fn lookup(members: Seq<(String, Json)>, key: Seq<char>) -> Option<Json> {
    if exists|i: int| 0 <= i < members.len() && members[i].0@ == key {
        let i = choose|i: int|
            0 <= i < members.len() && members[i].0@ == key && forall|j: int|
                0 <= j < i ==> members[j].0@ != key;
        Some(members[i].1)
    } else {
        None
    }
}

proof fn lemma_lookup_at(members: Seq<(String, Json)>, key: Seq<char>, i: int)
    requires
        0 <= i < members.len(),
        members[i].0@ == key,
        forall|j: int| 0 <= j < i ==> members[j].0@ != key,
    ensures
        lookup(members, key) == Some(members[i].1),
{
    reveal(lookup);
    let k = choose|k: int|
        0 <= k < members.len() && members[k].0@ == key && forall|j: int|
            0 <= j < k ==> members[j].0@ != key;
    assert(0 <= k < members.len() && members[k].0@ == key);
    if k < i {
        assert(members[k].0@ != key);
    }
    if i < k {
        assert(members[i].0@ != key);
    }
}

/// An absent value reads as `null`.
pub open spec fn or_null(j: Option<&Json>) -> Json {
    match j {
        Some(v) => *v,
        None => Json::Null,
    }
}

impl Json {
    /// `Value::get` with a key: the member of an object, if present.
    pub open spec fn get_spec(self, key: Seq<char>) -> Option<Json> {
        match self {
            Json::Object(members) => lookup(members@, key),
            _ => None,
        }
    }

    /// `value[key]`: the member, or `null`.
    pub open spec fn member(self, key: Seq<char>) -> Json {
        match self.get_spec(key) {
            Some(v) => v,
            None => Json::Null,
        }
    }

    /// `value[i]`: the element of an array, or `null`.
    pub open spec fn item(self, i: int) -> Json {
        match self {
            Json::Array(items) => if 0 <= i < items@.len() {
                items@[i]
            } else {
                Json::Null
            },
            _ => Json::Null,
        }
    }

    /// `Value::as_str`.
    pub open spec fn text(self) -> Option<Seq<char>> {
        match self {
            Json::Str(s) => Some(s@),
            _ => None,
        }
    }

    /// `value.as_str().unwrap_or(default)`.
    pub open spec fn text_or(self, default: Seq<char>) -> Seq<char> {
        match self {
            Json::Str(s) => s@,
            _ => default,
        }
    }

    /// `Value::as_array`.
    pub open spec fn items(self) -> Option<Seq<Json>> {
        match self {
            Json::Array(items) => Some(items@),
            _ => None,
        }
    }

    /// `value == b` for a `bool` `b`: the value is that boolean.
    pub open spec fn equals_bool(self, b: bool) -> bool {
        self == Json::Bool(b)
    }

    /// `value == t` for a string `t`: the value is that string.
    pub open spec fn equals_text(self, t: Seq<char>) -> bool {
        self.text() == Some(t)
    }

    /// `Value::get` with a key.
    pub fn get(&self, key: &str) -> (r: Option<&Json>)
        ensures
            r matches Some(v) ==> self.get_spec(key@) == Some(*v),
            r is None ==> self.get_spec(key@) is None,
    {
        match self {
            Json::Object(members) => {
                let mut i: usize = 0;
                while i < members.len()
                    invariant
                        i <= members@.len(),
                        self.get_spec(key@) == lookup(members@, key@),
                        forall|j: int| 0 <= j < i ==> members@[j].0@ != key@,
                    decreases members@.len() - i,
                {
                    if str_eq(members[i].0.as_str(), key) {
                        proof {
                            lemma_lookup_at(members@, key@, i as int);
                        }
                        return Some(&members[i].1);
                    }
                    i = i + 1;
                }
                proof {
                    reveal(lookup);
                }
                None
            },
            _ => None,
        }
    }

    /// `Value::as_str`.
    pub fn as_str(&self) -> (r: Option<&str>)
        ensures
            r matches Some(t) ==> self.text() == Some(t@),
            r is None ==> self.text() is None,
    {
        match self {
            Json::Str(s) => Some(s.as_str()),
            _ => None,
        }
    }

    /// `Value::as_array`.
    pub fn as_array(&self) -> (r: Option<&Vec<Json>>)
        ensures
            r matches Some(v) ==> self.items() == Some(v@),
            r is None ==> self.items() is None,
    {
        match self {
            Json::Array(items) => Some(items),
            _ => None,
        }
    }

    /// `value == b` for a `bool` `b`.
    pub fn eq_bool(&self, b: bool) -> (r: bool)
        ensures
            r == self.equals_bool(b),
    {
        match self {
            Json::Bool(x) => *x == b,
            _ => false,
        }
    }

    /// `value == t` for a string `t`.
    pub fn eq_str(&self, t: &str) -> (r: bool)
        ensures
            r == self.equals_text(t@),
    {
        match self {
            Json::Str(s) => str_eq(s.as_str(), t),
            _ => false,
        }
    }
}

/// `value[key]`, where an absent value stands for `null`.
pub fn member<'a>(j: Option<&'a Json>, key: &str) -> (r: Option<&'a Json>)
    ensures
        or_null(r) == or_null(j).member(key@),
{
    match j {
        Some(v) => v.get(key),
        None => None,
    }
}

/// `value[i]`, where an absent value stands for `null`.
pub fn item<'a>(j: Option<&'a Json>, i: usize) -> (r: Option<&'a Json>)
    ensures
        or_null(r) == or_null(j).item(i as int),
{
    match j {
        Some(Json::Array(items)) => {
            if i < items.len() {
                Some(&items[i])
            } else {
                None
            }
        },
        _ => None,
    }
}

/// `value.as_str().unwrap_or(default)`, where an absent value stands for `null`.
pub fn text_or<'a>(j: Option<&'a Json>, default: &'a str) -> (r: &'a str)
    ensures
        r@ == or_null(j).text_or(default@),
{
    match j {
        Some(Json::Str(s)) => s.as_str(),
        _ => default,
    }
}

/// What `serde_json::from_slice::<serde_json::Value>` makes of `bytes`, as a
/// `Json` tree; `None` where it reports an error.
pub uninterp spec fn json_document(bytes: Seq<u8>) -> Option<Json>;

#[verifier::external_type_specification]
#[verifier::external_body]
pub struct ExJsonValue(serde_json::Value);

/// Parses `bytes` with `serde_json::from_slice::<serde_json::Value>` and
/// hands the value out as a `Json` tree. Claimed: the result depends on the
/// bytes alone (it is `json_document(bytes)`); nothing is claimed about which
/// byte strings parse or what tree they give.
#[verifier::external_body]
pub fn parse_json(bytes: &[u8]) -> (doc: Option<Json>)
    ensures
        doc == json_document(bytes@),
{
    match serde_json::from_slice::<serde_json::Value>(bytes) {
        Ok(value) => Some(json_tree(value)),
        Err(_) => None,
    }
}

/// One-for-one conversion of a `serde_json::Value` into a `Json` tree, used
/// only by `parse_json`: each variant becomes the variant of the same name,
/// numbers become their printed text.
#[verifier::external_body]
fn json_tree(value: serde_json::Value) -> Json {
    match value {
        serde_json::Value::Null => Json::Null,
        serde_json::Value::Bool(b) => Json::Bool(b),
        serde_json::Value::Number(n) => Json::Number(n.to_string()),
        serde_json::Value::String(s) => Json::Str(s),
        serde_json::Value::Array(a) => Json::Array(a.into_iter().map(json_tree).collect()),
        serde_json::Value::Object(m) => Json::Object(m.into_iter().map(|(k, v)| (k, json_tree(v))).collect()),
    }
}

} // verus!
