use vstd::prelude::*;
use vstd::string::*;
use crate::error::FetchError;

verus! {

/// A JSON document, as the API response is read.
#[derive(Debug)]
pub enum JsonValue {
    Null,
    Bool(bool),
    /// A number, kept in its textual form.
    Number(String),
    Str(String),
    Array(Vec<JsonValue>),
    /// Members, each name once (as serde_json keeps them: sorted by name,
    /// a repeated name holding its last value).
    Object(Vec<(String, JsonValue)>),
}

/// The value of the first member named `key`.
pub open spec fn member(m: Seq<(String, JsonValue)>, key: Seq<char>) -> Option<JsonValue>
    decreases m.len(),
{
    if m.len() == 0 {
        None
    } else if m[0].0@ == key {
        Some(m[0].1)
    } else {
        member(m.drop_first(), key)
    }
}

/// The string at `data[0].media_url`, if there is one.
pub open spec fn spec_media_url(doc: JsonValue) -> Option<Seq<char>> {
    match doc {
        JsonValue::Object(top) => match member(top@, seq!['d', 'a', 't', 'a']) {
            Some(JsonValue::Array(items)) => if items@.len() > 0 {
                match items@[0] {
                    JsonValue::Object(item) => match member(
                        item@,
                        seq!['m', 'e', 'd', 'i', 'a', '_', 'u', 'r', 'l'],
                    ) {
                        Some(JsonValue::Str(s)) => Some(s@),
                        _ => None,
                    },
                    _ => None,
                }
            } else {
                None
            },
            _ => None,
        },
        _ => None,
    }
}

/// Index of the first member named `key`.
fn find_member(m: &Vec<(String, JsonValue)>, key: &String) -> (r: Option<usize>)
    ensures
        match r {
            Some(i) => i < m@.len() && member(m@, key@) == Some(m@[i as int].1),
            None => member(m@, key@) is None,
        },
{
    let mut i: usize = 0;
    assert(m@.subrange(0, m@.len() as int) =~= m@);
    while i < m.len()
        invariant
            i <= m@.len(),
            member(m@, key@) == member(m@.subrange(i as int, m@.len() as int), key@),
        decreases m@.len() - i,
    {
        let ghost rest = m@.subrange(i as int, m@.len() as int);
        assert(rest.drop_first() =~= m@.subrange(i + 1, m@.len() as int));
        if m[i].0 == *key {
            return Some(i);
        }
        i = i + 1;
    }
    None
}

/// The URL of the first media item: the string at `data[0].media_url`.
pub fn media_url(doc: &JsonValue) -> (r: Result<String, FetchError>)
    ensures
        match spec_media_url(*doc) {
            Some(u) => r is Ok && r->Ok_0@ == u,
            None => r == Err::<String, FetchError>(FetchError::MissingField),
        },
{
    let data_key = String::from_str("data");
    let url_key = String::from_str("media_url");
    proof {
        reveal_strlit("data");
        reveal_strlit("media_url");
        assert(data_key@ =~= seq!['d', 'a', 't', 'a']);
        assert(url_key@ =~= seq!['m', 'e', 'd', 'i', 'a', '_', 'u', 'r', 'l']);
    }
    let top = match doc {
        JsonValue::Object(top) => top,
        _ => return Err(FetchError::MissingField),
    };
    let items = match find_member(top, &data_key) {
        Some(i) => match &top[i].1 {
            JsonValue::Array(items) => items,
            _ => return Err(FetchError::MissingField),
        },
        None => return Err(FetchError::MissingField),
    };
    if items.len() == 0 {
        return Err(FetchError::MissingField);
    }
    let item = match &items[0] {
        JsonValue::Object(item) => item,
        _ => return Err(FetchError::MissingField),
    };
    match find_member(item, &url_key) {
        Some(j) => match &item[j].1 {
            JsonValue::Str(s) => Ok(s.clone()),
            _ => Err(FetchError::MissingField),
        },
        None => Err(FetchError::MissingField),
    }
}

#[verifier::external_type_specification]
#[verifier::external_body]
pub struct ExJsonValue(serde_json::Value);

/// The document that serde_json reads from a text, or `None` where it rejects it.
pub uninterp spec fn json_document(text: Seq<char>) -> Option<JsonValue>;

/// Relies on `serde_json::Value`'s variants: each is carried over to the
/// variant of the same shape, numbers in their printed form.
#[verifier::external_body]
fn from_serde(v: serde_json::Value) -> JsonValue {
    match v {
        serde_json::Value::Null => JsonValue::Null,
        serde_json::Value::Bool(b) => JsonValue::Bool(b),
        serde_json::Value::Number(n) => JsonValue::Number(n.to_string()),
        serde_json::Value::String(s) => JsonValue::Str(s),
        serde_json::Value::Array(a) => JsonValue::Array(a.into_iter().map(from_serde).collect()),
        serde_json::Value::Object(o) => JsonValue::Object(
            o.into_iter().map(|(k, x)| (k, from_serde(x))).collect(),
        ),
    }
}

/// Relies on `serde_json::from_str`: it parses the whole text as one JSON
/// document or fails, and its outcome depends on the text alone.
#[verifier::external_body]
fn parse_document(text: &str) -> (r: Option<JsonValue>)
    ensures
        r == json_document(text@),
{
    serde_json::from_str::<serde_json::Value>(text).ok().map(from_serde)
}

/// What the media URL of an API response body is, if anything.
pub open spec fn spec_locate(body: Seq<char>) -> Result<Seq<char>, FetchError> {
    match json_document(body) {
        None => Err(FetchError::InvalidResponse),
        Some(doc) => match spec_media_url(doc) {
            Some(u) => Ok(u),
            None => Err(FetchError::MissingField),
        },
    }
}

/// Reads the URL of the first media item out of an API response body.
pub fn locate_media_url(body: &str) -> (r: Result<String, FetchError>)
    ensures
        match spec_locate(body@) {
            Ok(u) => r is Ok && r->Ok_0@ == u,
            Err(e) => r == Err::<String, FetchError>(e),
        },
{
    match parse_document(body) {
        None => Err(FetchError::InvalidResponse),
        Some(doc) => media_url(&doc),
    }
}

} // verus!
