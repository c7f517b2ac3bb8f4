//! The few JSON and UTF-8 decodings the library needs, made by serde_json and std.
use vstd::prelude::*;

verus! {

/// What serde_json reads from `text` for `key`: `None` when `text` is not a JSON
/// object, `Some(None)` when the object has no string member `key`, and
/// `Some(Some(v))` when member `key` is the string `v`.
pub uninterp spec fn json_str_field(text: Seq<char>, key: Seq<char>) -> Option<Option<Seq<char>>>;

/// The string member `key` of the JSON object in `text`, parsed with
/// `serde_json::from_str::<serde_json::Value>`. The contract claims only that the
/// result is the named function of the two arguments (no JSON grammar is stated).
#[verifier::external_body]
pub fn json_object_str_field(text: &str, key: &str) -> (r: Option<Option<String>>)
    ensures
        match r {
            None => json_str_field(text@, key@) is None,
            Some(None) => json_str_field(text@, key@) == Some(None::<Seq<char>>),
            Some(Some(v)) => json_str_field(text@, key@) == Some(Some(v@)),
        },
{
    match serde_json::from_str::<serde_json::Value>(text) {
        Ok(serde_json::Value::Object(m)) => Some(m.get(key).and_then(|v| v.as_str()).map(|s| s.to_string())),
        _ => None,
    }
}

/// The message of the error `std::str::from_utf8` reports for `bytes`.
pub uninterp spec fn utf8_error(bytes: Seq<u8>) -> Seq<char>;

/// The text of `bytes` when they are valid UTF-8 (`std::str::from_utf8`), else the
/// message of its error (named, not stated).
#[verifier::external_body]
pub fn utf8_decode(bytes: &[u8]) -> (r: Result<String, String>)
    ensures
        r is Ok <==> vstd::utf8::valid_utf8(bytes@),
        r matches Ok(s) ==> s@ == vstd::utf8::decode_utf8(bytes@),
        r matches Err(e) ==> e@ == utf8_error(bytes@),
{
    match std::str::from_utf8(bytes) {
        Ok(s) => Ok(s.to_string()),
        Err(e) => Err(e.to_string()),
    }
}

/// What serde_json writes back, compactly, for the JSON value in `text`: `None`
/// when `text` is not JSON.
pub uninterp spec fn json_compact(text: Seq<char>) -> Option<Seq<char>>;

/// `text` parsed with `serde_json::from_str::<serde_json::Value>` and written back
/// with `Value::to_string`. The contract claims only that the result is the named
/// function of the text.
#[verifier::external_body]
pub fn compact_json(text: &str) -> (r: Option<String>)
    ensures
        match r {
            Some(s) => json_compact(text@) == Some(s@),
            None => json_compact(text@) is None,
        },
{
    serde_json::from_str::<serde_json::Value>(text).ok().map(|v| v.to_string())
}

/// What serde_json reads from `text` for boolean member `key`: `None` when `text`
/// is not a JSON object, `Some(None)` when member `key` is missing or not a boolean.
pub uninterp spec fn json_bool_field(text: Seq<char>, key: Seq<char>) -> Option<Option<bool>>;

/// The boolean member `key` of the JSON object in `text` (`Value::get` then
/// `Value::as_bool`). The contract claims only that the result is the named function
/// of the two arguments.
#[verifier::external_body]
pub fn json_object_bool_field(text: &str, key: &str) -> (r: Option<Option<bool>>)
    ensures
        r == json_bool_field(text@, key@),
{
    match serde_json::from_str::<serde_json::Value>(text) {
        Ok(serde_json::Value::Object(m)) => Some(m.get(key).and_then(|v| v.as_bool())),
        _ => None,
    }
}

/// What serde_json reads from `text` for unsigned integer member `key`: `None` when
/// `text` is not a JSON object, `Some(None)` when member `key` is missing or not an
/// integer that fits in `u64`.
pub uninterp spec fn json_u64_field(text: Seq<char>, key: Seq<char>) -> Option<Option<u64>>;

/// The unsigned integer member `key` of the JSON object in `text` (`Value::get` then
/// `Value::as_u64`). The contract claims only that the result is the named function
/// of the two arguments.
#[verifier::external_body]
pub fn json_object_u64_field(text: &str, key: &str) -> (r: Option<Option<u64>>)
    ensures
        r == json_u64_field(text@, key@),
{
    match serde_json::from_str::<serde_json::Value>(text) {
        Ok(serde_json::Value::Object(m)) => Some(m.get(key).and_then(|v| v.as_u64())),
        _ => None,
    }
}

/// What serde_json reads from `text` for array member `key`: `None` when `text` is
/// not a JSON object, `Some(None)` when member `key` is missing or not an array,
/// and otherwise each element's text when it is a string (`None` for the others).
pub uninterp spec fn json_str_array_field(text: Seq<char>, key: Seq<char>) -> Option<Option<Seq<Option<Seq<char>>>>>;

/// The views of optional strings.
pub open spec fn opt_views(v: Seq<Option<String>>) -> Seq<Option<Seq<char>>> {
    v.map_values(|e: Option<String>| match e {
        Some(s) => Some(s@),
        None => None::<Seq<char>>,
    })
}

/// The elements of array member `key` of the JSON object in `text`, each as a
/// string when it is one (`Value::get`, `Value::as_array`, `Value::as_str`). The
/// contract claims only that the result is the named function of the arguments.
#[verifier::external_body]
pub fn json_object_str_array_field(text: &str, key: &str) -> (r: Option<Option<Vec<Option<String>>>>)
    ensures
        match r {
            None => json_str_array_field(text@, key@) is None,
            Some(None) => json_str_array_field(text@, key@) == Some(None::<Seq<Option<Seq<char>>>>),
            Some(Some(v)) => json_str_array_field(text@, key@) == Some(Some(opt_views(v@))),
        },
{
    match serde_json::from_str::<serde_json::Value>(text) {
        Ok(serde_json::Value::Object(m)) => Some(m.get(key).and_then(|v| v.as_array()).map(|a| a.iter().map(|e| e.as_str().map(|s| s.to_string())).collect())),
        _ => None,
    }
}

/// The member `key` of the JSON object in `text` when it is a string (`None` for a
/// missing member, another kind of value, or text that is not an object).
pub fn str_param(input: &str, key: &str) -> (r: Option<String>)
    ensures
        match json_str_field(input@, key@) {
            Some(Some(v)) => r matches Some(s) && s@ == v,
            _ => r is None,
        },
{
    match json_object_str_field(input, key) {
        Some(Some(v)) => Some(v),
        _ => None,
    }
}

/// What serde_json reads from `text` for member `key`: `None` when `text` is not a
/// JSON object, `Some(None)` when it has no member `key`, and otherwise the member
/// written back compactly.
pub uninterp spec fn json_member(text: Seq<char>, key: Seq<char>) -> Option<Option<Seq<char>>>;

/// Member `key` of the JSON object in `text` (`Value::get`), written back with
/// `Value::to_string`. The contract claims only that the result is the named
/// function of the two arguments.
#[verifier::external_body]
pub fn json_member_text(text: &str, key: &str) -> (r: Option<Option<String>>)
    ensures
        match r {
            None => json_member(text@, key@) is None,
            Some(None) => json_member(text@, key@) == Some(None::<Seq<char>>),
            Some(Some(v)) => json_member(text@, key@) == Some(Some(v@)),
        },
{
    match serde_json::from_str::<serde_json::Value>(text) {
        Ok(serde_json::Value::Object(m)) => Some(m.get(key).map(|v| v.to_string())),
        _ => None,
    }
}

/// What serde_json reads from `text` as an array: `None` when `text` is not a JSON
/// array, otherwise each element written back compactly.
pub uninterp spec fn json_items(text: Seq<char>) -> Option<Seq<Seq<char>>>;

/// The elements of the JSON array in `text` (`Value::as_array`), each written back
/// with `Value::to_string`. The contract claims only that the result is the named
/// function of the text.
#[verifier::external_body]
pub fn json_array_items(text: &str) -> (r: Option<Vec<String>>)
    ensures
        match r {
            None => json_items(text@) is None,
            Some(v) => json_items(text@) == Some(crate::text::views(v@)),
        },
{
    match serde_json::from_str::<serde_json::Value>(text) {
        Ok(serde_json::Value::Array(a)) => Some(a.iter().map(|v| v.to_string()).collect()),
        _ => None,
    }
}

/// Why serde_json refuses `text` as JSON (its error's message), or `None` when
/// `text` is JSON.
pub uninterp spec fn json_error(text: Seq<char>) -> Option<Seq<char>>;

/// The message of the error of `serde_json::from_str::<serde_json::Value>` on
/// `text`, if it fails. The contract claims only that the result is the named
/// function of the text.
#[verifier::external_body]
pub fn json_parse_error(text: &str) -> (r: Option<String>)
    ensures
        match r {
            None => json_error(text@) is None,
            Some(m) => json_error(text@) == Some(m@),
        },
{
    serde_json::from_str::<serde_json::Value>(text).err().map(|e| e.to_string())
}

/// What `serde_json::from_slice::<serde_json::Value>` gives for `bytes`: the value
/// written back compactly, or its error's message.
pub uninterp spec fn json_slice(bytes: Seq<u8>) -> Result<Seq<char>, Seq<char>>;

/// The JSON value in `bytes` (`serde_json::from_slice`), written back with
/// `Value::to_string`, or the message of the parse error. The contract claims only
/// that the outcome is the named function of the bytes.
#[verifier::external_body]
pub fn json_text_from_slice(bytes: &[u8]) -> (r: Result<String, String>)
    ensures
        match r {
            Ok(t) => json_slice(bytes@) == Ok::<Seq<char>, Seq<char>>(t@),
            Err(e) => json_slice(bytes@) == Err::<Seq<char>, Seq<char>>(e@),
        },
{
    serde_json::from_slice::<serde_json::Value>(bytes).map(|v| v.to_string()).map_err(|e| e.to_string())
}


/// The text of member `key` of the JSON object in `t`, when it has one.
pub open spec fn field_text(t: Seq<char>, key: Seq<char>) -> Option<Seq<char>> {
    match json_member(t, key) {
        Some(Some(v)) => Some(v),
        _ => None,
    }
}

/// The string member `key` of the JSON object in `t`, when it is a string.
pub open spec fn field_str(t: Seq<char>, key: Seq<char>) -> Option<Seq<char>> {
    match json_str_field(t, key) {
        Some(Some(v)) => Some(v),
        _ => None,
    }
}

/// The string member `key` of the JSON object in `t`, or the empty text.
pub open spec fn str_or_empty(t: Seq<char>, key: Seq<char>) -> Seq<char> {
    match field_str(t, key) {
        Some(v) => v,
        None => Seq::empty(),
    }
}

/// The text of member `key` of the JSON object in `t`, when it has one.
pub fn member_text(t: &str, key: &str) -> (r: Option<String>)
    ensures
        match field_text(t@, key@) {
            Some(v) => r matches Some(s) && s@ == v,
            None => r is None,
        },
{
    match json_member_text(t, key) {
        Some(Some(v)) => Some(v),
        _ => None,
    }
}

/// The string member `key` of the JSON object in `t`, or the empty text.
pub fn str_member_or_empty(t: &str, key: &str) -> (r: String)
    ensures
        r@ == str_or_empty(t@, key@),
{
    match str_param(t, key) {
        Some(v) => v,
        None => String::new(),
    }
}

/// A JSON value as the library walks it. Numbers are kept as their text; members
/// of an object keep their order.
#[derive(Debug, PartialEq, Eq)]
pub enum JsonValue {
    Null,
    Bool(bool),
    Number(String),
    Str(String),
    Array(Vec<JsonValue>),
    Object(Vec<(String, JsonValue)>),
}

/// The value of the first member named `key` among `ms`.
pub open spec fn member_in(ms: Seq<(String, JsonValue)>, key: Seq<char>) -> Option<JsonValue>
    decreases ms.len(),
{
    if ms.len() == 0 {
        None
    } else if ms[0].0@ == key {
        Some(ms[0].1)
    } else {
        member_in(ms.drop_first(), key)
    }
}

/// The member `key` of an object (`None` for other values), as `Value::get` gives.
pub open spec fn member(v: JsonValue, key: Seq<char>) -> Option<JsonValue> {
    match v {
        JsonValue::Object(ms) => member_in(ms@, key),
        _ => None,
    }
}

/// The text of a string value, as `Value::as_str` gives.
pub open spec fn as_text(v: Option<JsonValue>) -> Option<Seq<char>> {
    match v {
        Some(JsonValue::Str(s)) => Some(s@),
        _ => None,
    }
}

/// The text of string member `key`, or the empty text.
pub open spec fn text_or_empty(v: JsonValue, key: Seq<char>) -> Seq<char> {
    match as_text(member(v, key)) {
        Some(t) => t,
        None => Seq::empty(),
    }
}

/// The elements of an array value, as `Value::as_array` gives.
pub open spec fn as_items(v: Option<JsonValue>) -> Option<Seq<JsonValue>> {
    match v {
        Some(JsonValue::Array(items)) => Some(items@),
        _ => None,
    }
}

impl JsonValue {
    /// The member `key` of an object (`None` for other values).
    pub fn get(&self, key: &str) -> (r: Option<&JsonValue>)
        ensures
            match r {
                Some(v) => member(*self, key@) == Some(*v),
                None => member(*self, key@) is None,
            },
    {
        match self {
            JsonValue::Object(ms) => {
                let mut i: usize = 0;
                assert(ms@.skip(0) =~= ms@);
                while i < ms.len()
                    invariant
                        i <= ms@.len(),
                        member(*self, key@) == member_in(ms@, key@),
                        member_in(ms@, key@) == member_in(ms@.skip(i as int), key@),
                    decreases ms@.len() - i,
                {
                    assert(ms@.skip(i as int).drop_first() =~= ms@.skip(i + 1));
                    assert(ms@.skip(i as int)[0] == ms@[i as int]);
                    if crate::text::str_eq(ms[i].0.as_str(), key) {
                        return Some(&ms[i].1);
                    }
                    i += 1;
                }
                None
            },
            _ => None,
        }
    }

    /// The text of a string value.
    pub fn as_str(&self) -> (r: Option<&str>)
        ensures
            match r {
                Some(s) => as_text(Some(*self)) == Some(s@),
                None => as_text(Some(*self)) is None,
            },
    {
        match self {
            JsonValue::Str(s) => Some(s.as_str()),
            _ => None,
        }
    }

    /// The elements of an array value.
    pub fn as_array(&self) -> (r: Option<&Vec<JsonValue>>)
        ensures
            match r {
                Some(v) => as_items(Some(*self)) == Some(v@),
                None => as_items(Some(*self)) is None,
            },
    {
        match self {
            JsonValue::Array(items) => Some(items),
            _ => None,
        }
    }

    /// The text of string member `key`, if there is one.
    pub fn str_member(&self, key: &str) -> (r: Option<&str>)
        ensures
            match r {
                Some(s) => as_text(member(*self, key@)) == Some(s@),
                None => as_text(member(*self, key@)) is None,
            },
    {
        match self.get(key) {
            Some(v) => v.as_str(),
            None => None,
        }
    }

    /// The text of string member `key`, or the empty text.
    pub fn text_member(&self, key: &str) -> (r: String)
        ensures
            r@ == text_or_empty(*self, key@),
    {
        match self.str_member(key) {
            Some(s) => crate::text::owned(s),
            None => String::new(),
        }
    }
}

} // verus!
