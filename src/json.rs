//! A structured value of the JSON data model, as the metadata blob of a
//! record holds it, with the lookups that the renderers make on it.
use vstd::prelude::*;

use crate::text::str_eq;
use serde_json::Value as SerdeValue;

verus! {

/// A JSON number: a non-negative integer, a negative integer, or a number with
/// a fraction or exponent, kept as its decimal text.
pub enum JsonNumber {
    Unsigned(u64),
    Signed(i64),
    Decimal(String),
}

/// A JSON value. An object keeps its members in order, with distinct keys.
pub enum JsonValue {
    Null,
    Bool(bool),
    Number(JsonNumber),
    Str(String),
    Array(Vec<JsonValue>),
    Object(Vec<(String, JsonValue)>),
}

/// The value of the first member of `members` named `key`.
pub open spec fn member_lookup(members: Seq<(String, JsonValue)>, key: Seq<char>) -> Option<
    JsonValue,
>
    decreases members.len(),
{
    if members.len() == 0 {
        None
    } else if members[0].0@ == key {
        Some(members[0].1)
    } else {
        member_lookup(members.drop_first(), key)
    }
}

/// The member `key` of an object; `None` for a missing member or a value that
/// is not an object.
pub open spec fn json_get(v: JsonValue, key: Seq<char>) -> Option<JsonValue> {
    match v {
        JsonValue::Object(members) => member_lookup(members@, key),
        _ => None,
    }
}

/// The text of a string value.
pub open spec fn json_as_str(v: JsonValue) -> Option<Seq<char>> {
    match v {
        JsonValue::Str(s) => Some(s@),
        _ => None,
    }
}

/// A non-negative integer value.
pub open spec fn json_as_u64(v: JsonValue) -> Option<u64> {
    match v {
        JsonValue::Number(JsonNumber::Unsigned(n)) => Some(n),
        _ => None,
    }
}

/// The text of the string member `key`, if there is one.
pub open spec fn str_field(v: JsonValue, key: Seq<char>) -> Option<Seq<char>> {
    match json_get(v, key) {
        Some(m) => json_as_str(m),
        None => None,
    }
}

/// The non-negative integer member `key`, if there is one.
pub open spec fn u64_field(v: JsonValue, key: Seq<char>) -> Option<u64> {
    match json_get(v, key) {
        Some(m) => json_as_u64(m),
        None => None,
    }
}

/// Whether the member `key` is present and not `null`.
pub open spec fn has_non_null(v: JsonValue, key: Seq<char>) -> bool {
    match json_get(v, key) {
        Some(m) => !(m is Null),
        None => false,
    }
}

/// `text` when present, `default` otherwise.
pub open spec fn or_default(o: Option<Seq<char>>, default: Seq<char>) -> Seq<char> {
    match o {
        Some(s) => s,
        None => default,
    }
}

/// The value of the first member of `members` named `key`.
fn lookup_member<'a>(members: &'a Vec<(String, JsonValue)>, key: &str) -> (r: Option<&'a JsonValue>)
    ensures
        r matches Some(m) ==> member_lookup(members@, key@) == Some(*m),
        r is None ==> member_lookup(members@, key@) is None,
{
    let mut i: usize = 0;
    assert(members@.subrange(0, members@.len() as int) =~= members@);
    while i < members.len()
        invariant
            i <= members@.len(),
            member_lookup(members@, key@) == member_lookup(
                members@.subrange(i as int, members@.len() as int),
                key@,
            ),
        decreases members@.len() - i,
    {
        let ghost rest = members@.subrange(i as int, members@.len() as int);
        assert(rest[0] == members@[i as int]);
        if str_eq(members[i].0.as_str(), key) {
            return Some(&members[i].1);
        }
        assert(rest.drop_first() =~= members@.subrange(i + 1, members@.len() as int));
        i = i + 1;
    }
    None
}

impl JsonValue {
    /// The member `key` of an object.
    pub fn get(&self, key: &str) -> (r: Option<&JsonValue>)
        ensures
            r matches Some(m) ==> json_get(*self, key@) == Some(*m),
            r is None ==> json_get(*self, key@) is None,
    {
        match self {
            JsonValue::Object(members) => lookup_member(members, key),
            _ => None,
        }
    }

    /// The text of a string value.
    pub fn as_str(&self) -> (r: Option<&str>)
        ensures
            r matches Some(s) ==> json_as_str(*self) == Some(s@),
            r is None ==> json_as_str(*self) is None,
    {
        match self {
            JsonValue::Str(s) => Some(s.as_str()),
            _ => None,
        }
    }

    /// A non-negative integer value.
    pub fn as_u64(&self) -> (r: Option<u64>)
        ensures
            r == json_as_u64(*self),
    {
        match self {
            JsonValue::Number(JsonNumber::Unsigned(n)) => Some(*n),
            _ => None,
        }
    }

    /// The elements of an array value.
    pub fn as_array(&self) -> (r: Option<&Vec<JsonValue>>)
        ensures
            r matches Some(a) ==> *self == JsonValue::Array(*a),
            r is None ==> !(*self is Array),
    {
        match self {
            JsonValue::Array(a) => Some(a),
            _ => None,
        }
    }

    pub fn is_null(&self) -> (r: bool)
        ensures
            r == (*self is Null),
    {
        match self {
            JsonValue::Null => true,
            _ => false,
        }
    }

    /// The text of the string member `key`.
    pub fn get_str(&self, key: &str) -> (r: Option<&str>)
        ensures
            r matches Some(s) ==> str_field(*self, key@) == Some(s@),
            r is None ==> str_field(*self, key@) is None,
    {
        match self.get(key) {
            Some(m) => m.as_str(),
            None => None,
        }
    }

    /// The non-negative integer member `key`.
    pub fn get_u64(&self, key: &str) -> (r: Option<u64>)
        ensures
            r == u64_field(*self, key@),
    {
        match self.get(key) {
            Some(m) => m.as_u64(),
            None => None,
        }
    }

    /// Whether the member `key` is present and not `null`.
    pub fn has_non_null(&self, key: &str) -> (r: bool)
        ensures
            r == has_non_null(*self, key@),
    {
        match self.get(key) {
            Some(m) => !m.is_null(),
            None => false,
        }
    }
}

/// The text of the string member `key`, or `default` when there is none.
pub fn str_field_or(v: &JsonValue, key: &str, default: &str) -> (r: String)
    ensures
        r@ == or_default(str_field(*v, key@), default@),
{
    match v.get_str(key) {
        Some(s) => s.to_owned(),
        None => default.to_owned(),
    }
}

/// The string elements of the array member `key`, skipping other elements.
pub open spec fn string_elements(items: Seq<JsonValue>) -> Seq<Seq<char>>
    decreases items.len(),
{
    if items.len() == 0 {
        Seq::empty()
    } else {
        let rest = string_elements(items.drop_last());
        match json_as_str(items.last()) {
            Some(s) => rest.push(s),
            None => rest,
        }
    }
}

/// The integer elements of an array, skipping other elements.
pub open spec fn u64_elements(items: Seq<JsonValue>) -> Seq<u64>
    decreases items.len(),
{
    if items.len() == 0 {
        Seq::empty()
    } else {
        let rest = u64_elements(items.drop_last());
        match json_as_u64(items.last()) {
            Some(n) => rest.push(n),
            None => rest,
        }
    }
}

/// The elements of the array member `key`; empty when there is none.
pub open spec fn array_field(v: JsonValue, key: Seq<char>) -> Seq<JsonValue> {
    match json_get(v, key) {
        Some(JsonValue::Array(a)) => a@,
        _ => Seq::empty(),
    }
}

/// The string elements of the array member `key`.
pub fn string_list(v: &JsonValue, key: &str) -> (r: Vec<String>)
    ensures
        r@.len() == string_elements(array_field(*v, key@)).len(),
        forall|i: int|
            0 <= i < r@.len() ==> #[trigger] r@[i]@ == string_elements(array_field(*v, key@))[i],
{
    let mut out: Vec<String> = Vec::new();
    match v.get(key) {
        Some(JsonValue::Array(items)) => {
            let mut i: usize = 0;
            while i < items.len()
                invariant
                    i <= items@.len(),
                    out@.len() == string_elements(items@.subrange(0, i as int)).len(),
                    forall|j: int|
                        0 <= j < out@.len() ==> #[trigger] out@[j]@ == string_elements(
                            items@.subrange(0, i as int),
                        )[j],
                decreases items@.len() - i,
            {
                assert(items@.subrange(0, i + 1).drop_last() =~= items@.subrange(0, i as int));
                if let Some(s) = items[i].as_str() {
                    out.push(s.to_owned());
                }
                i = i + 1;
            }
            assert(items@.subrange(0, items@.len() as int) =~= items@);
        },
        _ => {},
    }
    out
}

/// The integer elements of the array member `key`.
pub fn u64_list(v: &JsonValue, key: &str) -> (r: Vec<u64>)
    ensures
        r@ == u64_elements(array_field(*v, key@)),
{
    let mut out: Vec<u64> = Vec::new();
    match v.get(key) {
        Some(JsonValue::Array(items)) => {
            let mut i: usize = 0;
            while i < items.len()
                invariant
                    i <= items@.len(),
                    out@ == u64_elements(items@.subrange(0, i as int)),
                decreases items@.len() - i,
            {
                assert(items@.subrange(0, i + 1).drop_last() =~= items@.subrange(0, i as int));
                if let Some(n) = items[i].as_u64() {
                    out.push(n);
                }
                i = i + 1;
            }
            assert(items@.subrange(0, items@.len() as int) =~= items@);
        },
        _ => {},
    }
    out
}


#[verifier::external_type_specification]
#[verifier::external_body]
pub struct ExSerdeValue(serde_json::Value);

/// The value that `serde_json` reads from a text, or `None` when the text is
/// not one JSON value.
pub uninterp spec fn parse_json_of(s: Seq<char>) -> Option<JsonValue>;

/// Relies on `serde_json::from_str` into a `serde_json::Value`, carried over
/// member for member into a `JsonValue`.
#[verifier::external_body]
pub fn parse_json(text: &str) -> (r: Option<JsonValue>)
    ensures
        r == parse_json_of(text@),
{
    serde_json::from_str::<SerdeValue>(text).ok().map(from_serde_value)
}

/// Carries a `serde_json::Value` over into a `JsonValue`, variant for variant.
#[verifier::external_body]
pub fn from_serde_value(v: SerdeValue) -> JsonValue {
    match v {
        SerdeValue::Null => JsonValue::Null,
        SerdeValue::Bool(b) => JsonValue::Bool(b),
        SerdeValue::Number(n) => JsonValue::Number(number_from_serde(&n)),
        SerdeValue::String(s) => JsonValue::Str(s),
        SerdeValue::Array(a) => JsonValue::Array(a.into_iter().map(from_serde_value).collect()),
        SerdeValue::Object(m) => JsonValue::Object(
            m.into_iter().map(|(k, x)| (k, from_serde_value(x))).collect(),
        ),
    }
}

#[verifier::external_type_specification]
#[verifier::external_body]
pub struct ExSerdeNumber(serde_json::Number);

/// Relies on `Number::as_u64`, `Number::as_i64` and `Number`'s `Display`: a
/// number that is neither a `u64` nor an `i64` keeps its text.
#[verifier::external_body]
fn number_from_serde(n: &serde_json::Number) -> JsonNumber {
    match (n.as_u64(), n.as_i64()) {
        (Some(u), _) => JsonNumber::Unsigned(u),
        (None, Some(i)) => JsonNumber::Signed(i),
        _ => JsonNumber::Decimal(n.to_string()),
    }
}

/// What `serde_json` pretty-prints for a value.
pub uninterp spec fn pretty_json_value_of(v: JsonValue) -> Seq<char>;

/// Relies on `serde_json::to_string_pretty` of the value carried over into a
/// `serde_json::Value`; printing a `Value` does not fail.
#[verifier::external_body]
pub fn pretty_json_value(v: &JsonValue) -> (r: String)
    ensures
        r@ == pretty_json_value_of(*v),
{
    serde_json::to_string_pretty(&to_serde_value(v)).unwrap_or_default()
}

/// Carries a `JsonValue` over into a `serde_json::Value`, variant for variant.
#[verifier::external_body]
pub fn to_serde_value(v: &JsonValue) -> SerdeValue {
    match v {
        JsonValue::Null => SerdeValue::Null,
        JsonValue::Bool(b) => SerdeValue::Bool(*b),
        JsonValue::Number(n) => number_to_serde(n),
        JsonValue::Str(s) => SerdeValue::String(s.clone()),
        JsonValue::Array(a) => SerdeValue::Array(a.iter().map(to_serde_value).collect()),
        JsonValue::Object(m) => SerdeValue::Object(
            m.iter().map(|(k, x)| (k.clone(), to_serde_value(x))).collect(),
        ),
    }
}

/// Relies on `Value::from` for integers and `Number`'s `FromStr` for a number
/// kept as text, which reads back the number it writes.
#[verifier::external_body]
fn number_to_serde(n: &JsonNumber) -> SerdeValue {
    match n {
        JsonNumber::Unsigned(u) => SerdeValue::from(*u),
        JsonNumber::Signed(i) => SerdeValue::from(*i),
        JsonNumber::Decimal(t) => t.parse().map(SerdeValue::Number).unwrap_or(SerdeValue::Null),
    }
}

/// The pretty-printed form of a text that is one JSON value.
pub open spec fn pretty_json_of(s: Seq<char>) -> Option<Seq<char>> {
    match parse_json_of(s) {
        Some(v) => Some(pretty_json_value_of(v)),
        None => None,
    }
}

/// Pretty-prints a text that is one JSON value; `None` for another text.
pub fn pretty_json(text: &str) -> (r: Option<String>)
    ensures
        r matches Some(p) ==> pretty_json_of(text@) == Some(p@),
        r is None ==> pretty_json_of(text@) is None,
{
    match parse_json(text) {
        Some(v) => Some(pretty_json_value(&v)),
        None => None,
    }
}

} // verus!
