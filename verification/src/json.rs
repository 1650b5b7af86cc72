//! JSON values as plain data.
use crate::strmap::{lemma_values_are_parts, StrMap};
use serde_json::Value;
use vstd::prelude::*;

verus! {

/// A JSON number. One that is no integer is kept as its text.
#[derive(Debug)]
pub enum JsonNumber {
    PosInt(u64),
    NegInt(i64),
    Float(String),
}

/// A JSON value.
#[derive(Debug)]
pub enum JsonValue {
    Null,
    Bool(bool),
    Number(JsonNumber),
    Str(String),
    Array(Vec<JsonValue>),
    Object(StrMap<JsonValue>),
}

/// What a JSON value denotes. The order of the members of an object is of no
/// account.
pub enum Json {
    Null,
    Bool(bool),
    Int(int),
    Fraction(Seq<char>),
    Text(Seq<char>),
    Array(Seq<Json>),
    Object(Map<Seq<char>, Json>),
}

pub open spec fn number_json(n: JsonNumber) -> Json {
    match n {
        JsonNumber::PosInt(n) => Json::Int(n as int),
        JsonNumber::NegInt(n) => Json::Int(n as int),
        JsonNumber::Float(t) => Json::Fraction(t@),
    }
}

/// What a JSON value denotes.
pub open spec fn json_of(v: JsonValue) -> Json
    decreases v,
{
    match v {
        JsonValue::Null => Json::Null,
        JsonValue::Bool(b) => Json::Bool(b),
        JsonValue::Number(n) => number_json(n),
        JsonValue::Str(s) => Json::Text(s@),
        JsonValue::Array(a) => Json::Array(
            Seq::new(
                a@.len(),
                |i: int|
                    if 0 <= i < a@.len() {
                        json_of(a@[i])
                    } else {
                        Json::Null
                    },
            ),
        ),
        JsonValue::Object(m) => {
            proof {
                lemma_values_are_parts(m);
            }
            Json::Object(
                Map::new(
                    |k: Seq<char>| m@.contains_key(k),
                    |k: Seq<char>|
                        if m@.contains_key(k) {
                            json_of(m@[k])
                        } else {
                            Json::Null
                        },
                ),
            )
        },
    }
}

impl View for JsonValue {
    type V = Json;

    open spec fn view(&self) -> Json {
        json_of(*self)
    }
}

/// What the items of an array denote.
pub open spec fn jsons(a: Seq<JsonValue>) -> Seq<Json> {
    a.map_values(|v: JsonValue| v@)
}

/// An array denotes its items.
pub proof fn lemma_array_json(a: Vec<JsonValue>)
    ensures
        JsonValue::Array(a)@ == Json::Array(jsons(a@)),
{
    if let Json::Array(s) = JsonValue::Array(a)@ {
        assert(s =~= jsons(a@));
    }
}

/// An object denotes its members.
pub proof fn lemma_object_json(m: StrMap<JsonValue>)
    ensures
        JsonValue::Object(m)@ == Json::Object(m@.map_values(|v: JsonValue| v@)),
{
    if let Json::Object(s) = JsonValue::Object(m)@ {
        assert(s =~= m@.map_values(|v: JsonValue| v@));
    }
}

/// What an optional JSON value denotes.
pub open spec fn opt_json(v: Option<JsonValue>) -> Option<Json> {
    match v {
        Some(x) => Some(x@),
        None => None,
    }
}

/// Whether a value has no fractions and nests arrays and objects no deeper than
/// `levels`.
pub open spec fn plain_within(v: Json, levels: nat) -> bool
    decreases levels,
{
    match v {
        Json::Fraction(_) => false,
        Json::Array(a) => levels > 0 && forall|i: int|
            0 <= i < a.len() ==> plain_within(#[trigger] a[i], (levels - 1) as nat),
        Json::Object(m) => levels > 0 && forall|k: Seq<char>| #[trigger]
            m.contains_key(k) ==> plain_within(m[k], (levels - 1) as nat),
        _ => true,
    }
}

// ---------------------------------------------------------------------------
// Values as text
// ---------------------------------------------------------------------------

/// How deep serde_json reads arrays and objects inside each other.
pub const MAX_NESTING: u8 = 127;

/// The JSON values of serde_json.
#[verifier::external_type_specification]
#[verifier::external_body]
pub struct ExValue(serde_json::Value);

/// What `serde_json::from_str` reads a text as; nothing where it is no JSON
/// value or nests too deep.
pub uninterp spec fn json_read(text: Seq<char>) -> Option<Json>;

/// What `serde_json::to_string` writes for a value.
pub uninterp spec fn json_compact(v: Json) -> Seq<char>;

/// What `serde_json::to_string_pretty` writes for a value.
pub uninterp spec fn json_pretty(v: Json) -> Seq<char>;

/// Turns a `serde_json::Value` into a value of this crate, variant by variant:
/// what it holds stays as it is. A number that is neither `as_u64` nor `as_i64`
/// is kept as the text that `Number` displays. Nothing is claimed of the result
/// here; `read_json` names it.
#[verifier::external_body]
fn from_outside(v: Value) -> (r: JsonValue) {
    match v {
        Value::Null => JsonValue::Null,
        Value::Bool(b) => JsonValue::Bool(b),
        Value::Number(n) => JsonValue::Number(
            n.as_u64().map(JsonNumber::PosInt).or(n.as_i64().map(JsonNumber::NegInt))
                .unwrap_or_else(|| JsonNumber::Float(n.to_string())),
        ),
        Value::String(s) => JsonValue::Str(s),
        Value::Array(a) => JsonValue::Array(a.into_iter().map(from_outside).collect()),
        Value::Object(m) => JsonValue::Object(
            StrMap::from_entries(m.into_iter().map(|(k, v)| (k, from_outside(v))).collect()),
        ),
    }
}

/// Turns a value of this crate into a `serde_json::Value`, variant by variant:
/// what it holds stays as it is. The text of a number that is no integer is
/// read as one by std; a text that is none becomes null. Nothing is claimed of
/// the result here; the functions that write values name theirs.
#[verifier::external_body]
fn to_outside(v: &JsonValue) -> (r: Value) {
    match v {
        JsonValue::Null => Value::Null,
        JsonValue::Bool(b) => Value::Bool(*b),
        JsonValue::Number(JsonNumber::PosInt(n)) => Value::from(*n),
        JsonValue::Number(JsonNumber::NegInt(n)) => Value::from(*n),
        JsonValue::Number(JsonNumber::Float(t)) => Value::from(
            t.parse().ok().and_then(serde_json::Number::from_f64),
        ),
        JsonValue::Str(s) => Value::String(s.clone()),
        JsonValue::Array(a) => a.iter().map(to_outside).collect(),
        JsonValue::Object(m) => (0..m.len()).map(
            |i| (m.key_at(i).clone(), to_outside(m.value_at(i))),
        ).collect(),
    }
}

/// Calls `serde_json::from_str`. What it reads is a function of the text alone
/// and is named, not restated.
#[verifier::external_body]
pub(crate) fn read_json(text: &str) -> (r: Option<JsonValue>)
    ensures
        opt_json(r) == json_read(text@),
{
    serde_json::from_str::<serde_json::Value>(text).ok().map(from_outside)
}

/// Calls `serde_json::to_string`, which does not fail on a `Value`, and which
/// sorts the members of objects by name. The text is named, not restated. What
/// it writes is read as the same value, unless that nests deeper than
/// `serde_json::from_str` reads or holds fractions, which may be rounded.
#[verifier::external_body]
pub(crate) fn write_json(v: &JsonValue) -> (r: String)
    ensures
        r@ == json_compact(v@),
        plain_within(v@, MAX_NESTING as nat) ==> json_read(r@) == Some(v@),
{
    serde_json::to_string(&to_outside(v)).unwrap_or_default()
}

/// Calls `serde_json::to_string_pretty`, which does not fail on a `Value`, and
/// which sorts the members of objects by name. The text is named, not restated.
/// What it writes is read as the same value, unless that nests deeper than
/// `serde_json::from_str` reads or holds fractions, which may be rounded.
#[verifier::external_body]
pub(crate) fn write_json_pretty(v: &JsonValue) -> (r: String)
    ensures
        r@ == json_pretty(v@),
        plain_within(v@, MAX_NESTING as nat) ==> json_read(r@) == Some(v@),
{
    serde_json::to_string_pretty(&to_outside(v)).unwrap_or_default()
}

/// The member `k` of an object.
pub open spec fn field(v: JsonValue, k: Seq<char>) -> Option<JsonValue> {
    match v {
        JsonValue::Object(m) => if m@.contains_key(k) {
            Some(m@[k])
        } else {
            None
        },
        _ => None,
    }
}

/// The member `k` of what `v` holds, if it holds an object.
pub open spec fn opt_field(v: Option<JsonValue>, k: Seq<char>) -> Option<JsonValue> {
    match v {
        Some(x) => field(x, k),
        None => None,
    }
}

/// The text of a JSON string.
pub open spec fn text(v: Option<JsonValue>) -> Option<Seq<char>> {
    match v {
        Some(JsonValue::Str(s)) => Some(s@),
        _ => None,
    }
}

/// The value of a JSON boolean.
pub open spec fn boolean(v: Option<JsonValue>) -> Option<bool> {
    match v {
        Some(JsonValue::Bool(b)) => Some(b),
        _ => None,
    }
}

/// The value of a JSON integer that is not negative.
pub open spec fn unsigned(v: Option<JsonValue>) -> Option<u64> {
    match v {
        Some(JsonValue::Number(JsonNumber::PosInt(n))) => Some(n),
        _ => None,
    }
}

/// The value of a JSON integer that fits a signed 64-bit number.
pub open spec fn signed(v: Option<JsonValue>) -> Option<i64> {
    match v {
        Some(JsonValue::Number(JsonNumber::PosInt(n))) => if n <= i64::MAX {
            Some(n as i64)
        } else {
            None
        },
        Some(JsonValue::Number(JsonNumber::NegInt(n))) => Some(n),
        _ => None,
    }
}

/// The items of a JSON array; none for anything else.
pub open spec fn array_items(v: Option<JsonValue>) -> Seq<JsonValue> {
    match v {
        Some(JsonValue::Array(a)) => a@,
        _ => Seq::empty(),
    }
}

/// The value behind an optional reference.
pub open spec fn opt_deref(v: Option<&JsonValue>) -> Option<JsonValue> {
    match v {
        Some(x) => Some(*x),
        None => None,
    }
}

impl JsonValue {
    /// The member `k`, where this is an object that has one.
    pub fn get(&self, k: &str) -> (r: Option<&JsonValue>)
        ensures
            opt_deref(r) == field(*self, k@),
    {
        match self {
            JsonValue::Object(m) => m.get(k),
            _ => None,
        }
    }

    /// The text, where this is a string.
    pub fn as_str(&self) -> (r: Option<&String>)
        ensures
            match r {
                Some(s) => text(Some(*self)) == Some(s@),
                None => text(Some(*self)) is None,
            },
    {
        match self {
            JsonValue::Str(s) => Some(s),
            _ => None,
        }
    }

    /// The truth value, where this is a boolean.
    pub fn as_bool(&self) -> (r: Option<bool>)
        ensures
            r == boolean(Some(*self)),
    {
        match self {
            JsonValue::Bool(b) => Some(*b),
            _ => None,
        }
    }

    /// The number, where this is an integer that is not negative.
    pub fn as_u64(&self) -> (r: Option<u64>)
        ensures
            r == unsigned(Some(*self)),
    {
        match self {
            JsonValue::Number(JsonNumber::PosInt(n)) => Some(*n),
            _ => None,
        }
    }

    /// The number, where this is an integer that fits a signed 64-bit number.
    pub fn as_i64(&self) -> (r: Option<i64>)
        ensures
            r == signed(Some(*self)),
    {
        match self {
            JsonValue::Number(JsonNumber::PosInt(n)) => if *n <= i64::MAX as u64 {
                Some(*n as i64)
            } else {
                None
            },
            JsonValue::Number(JsonNumber::NegInt(n)) => Some(*n),
            _ => None,
        }
    }

    /// The items, where this is an array.
    pub fn as_array(&self) -> (r: Option<&Vec<JsonValue>>)
        ensures
            match r {
                Some(a) => self matches JsonValue::Array(b) && *a == b,
                None => !(self is Array),
            },
    {
        match self {
            JsonValue::Array(a) => Some(a),
            _ => None,
        }
    }

    /// The members, where this is an object.
    pub fn as_object(&self) -> (r: Option<&StrMap<JsonValue>>)
        ensures
            match r {
                Some(a) => self matches JsonValue::Object(b) && *a == b,
                None => !(self is Object),
            },
    {
        match self {
            JsonValue::Object(a) => Some(a),
            _ => None,
        }
    }
}

/// The text of the member `k` of `v`.
pub fn get_text(v: &JsonValue, k: &str) -> (r: Option<String>)
    ensures
        crate::text::opt_text(r) == text(field(*v, k@)),
{
    match v.get(k) {
        Some(x) => match x.as_str() {
            Some(s) => Some(s.clone()),
            None => None,
        },
        None => None,
    }
}

/// The text of the member `k` of `v`, or `default`.
pub fn get_text_or(v: &JsonValue, k: &str, default: &str) -> (r: String)
    ensures
        r@ == (match text(field(*v, k@)) {
            Some(t) => t,
            None => default@,
        }),
{
    match get_text(v, k) {
        Some(s) => s,
        None => default.to_owned(),
    }
}

/// The truth value of the member `k` of `v`.
pub fn get_bool(v: &JsonValue, k: &str) -> (r: Option<bool>)
    ensures
        r == boolean(field(*v, k@)),
{
    match v.get(k) {
        Some(x) => x.as_bool(),
        None => None,
    }
}

/// The truth value of the member `k` of `v`, or false.
pub fn get_flag(v: &JsonValue, k: &str) -> (r: bool)
    ensures
        r == (boolean(field(*v, k@)) == Some(true)),
{
    match get_bool(v, k) {
        Some(b) => b,
        None => false,
    }
}

/// The number of the member `k` of `v`, where it is not negative.
pub fn get_u64(v: &JsonValue, k: &str) -> (r: Option<u64>)
    ensures
        r == unsigned(field(*v, k@)),
{
    match v.get(k) {
        Some(x) => x.as_u64(),
        None => None,
    }
}

/// The number of the member `k` of `v`, where it fits a signed 64-bit number.
pub fn get_i64(v: &JsonValue, k: &str) -> (r: Option<i64>)
    ensures
        r == signed(field(*v, k@)),
{
    match v.get(k) {
        Some(x) => x.as_i64(),
        None => None,
    }
}

/// The items of the member `k` of `v`, where it is an array.
pub fn get_array<'a>(v: &'a JsonValue, k: &str) -> (r: Option<&'a Vec<JsonValue>>)
    ensures
        match r {
            Some(a) => field(*v, k@) == Some(JsonValue::Array(*a)) && array_items(field(*v, k@))
                == a@,
            None => !(field(*v, k@) matches Some(JsonValue::Array(_))) && array_items(field(*v, k@))
                == Seq::<JsonValue>::empty(),
        },
{
    match v.get(k) {
        Some(x) => x.as_array(),
        None => None,
    }
}

/// A whole number is read as it is where it has a place among the signed ones.
pub proof fn law_signed_numbers_are_read(n: u64, m: i64)
    ensures
        n <= i64::MAX ==> signed(Some(JsonValue::Number(JsonNumber::PosInt(n)))) == Some(n as i64),
        n > i64::MAX ==> signed(Some(JsonValue::Number(JsonNumber::PosInt(n)))) is None,
        signed(Some(JsonValue::Number(JsonNumber::NegInt(m)))) == Some(m),
        signed(None) is None,
{
}

} // verus!
