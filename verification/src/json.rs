//! JSON values: what `serde_json` parses, holds and writes, as far as the client reads or builds
//! it.

use crate::number;
use crate::text;
use serde_json::Value;
use vstd::prelude::*;

verus! {

/// What a JSON value holds. A number is held as `serde_json` writes it.
pub enum JsonView {
    Null,
    Bool(bool),
    Number(Seq<char>),
    Str(Seq<char>),
    Array(Seq<JsonView>),
    Object(Map<Seq<char>, JsonView>),
}

impl JsonView {
    /// The field `key` of an object.
    pub open spec fn get(self, key: Seq<char>) -> Option<JsonView> {
        match self {
            JsonView::Object(fields) => if fields.dom().contains(key) {
                Some(fields[key])
            } else {
                None
            },
            _ => None,
        }
    }

    /// The text of a string.
    pub open spec fn as_str(self) -> Option<Seq<char>> {
        match self {
            JsonView::Str(text) => Some(text),
            _ => None,
        }
    }

    /// The truth value of a boolean.
    pub open spec fn as_bool(self) -> Option<bool> {
        match self {
            JsonView::Bool(b) => Some(b),
            _ => None,
        }
    }

    /// The member that one token of a pointer names: a field of an object, or an item of an array
    /// by its index, which is written without a sign and without leading zeros.
    pub open spec fn member(self, token: Seq<char>) -> Option<JsonView> {
        match self {
            JsonView::Object(_) => self.get(token),
            JsonView::Array(items) => if text::starts_with(token, seq!['+']) || (text::starts_with(
                token,
                seq!['0'],
            ) && token.len() != 1) {
                None
            } else {
                match number::parse_int(token, 10, usize::MAX as nat) {
                    Ok(i) => if i < items.len() {
                        Some(items[i as int])
                    } else {
                        None
                    },
                    Err(_) => None,
                }
            },
            _ => None,
        }
    }

    /// The value that `tokens` lead to, one after the other.
    pub open spec fn walk(self, tokens: Seq<Seq<char>>) -> Option<JsonView>
        decreases tokens.len(),
    {
        if tokens.len() == 0 {
            Some(self)
        } else {
            match self.member(tokens[0]) {
                Some(member) => member.walk(tokens.drop_first()),
                None => None,
            }
        }
    }

    /// The value that a pointer without escapes leads to: tokens, each behind a slash.
    pub open spec fn pointer(self, pointer: Seq<char>) -> Option<JsonView> {
        if pointer.len() == 0 {
            Some(self)
        } else if pointer[0] != '/' {
            None
        } else {
            self.walk(text::split(pointer, seq!['/']).drop_first())
        }
    }
}

/// No two of the fields have the same name.
pub open spec fn names_differ(fields: Seq<(Seq<char>, JsonView)>) -> bool {
    forall|i: int, j: int|
        0 <= i < j < fields.len() ==> (#[trigger] fields[i]).0 != (#[trigger] fields[j]).0
}

/// The fields that `fields`, whose names differ, gives an object.
pub open spec fn fields_of(fields: Seq<(Seq<char>, JsonView)>) -> Map<Seq<char>, JsonView>
    decreases fields.len(),
{
    if fields.len() == 0 {
        Map::empty()
    } else {
        fields_of(fields.drop_last()).insert(fields.last().0, fields.last().1)
    }
}

/// An object with the given fields.
pub open spec fn object(fields: Seq<(Seq<char>, JsonView)>) -> JsonView {
    JsonView::Object(fields_of(fields))
}

/// A number.
pub open spec fn number_of(n: nat) -> JsonView {
    JsonView::Number(number::decimal(n))
}

/// A string, or null where there is none.
pub open spec fn optional_str(text: Option<Seq<char>>) -> JsonView {
    match text {
        Some(text) => JsonView::Str(text),
        None => JsonView::Null,
    }
}

/// A number, or null where there is none.
pub open spec fn optional_number(n: Option<nat>) -> JsonView {
    match n {
        Some(n) => number_of(n),
        None => JsonView::Null,
    }
}

/// The type of JSON values of `serde_json`.
#[verifier::external_type_specification]
#[verifier::external_body]
pub struct ExValue(serde_json::Value);

/// What a `serde_json::Value` holds.
pub uninterp spec fn json_view(value: serde_json::Value) -> JsonView;

/// What `serde_json::from_str` makes of a text: the value, or the message of the error.
pub uninterp spec fn json_parsed(text: Seq<char>) -> Result<JsonView, Seq<char>>;

/// The compact text that `serde_json` writes for a value, the fields of an object in the order of
/// their names.
pub uninterp spec fn json_text(value: JsonView) -> Seq<char>;

/// The indented text that `serde_json::to_string_pretty` writes for a value, or the message of the
/// error.
pub uninterp spec fn json_pretty(value: JsonView) -> Result<Seq<char>, Seq<char>>;

/// What the value holds, if there is one.
pub open spec fn optional_view(value: Option<&Value>) -> Option<JsonView> {
    match value {
        Some(value) => Some(json_view(*value)),
        None => None,
    }
}

/// The names and values of `fields`.
pub open spec fn field_views(fields: Seq<(String, Value)>) -> Seq<(Seq<char>, JsonView)> {
    fields.map_values(|field: (String, Value)| (field.0@, json_view(field.1)))
}

/// `serde_json::from_str` for a `Value`: the value, or the message of the error, is a function of
/// the text. Which texts are accepted, and what they hold, is not said.
#[verifier::external_body]
pub(crate) fn parse_json(text: &str) -> (r: Result<Value, String>)
    ensures
        match r {
            Ok(value) => json_parsed(text@) == Ok::<JsonView, Seq<char>>(json_view(value)),
            Err(message) => json_parsed(text@) == Err::<JsonView, Seq<char>>(message@),
        },
{
    serde_json::from_str::<Value>(text).map_err(|error| error.to_string())
}

/// `Value::get` with a string: the field of that name of an object, and nothing of any other value.
#[verifier::external_body]
pub(crate) fn json_get<'a>(value: &'a Value, key: &str) -> (r: Option<&'a Value>)
    ensures
        optional_view(r) == json_view(*value).get(key@),
{
    value.get(key)
}

/// `Value::as_str`: the text of a string, and nothing of any other value.
#[verifier::external_body]
pub(crate) fn json_as_str(value: &Value) -> (r: Option<&str>)
    ensures
        match r {
            Some(text) => json_view(*value).as_str() == Some(text@),
            None => json_view(*value).as_str() is None,
        },
{
    value.as_str()
}

/// `Value::as_bool`: the truth value of a boolean, and nothing of any other value.
#[verifier::external_body]
pub(crate) fn json_as_bool(value: &Value) -> (r: Option<bool>)
    ensures
        r == json_view(*value).as_bool(),
{
    value.as_bool()
}

/// `Value::pointer` for a pointer without the escapes `~0` and `~1`: the value that its tokens lead
/// to.
#[verifier::external_body]
pub(crate) fn json_pointer<'a>(value: &'a Value, pointer: &str) -> (r: Option<&'a Value>)
    requires
        !text::contains(pointer@, seq!['~']),
    ensures
        optional_view(r) == json_view(*value).pointer(pointer@),
{
    value.pointer(pointer)
}

/// `Value`'s `Display`: the compact text is a function of what the value holds. The text itself is
/// not said, nor that it parses back, which does not hold of every number and every depth.
#[verifier::external_body]
pub(crate) fn json_write(value: &Value) -> (r: String)
    ensures
        r@ == json_text(json_view(*value)),
{
    value.to_string()
}

/// `serde_json::to_string_pretty` for a `Value`: the indented text, or the message of the error, is
/// a function of what the value holds. The text itself is not said.
#[verifier::external_body]
pub(crate) fn json_write_pretty(value: &Value) -> (r: Result<String, String>)
    ensures
        match r {
            Ok(text) => json_pretty(json_view(*value)) == Ok::<Seq<char>, Seq<char>>(text@),
            Err(message) => json_pretty(json_view(*value)) == Err::<Seq<char>, Seq<char>>(message@),
        },
{
    serde_json::to_string_pretty(value).map_err(|error| error.to_string())
}

/// `Value::from` a string slice: a string.
#[verifier::external_body]
pub(crate) fn json_str(text: &str) -> (r: Value)
    ensures
        json_view(r) == JsonView::Str(text@),
{
    Value::from(text)
}

/// `Value::from` an unsigned integer: a number, which `serde_json` writes in decimal.
#[verifier::external_body]
pub(crate) fn json_number(n: usize) -> (r: Value)
    ensures
        json_view(r) == number_of(n as nat),
{
    Value::from(n)
}

/// `Value::default`: null.
#[verifier::external_body]
pub(crate) fn json_null() -> (r: Value)
    ensures
        json_view(r) == JsonView::Null,
{
    Value::default()
}

/// `Value::from` a vector of values: an array of them.
#[verifier::external_body]
pub(crate) fn json_array(items: Vec<Value>) -> (r: Value)
    ensures
        json_view(r) == JsonView::Array(items@.map_values(|item: Value| json_view(item))),
{
    Value::from(items)
}

/// `Value::from_iter` over pairs of a name and a value: an object with these fields. Which of two
/// fields with one name would stay is left open, so their names have to differ.
#[verifier::external_body]
pub(crate) fn json_object(fields: Vec<(String, Value)>) -> (r: Value)
    requires
        names_differ(field_views(fields@)),
    ensures
        json_view(r) == object(field_views(fields@)),
{
    Value::from_iter(fields)
}

/// A field of a JSON object.
pub(crate) fn field(name: &str, value: Value) -> (r: (String, Value))
    ensures
        r.0@ == name@,
        r.1 == value,
{
    (name.to_string(), value)
}

/// A string, or null where there is none.
pub fn json_optional_str(text: &Option<String>) -> (r: Value)
    ensures
        json_view(r) == optional_str(text::optional_text(*text)),
{
    match text {
        Some(text) => json_str(text.as_str()),
        None => json_null(),
    }
}

/// A number, or null where there is none.
pub fn json_optional_number(n: Option<usize>) -> (r: Value)
    ensures
        json_view(r) == optional_number(
            match n {
                Some(n) => Some(n as nat),
                None => None,
            },
        ),
{
    match n {
        Some(n) => json_number(n),
        None => json_null(),
    }
}

/// An array of strings.
pub fn json_strings(texts: &Vec<String>) -> (r: Value)
    ensures
        json_view(r) == JsonView::Array(texts@.map_values(|text: String| JsonView::Str(text@))),
{
    let mut items: Vec<Value> = Vec::new();
    let mut i: usize = 0;
    while i < texts.len()
        invariant
            i <= texts@.len(),
            items@.len() == i,
            forall|j: int|
                0 <= j < i ==> json_view(#[trigger] items@[j]) == JsonView::Str(texts@[j]@),
        decreases texts@.len() - i,
    {
        items.push(json_str(texts[i].as_str()));
        i += 1;
    }
    assert(items@.map_values(|item: Value| json_view(item)) == texts@.map_values(
        |text: String| JsonView::Str(text@),
    ));
    json_array(items)
}

} // verus!
