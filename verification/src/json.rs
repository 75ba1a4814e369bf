//! Reading fields of a JSON text (the replies of the Python bridge, of the
//! watchers and of the Telegram bot API are JSON objects).
use vstd::prelude::*;

verus! {

/// What a top-level field of a JSON object holds, as far as the panel reads it.
#[derive(Debug)]
pub enum JsonField {
    /// The text is not an object with that key.
    Missing,
    /// A string.
    Str(String),
    /// A boolean.
    Bool(bool),
    /// A number, with its value when it is an integer that fits in `u64`
    /// (`Number::as_u64`) and when it fits in `i64` (`Number::as_i64`).
    Number(Option<u64>, Option<i64>),
    /// Anything else (null, array, object).
    Other,
}

/// The character-level content of a [`JsonField`].
pub enum JsonFieldView {
    Missing,
    Str(Seq<char>),
    Bool(bool),
    Number(Option<u64>, Option<i64>),
    Other,
}

impl View for JsonField {
    type V = JsonFieldView;

    open spec fn view(&self) -> JsonFieldView {
        match self {
            JsonField::Missing => JsonFieldView::Missing,
            JsonField::Str(s) => JsonFieldView::Str(s@),
            JsonField::Bool(b) => JsonFieldView::Bool(*b),
            JsonField::Number(u, i) => JsonFieldView::Number(*u, *i),
            JsonField::Other => JsonFieldView::Other,
        }
    }
}

/// The view of an optional field.
pub open spec fn opt_field_view(f: Option<JsonField>) -> Option<JsonFieldView> {
    match f {
        Some(x) => Some(x@),
        None => None,
    }
}

/// What `serde_json` reads for field `key` of the JSON text `text`: `None`
/// when the text is not JSON at all.
pub uninterp spec fn spec_json_field(text: Seq<char>, key: Seq<char>) -> Option<JsonFieldView>;

/// Parses `text` with `serde_json::from_str::<serde_json::Value>` and reads
/// field `key` with `Value::get`, telling the value's kind apart
/// (`Number::as_u64` and `Number::as_i64` for numbers). `None` when the text does not parse; the
/// result is named by `spec_json_field`.
#[verifier::external_body]
pub(crate) fn json_field(text: &str, key: &str) -> (r: Option<JsonField>)
    ensures
        opt_field_view(r) == spec_json_field(text@, key@),
{
    match serde_json::from_str::<serde_json::Value>(text) {
        Err(_) => None,
        Ok(v) => Some(match v.get(key) {
            None => JsonField::Missing,
            Some(serde_json::Value::String(s)) => JsonField::Str(s.clone()),
            Some(serde_json::Value::Bool(b)) => JsonField::Bool(*b),
            Some(serde_json::Value::Number(n)) => JsonField::Number(n.as_u64(), n.as_i64()),
            Some(_) => JsonField::Other,
        }),
    }
}

/// What `serde_json` reads for the array field `key` of the JSON text `text`:
/// each element written back as JSON text, in order; `None` when the text is
/// not JSON or the field is missing or not an array.
pub uninterp spec fn spec_json_array_items(text: Seq<char>, key: Seq<char>) -> Option<Seq<Seq<char>>>;

/// Parses `text` with `serde_json::from_str::<serde_json::Value>`, takes field
/// `key` with `Value::get` and `Value::as_array`, and writes each element back
/// with `Value::to_string`; the result is named by `spec_json_array_items`.
#[verifier::external_body]
pub(crate) fn json_array_items(text: &str, key: &str) -> (r: Option<Vec<String>>)
    ensures
        match r {
            Some(v) => spec_json_array_items(text@, key@) == Some(crate::lexorder::views(v@)),
            None => spec_json_array_items(text@, key@) is None,
        },
{
    let v = serde_json::from_str::<serde_json::Value>(text).ok()?;
    let items = v.get(key)?.as_array()?;
    Some(items.iter().map(serde_json::Value::to_string).collect())
}

/// The string a field holds, if it holds one.
pub open spec fn str_of(f: Option<JsonFieldView>) -> Option<Seq<char>> {
    match f {
        Some(JsonFieldView::Str(s)) => Some(s),
        _ => None,
    }
}

/// The boolean a field holds, `false` when it holds none.
pub open spec fn bool_or_false(f: Option<JsonFieldView>) -> bool {
    match f {
        Some(JsonFieldView::Bool(b)) => b,
        _ => false,
    }
}

/// The `u64` a field holds, if it holds one.
pub open spec fn u64_of(f: Option<JsonFieldView>) -> Option<u64> {
    match f {
        Some(JsonFieldView::Number(n, _)) => n,
        _ => None,
    }
}

/// The `i64` a field holds, if it holds one.
pub open spec fn i64_of(f: Option<JsonFieldView>) -> Option<i64> {
    match f {
        Some(JsonFieldView::Number(_, n)) => n,
        _ => None,
    }
}

/// The string a field holds.
pub fn field_str(f: &Option<JsonField>) -> (r: Option<String>)
    ensures
        match r {
            Some(s) => str_of(opt_field_view(*f)) == Some(s@),
            None => str_of(opt_field_view(*f)) is None,
        },
{
    match f {
        Some(JsonField::Str(s)) => Some(s.clone()),
        _ => None,
    }
}

/// The boolean a field holds, `false` when it holds none.
pub fn field_bool(f: &Option<JsonField>) -> (r: bool)
    ensures
        r == bool_or_false(opt_field_view(*f)),
{
    match f {
        Some(JsonField::Bool(b)) => *b,
        _ => false,
    }
}

/// The `u64` a field holds.
pub fn field_u64(f: &Option<JsonField>) -> (r: Option<u64>)
    ensures
        r == u64_of(opt_field_view(*f)),
{
    match f {
        Some(JsonField::Number(n, _)) => *n,
        _ => None,
    }
}

/// The `i64` a field holds.
pub fn field_i64(f: &Option<JsonField>) -> (r: Option<i64>)
    ensures
        r == i64_of(opt_field_view(*f)),
{
    match f {
        Some(JsonField::Number(_, n)) => *n,
        _ => None,
    }
}

/// What `serde_json` reads for field `key` of the JSON text `text`, written
/// back as JSON text; `None` when the text is not JSON or has no such field.
pub uninterp spec fn spec_json_field_text(text: Seq<char>, key: Seq<char>) -> Option<Seq<char>>;

/// Parses `text` with `serde_json::from_str::<serde_json::Value>`, takes field
/// `key` with `Value::get` and writes it back with `Value::to_string`; the
/// result is named by `spec_json_field_text`.
#[verifier::external_body]
pub(crate) fn json_field_text(text: &str, key: &str) -> (r: Option<String>)
    ensures
        match r {
            Some(s) => spec_json_field_text(text@, key@) == Some(s@),
            None => spec_json_field_text(text@, key@) is None,
        },
{
    let v = serde_json::from_str::<serde_json::Value>(text).ok()?;
    Some(v.get(key)?.to_string())
}

/// The elements of the array field `key` of a JSON text, each as JSON text
/// (none when there is no such array).
pub open spec fn array_items(text: Seq<char>, key: Seq<char>) -> Seq<Seq<char>> {
    match spec_json_array_items(text, key) {
        Some(items) => items,
        None => Seq::empty(),
    }
}

/// The elements of the array field `key` of a JSON text, each as JSON text.
pub fn array_items_of(text: &str, key: &str) -> (r: Vec<String>)
    ensures
        crate::lexorder::views(r@) == array_items(text@, key@),
{
    match json_array_items(text, key) {
        Some(v) => v,
        None => {
            let v: Vec<String> = Vec::new();
            assert(crate::lexorder::views(v@) =~= Seq::<Seq<char>>::empty());
            v
        },
    }
}

} // verus!
