//! JSON documents as the tool reads and edits them (`package.json`), with
//! object members in document order.
use crate::error::{subject_error, CliError, ErrorKind};
use crate::text::str_equal;
use vstd::prelude::*;

verus! {

#[derive(Debug, PartialEq)]
pub enum JsonValue {
    Null,
    Bool(bool),
    /// A number, kept as its JSON text.
    Number(String),
    Str(String),
    Array(Vec<JsonValue>),
    /// The members of an object in document order.
    Object(Vec<(String, JsonValue)>),
}

/// The mathematical content of a JSON value.
pub enum JsonView {
    Null,
    Bool(bool),
    Number(Seq<char>),
    Str(Seq<char>),
    Array(Seq<JsonView>),
    Object(Seq<(Seq<char>, JsonView)>),
}

pub open spec fn json_view(v: JsonValue) -> JsonView
    decreases v, 0int,
{
    match v {
        JsonValue::Null => JsonView::Null,
        JsonValue::Bool(b) => JsonView::Bool(b),
        JsonValue::Number(n) => JsonView::Number(n@),
        JsonValue::Str(s) => JsonView::Str(s@),
        JsonValue::Array(items) => JsonView::Array(items_view(items@)),
        JsonValue::Object(entries) => JsonView::Object(entries_view(entries@)),
    }
}

pub open spec fn items_view(s: Seq<JsonValue>) -> Seq<JsonView>
    decreases s, s.len(),
{
    if s.len() == 0 {
        Seq::empty()
    } else {
        items_view(s.drop_last()).push(json_view(s.last()))
    }
}

pub open spec fn entries_view(s: Seq<(String, JsonValue)>) -> Seq<(Seq<char>, JsonView)>
    decreases s, s.len(),
{
    if s.len() == 0 {
        Seq::empty()
    } else {
        entries_view(s.drop_last()).push((s.last().0@, json_view(s.last().1)))
    }
}

impl View for JsonValue {
    type V = JsonView;

    open spec fn view(&self) -> JsonView {
        json_view(*self)
    }
}

pub proof fn lemma_entries_view_len(s: Seq<(String, JsonValue)>)
    ensures
        entries_view(s).len() == s.len(),
    decreases s.len(),
{
    if s.len() > 0 {
        lemma_entries_view_len(s.drop_last());
    }
}

pub proof fn lemma_entries_view_index(s: Seq<(String, JsonValue)>, i: int)
    requires
        0 <= i < s.len(),
    ensures
        entries_view(s)[i] == (s[i].0@, json_view(s[i].1)),
    decreases s.len(),
{
    lemma_entries_view_len(s.drop_last());
    if i < s.len() - 1 {
        lemma_entries_view_index(s.drop_last(), i);
    }
}

pub proof fn lemma_items_view_len(s: Seq<JsonValue>)
    ensures
        items_view(s).len() == s.len(),
    decreases s.len(),
{
    if s.len() > 0 {
        lemma_items_view_len(s.drop_last());
    }
}

pub proof fn lemma_items_view_index(s: Seq<JsonValue>, i: int)
    requires
        0 <= i < s.len(),
    ensures
        items_view(s)[i] == json_view(s[i]),
    decreases s.len(),
{
    lemma_items_view_len(s.drop_last());
    if i < s.len() - 1 {
        lemma_items_view_index(s.drop_last(), i);
    }
}

pub proof fn lemma_items_view_push(s: Seq<JsonValue>, x: JsonValue)
    ensures
        items_view(s.push(x)) == items_view(s).push(json_view(x)),
{
    assert(s.push(x).drop_last() =~= s);
}

/// Appends a member to object members.
pub fn push_member(es: &mut Vec<(String, JsonValue)>, key: &str, value: JsonValue)
    ensures
        entries_view(final(es)@) == entries_view(old(es)@).push((key@, json_view(value))),
{
    let ghost before = es@;
    let k = crate::text::string_from(key);
    let ghost e = (k, value);
    es.push((k, value));
    proof {
        lemma_entries_view_push(before, e);
    }
}

pub proof fn lemma_entries_view_push(s: Seq<(String, JsonValue)>, e: (String, JsonValue))
    ensures
        entries_view(s.push(e)) == entries_view(s).push((e.0@, json_view(e.1))),
{
    assert(s.push(e).drop_last() =~= s);
}

pub proof fn lemma_entries_view_update(s: Seq<(String, JsonValue)>, i: int, e: (String, JsonValue))
    requires
        0 <= i < s.len(),
    ensures
        entries_view(s.update(i, e)) == entries_view(s).update(i, (e.0@, json_view(e.1))),
{
    lemma_entries_view_len(s);
    lemma_entries_view_len(s.update(i, e));
    assert forall|j: int| 0 <= j < s.len() implies #[trigger] entries_view(s.update(i, e))[j]
        == entries_view(s).update(i, (e.0@, json_view(e.1)))[j] by {
        lemma_entries_view_index(s.update(i, e), j);
        lemma_entries_view_index(s, j);
    }
    assert(entries_view(s.update(i, e)) =~= entries_view(s).update(i, (e.0@, json_view(e.1))));
}

/// The index of the first member named `key` at or after `i`.
pub open spec fn key_index_from(es: Seq<(Seq<char>, JsonView)>, key: Seq<char>, i: int) -> Option<
    int,
>
    decreases es.len() - i,
{
    if i < 0 || i >= es.len() {
        None
    } else if es[i].0 == key {
        Some(i)
    } else {
        key_index_from(es, key, i + 1)
    }
}

pub proof fn lemma_key_index_from(es: Seq<(Seq<char>, JsonView)>, key: Seq<char>, i: int)
    requires
        0 <= i,
    ensures
        key_index_from(es, key, i) matches Some(k) ==> i <= k < es.len() && es[k].0 == key
            && forall|j: int| i <= j < k ==> es[j].0 != key,
        key_index_from(es, key, i) is None ==> forall|j: int| i <= j < es.len() ==> es[j].0 != key,
    decreases es.len() - i,
{
    if i < es.len() && es[i].0 != key {
        lemma_key_index_from(es, key, i + 1);
    }
}

/// The value of an object's first member named `key` (as `Value::get`; none
/// for a value that is not an object).
pub open spec fn member(v: JsonView, key: Seq<char>) -> Option<JsonView> {
    match v {
        JsonView::Object(es) => match key_index_from(es, key, 0) {
            Some(k) => Some(es[k].1),
            None => None,
        },
        _ => None,
    }
}

pub open spec fn string_value(v: Option<JsonView>) -> Option<Seq<char>> {
    match v {
        Some(JsonView::Str(s)) => Some(s),
        _ => None,
    }
}

/// Finds the first member named `key` among object members.
pub fn find_key(entries: &Vec<(String, JsonValue)>, key: &str) -> (r: Option<usize>)
    ensures
        r matches Some(k) ==> key_index_from(entries_view(entries@), key@, 0) == Some(k as int),
        r is None ==> key_index_from(entries_view(entries@), key@, 0) is None,
{
    let ghost ev = entries_view(entries@);
    proof {
        lemma_entries_view_len(entries@);
    }
    let mut i: usize = 0;
    while i < entries.len()
        invariant
            i <= entries.len(),
            ev == entries_view(entries@),
            ev.len() == entries@.len(),
            key_index_from(ev, key@, 0) == key_index_from(ev, key@, i as int),
        decreases entries.len() - i,
    {
        proof {
            lemma_entries_view_index(entries@, i as int);
        }
        if str_equal(entries[i].0.as_str(), key) {
            return Some(i);
        }
        i = i + 1;
    }
    None
}

impl JsonValue {
    /// The value of the first member named `key` (as `Value::get`).
    pub fn get(&self, key: &str) -> (r: Option<&JsonValue>)
        ensures
            r matches Some(x) ==> member(self@, key@) == Some(x@),
            r is None ==> member(self@, key@) is None,
    {
        match self {
            JsonValue::Object(entries) => {
                match find_key(entries, key) {
                    Some(k) => {
                        proof {
                            lemma_entries_view_len(entries@);
                            lemma_key_index_from(entries_view(entries@), key@, 0);
                            lemma_entries_view_index(entries@, k as int);
                        }
                        Some(&entries[k].1)
                    },
                    None => None,
                }
            },
            _ => None,
        }
    }

    pub fn as_object(&self) -> (r: Option<&Vec<(String, JsonValue)>>)
        ensures
            r matches Some(es) ==> self@ == JsonView::Object(entries_view(es@)),
            r is None ==> !(self@ is Object),
    {
        match self {
            JsonValue::Object(es) => Some(es),
            _ => None,
        }
    }

    pub fn as_array(&self) -> (r: Option<&Vec<JsonValue>>)
        ensures
            r matches Some(items) ==> self@ == JsonView::Array(items_view(items@)),
            r is None ==> !(self@ is Array),
    {
        match self {
            JsonValue::Array(items) => Some(items),
            _ => None,
        }
    }

    pub fn as_str(&self) -> (r: Option<&String>)
        ensures
            r matches Some(s) ==> self@ == JsonView::Str(s@),
            r is None ==> !(self@ is Str),
    {
        match self {
            JsonValue::Str(s) => Some(s),
            _ => None,
        }
    }
}

// ---------------------------------------------------------------------------
// JSON text, read and written by `serde_json`
// ---------------------------------------------------------------------------

#[verifier::external_type_specification]
#[verifier::external_body]
pub struct ExSerdeJsonValue(serde_json::Value);

/// What `serde_json::from_str::<serde_json::Value>` reads from a text, as a
/// JSON value with object members in the order `serde_json`'s map keeps them;
/// none where the text is not one JSON document.
pub uninterp spec fn json_text_parse(text: Seq<char>) -> Option<JsonView>;

/// What `serde_json::to_string_pretty` writes for a JSON value; none where one
/// of its number texts is not a JSON number.
pub uninterp spec fn json_text_render(v: JsonView) -> Option<Seq<char>>;

/// The library's form of a `serde_json::Value`, variant by variant (a number
/// as its `Display` text, an object's members in the map's order).
#[verifier::external_body]
fn from_serde(v: serde_json::Value) -> JsonValue {
    match v {
        serde_json::Value::Null => JsonValue::Null,
        serde_json::Value::Bool(b) => JsonValue::Bool(b),
        serde_json::Value::Number(n) => JsonValue::Number(n.to_string()),
        serde_json::Value::String(s) => JsonValue::Str(s),
        serde_json::Value::Array(a) => JsonValue::Array(a.into_iter().map(from_serde).collect()),
        serde_json::Value::Object(m) => JsonValue::Object(
            m.into_iter().map(|(k, x)| (k, from_serde(x))).collect(),
        ),
    }
}

/// The `serde_json::Value` of a library JSON value, variant by variant; none
/// where a number text does not read as a `serde_json::Number`.
#[verifier::external_body]
fn to_serde(v: &JsonValue) -> Option<serde_json::Value> {
    Some(
        match v {
            JsonValue::Null => serde_json::Value::Null,
            JsonValue::Bool(b) => serde_json::Value::Bool(*b),
            JsonValue::Number(n) => serde_json::Value::Number(n.parse().ok()?),
            JsonValue::Str(s) => serde_json::Value::String(s.clone()),
            JsonValue::Array(a) => serde_json::Value::Array(a.iter().map(to_serde).collect::<Option<_>>()?),
            JsonValue::Object(es) => serde_json::Value::Object(
                es.iter().map(|(k, x)| Some((k.clone(), to_serde(x)?))).collect::<Option<_>>()?,
            ),
        },
    )
}

/// Reads a JSON text with `serde_json::from_str` into a `serde_json::Value`
/// and converts it; the claim is only that the result is the named
/// `json_text_parse` of the text.
#[verifier::external_body]
pub(crate) fn parse_json_text(text: &str) -> (r: Option<JsonValue>)
    ensures
        r matches Some(v) ==> json_text_parse(text@) == Some(v@),
        r is None ==> json_text_parse(text@) is None,
{
    serde_json::from_str::<serde_json::Value>(text).ok().map(from_serde)
}

/// Converts a JSON value to a `serde_json::Value` and writes it with
/// `serde_json::to_string_pretty`; the claim is only that the result is the
/// named `json_text_render` of the value.
#[verifier::external_body]
pub(crate) fn render_json_text(v: &JsonValue) -> (r: Option<String>)
    ensures
        r matches Some(s) ==> json_text_render(v@) == Some(s@),
        r is None ==> json_text_render(v@) is None,
{
    serde_json::to_string_pretty(&to_serde(v)?).ok()
}

/// Reads a JSON document, the text found at `location`.
pub fn read_json_document(location: &str, contents: &str) -> (r: Result<JsonValue, CliError>)
    ensures
        r matches Ok(v) ==> json_text_parse(contents@) == Some(v@),
        r matches Err(e) ==> json_text_parse(contents@) is None && e@ == subject_error(
            ErrorKind::InvalidJson,
            location@,
        ),
{
    match parse_json_text(contents) {
        Some(v) => Ok(v),
        None => Err(CliError::about(ErrorKind::InvalidJson, location)),
    }
}

} // verus!
