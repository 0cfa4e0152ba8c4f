//! The package manifest (`package.json`) of a new project: its JSON value as
//! plain data, setting a field of it, and renaming the package.
use vstd::prelude::*;

use serde_json::{Number, Value};

use crate::text::{
    compare_text, lemma_text_lt_irreflexive, lemma_text_lt_total, lemma_text_lt_transitive, text_lt,
    Order,
};

verus! {

// ─── JSON values ───

#[verifier::external_type_specification]
#[verifier::external_body]
pub struct ExNumber(Number);

/// A JSON number as it was read, together with the text it is written as.
#[derive(Debug)]
pub struct JsonNumber {
    text: String,
    number: Number,
}

impl View for JsonNumber {
    type V = Seq<char>;

    /// The text the number is written as.
    closed spec fn view(&self) -> Seq<char> {
        self.text@
    }
}

/// A JSON value; an object is kept as its entries in the order of their keys.
#[derive(Debug)]
pub enum JsonValue {
    Null,
    Bool(bool),
    Number(JsonNumber),
    Str(String),
    Array(Vec<JsonValue>),
    Object(Vec<(String, JsonValue)>),
}

/// The mathematical content of a [`JsonValue`].
pub enum JsonModel {
    Null,
    Bool(bool),
    Number(Seq<char>),
    Str(Seq<char>),
    Array(Seq<JsonModel>),
    Object(Seq<(Seq<char>, JsonModel)>),
}

/// The content of a JSON value.
pub open spec fn json_model(v: JsonValue) -> JsonModel
    decreases v,
{
    match v {
        JsonValue::Null => JsonModel::Null,
        JsonValue::Bool(b) => JsonModel::Bool(b),
        JsonValue::Number(n) => JsonModel::Number(n@),
        JsonValue::Str(s) => JsonModel::Str(s@),
        JsonValue::Array(items) => JsonModel::Array(items_model(items@)),
        JsonValue::Object(entries) => JsonModel::Object(entries_model(entries@)),
    }
}

/// The contents of a list of JSON values.
pub open spec fn items_model(s: Seq<JsonValue>) -> Seq<JsonModel>
    decreases s,
{
    if s.len() == 0 {
        Seq::empty()
    } else {
        items_model(s.drop_last()).push(json_model(s.last()))
    }
}

/// The contents of the entries of a JSON object.
pub open spec fn entries_model(s: Seq<(String, JsonValue)>) -> Seq<(Seq<char>, JsonModel)>
    decreases s,
{
    if s.len() == 0 {
        Seq::empty()
    } else {
        entries_model(s.drop_last()).push((s.last().0@, json_model(s.last().1)))
    }
}

impl View for JsonValue {
    type V = JsonModel;

    open spec fn view(&self) -> JsonModel {
        json_model(*self)
    }
}

/// `entries_model` entry by entry.
pub proof fn lemma_entries_model(s: Seq<(String, JsonValue)>)
    ensures
        entries_model(s).len() == s.len(),
        forall|j: int| 0 <= j < s.len() ==> #[trigger] entries_model(s)[j] == (s[j].0@, json_model(s[j].1)),
    decreases s.len(),
{
    if s.len() > 0 {
        lemma_entries_model(s.drop_last());
        assert forall|j: int| 0 <= j < s.len() implies #[trigger] entries_model(s)[j] == (
            s[j].0@,
            json_model(s[j].1),
        ) by {
            if j < s.len() - 1 {
                assert(s.drop_last()[j] == s[j]);
            }
        }
    }
}

// ─── Setting a field ───

/// The entries `es` with `key` set to `value`: walking the entries in order,
/// the first entry of that key is replaced, or else the new entry goes before
/// the first greater key (the place it takes in a map sorted by key).
pub open spec fn entries_insert(
    es: Seq<(Seq<char>, JsonModel)>,
    key: Seq<char>,
    value: JsonModel,
) -> Seq<(Seq<char>, JsonModel)>
    decreases es.len(),
{
    if es.len() == 0 {
        seq![(key, value)]
    } else if es[0].0 == key {
        seq![(key, value)] + es.drop_first()
    } else if text_lt(key, es[0].0) {
        seq![(key, value)] + es
    } else {
        seq![es[0]] + entries_insert(es.drop_first(), key, value)
    }
}

/// `v` with field `key` set to `value` when `v` is an object; any other value
/// is left as it is.
pub open spec fn json_set_field(v: JsonModel, key: Seq<char>, value: JsonModel) -> JsonModel {
    match v {
        JsonModel::Object(es) => JsonModel::Object(entries_insert(es, key, value)),
        _ => v,
    }
}

/// The value of the first entry of `es` with key `key`.
pub open spec fn field_of(es: Seq<(Seq<char>, JsonModel)>, key: Seq<char>) -> Option<JsonModel>
    decreases es.len(),
{
    if es.len() == 0 {
        None
    } else if es[0].0 == key {
        Some(es[0].1)
    } else {
        field_of(es.drop_first(), key)
    }
}

/// `entries_insert` at the position found by a scan: every key before `i` is
/// below `key`, and the key at `i` (if any) is not.
proof fn lemma_entries_insert_at(
    es: Seq<(Seq<char>, JsonModel)>,
    key: Seq<char>,
    value: JsonModel,
    i: int,
)
    requires
        0 <= i <= es.len(),
        forall|j: int| 0 <= j < i ==> text_lt(#[trigger] es[j].0, key),
        i < es.len() ==> !text_lt(es[i].0, key),
    ensures
        i < es.len() && es[i].0 == key ==> entries_insert(es, key, value) == es.update(
            i,
            (key, value),
        ),
        !(i < es.len() && es[i].0 == key) ==> entries_insert(es, key, value) == es.insert(
            i,
            (key, value),
        ),
    decreases i,
{
    if i == 0 {
        if es.len() > 0 && es[0].0 != key {
            crate::text::lemma_text_lt_total(es[0].0, key);
            assert(seq![(key, value)] + es =~= es.insert(0, (key, value)));
        } else if es.len() > 0 {
            assert(seq![(key, value)] + es.drop_first() =~= es.update(0, (key, value)));
        } else {
            assert(seq![(key, value)] =~= es.insert(0, (key, value)));
        }
    } else {
        let rest = es.drop_first();
        assert forall|j: int| 0 <= j < i - 1 implies text_lt(#[trigger] rest[j].0, key) by {
            assert(rest[j] == es[j + 1]);
        }
        lemma_entries_insert_at(rest, key, value, i - 1);
        assert(text_lt(es[0].0, key));
        lemma_text_lt_irreflexive(key);
        crate::text::lemma_text_lt_total(es[0].0, key);
        if i < es.len() && es[i].0 == key {
            assert(seq![es[0]] + rest.update(i - 1, (key, value)) =~= es.update(i, (key, value)));
        } else {
            assert(seq![es[0]] + rest.insert(i - 1, (key, value)) =~= es.insert(i, (key, value)));
        }
    }
}

/// Where `key` belongs among `entries`: the first position whose key is not
/// below `key`, and whether the key found there is `key` itself.
fn key_position(entries: &Vec<(String, JsonValue)>, key: &str) -> (r: (usize, bool))
    ensures
        r.0 <= entries.len(),
        forall|j: int| 0 <= j < r.0 ==> text_lt(#[trigger] entries@[j].0@, key@),
        r.1 <==> r.0 < entries.len() && entries@[r.0 as int].0@ == key@,
        r.0 < entries.len() ==> !text_lt(entries@[r.0 as int].0@, key@),
{
    let n = entries.len();
    let mut i: usize = 0;
    while i < n
        invariant
            n == entries.len(),
            i <= n,
            forall|j: int| 0 <= j < i ==> text_lt(#[trigger] entries@[j].0@, key@),
        decreases n - i,
    {
        match compare_text(entries[i].0.as_str(), key) {
            Order::Less => {
                i = i + 1;
            },
            Order::Equal => {
                proof {
                    lemma_text_lt_irreflexive(key@);
                }
                return (i, true);
            },
            Order::Greater => {
                proof {
                    crate::text::lemma_text_lt_total(entries@[i as int].0@, key@);
                }
                return (i, false);
            },
        }
    }
    (i, false)
}

/// Sets field `key` of `v` to `value` (when `v` is an object).
pub fn set_field(v: JsonValue, key: &str, value: JsonValue) -> (r: JsonValue)
    ensures
        r@ == json_set_field(v@, key@, value@),
{
    match v {
        JsonValue::Object(mut entries) => {
            let ghost es = entries_model(entries@);
            proof {
                lemma_entries_model(entries@);
            }
            let (i, equal) = key_position(&entries, key);
            let n = entries.len();
            proof {
                assert forall|j: int| 0 <= j < i implies text_lt(#[trigger] es[j].0, key@) by {
                    assert(es[j] == (entries@[j].0@, json_model(entries@[j].1)));
                }
                if i < n {
                    assert(es[i as int] == (entries@[i as int].0@, json_model(entries@[i as int].1)));
                }
                lemma_entries_insert_at(es, key@, value@, i as int);
            }
            let ghost old_entries = entries@;
            let entry = (key.to_owned(), value);
            if equal {
                entries.set(i, entry);
            } else {
                entries.insert(i, entry);
            }
            proof {
                lemma_entries_model(entries@);
                let want = entries_insert(es, key@, json_model(entry.1));
                assert(entries_model(entries@) =~= want) by {
                    if equal {
                        assert forall|j: int| 0 <= j < want.len() implies entries_model(entries@)[j] == want[j] by {
                            if j != i {
                                assert(entries@[j] == old_entries[j]);
                            }
                        }
                    } else {
                        assert forall|j: int| 0 <= j < want.len() implies entries_model(entries@)[j] == want[j] by {
                            if j < i {
                                assert(entries@[j] == old_entries[j]);
                            } else if j > i {
                                assert(entries@[j] == old_entries[j - 1]);
                            }
                        }
                    }
                }
            }
            JsonValue::Object(entries)
        },
        other => other,
    }
}

/// The keys of `es` are in strictly increasing order, so no key occurs twice.
pub open spec fn keys_sorted(es: Seq<(Seq<char>, JsonModel)>) -> bool {
    forall|i: int, j: int| 0 <= i < j < es.len() ==> text_lt(#[trigger] es[i].0, #[trigger] es[j].0)
}

/// The number of leading entries of `es` whose key is below `key`.
spec fn insert_position(es: Seq<(Seq<char>, JsonModel)>, key: Seq<char>) -> int
    decreases es.len(),
{
    if es.len() > 0 && text_lt(es[0].0, key) {
        1 + insert_position(es.drop_first(), key)
    } else {
        0
    }
}

proof fn lemma_insert_position(es: Seq<(Seq<char>, JsonModel)>, key: Seq<char>)
    ensures
        0 <= insert_position(es, key) <= es.len(),
        forall|j: int| 0 <= j < insert_position(es, key) ==> text_lt(#[trigger] es[j].0, key),
        insert_position(es, key) < es.len() ==> !text_lt(es[insert_position(es, key)].0, key),
    decreases es.len(),
{
    if es.len() > 0 && text_lt(es[0].0, key) {
        let rest = es.drop_first();
        lemma_insert_position(rest, key);
        assert forall|j: int| 0 <= j < insert_position(es, key) implies text_lt(#[trigger] es[j].0, key) by {
            if j > 0 {
                assert(es[j] == rest[j - 1]);
            }
        }
        if insert_position(es, key) < es.len() {
            assert(es[insert_position(es, key)] == rest[insert_position(rest, key)]);
        }
    }
}

/// Setting a field of an object with sorted keys keeps its keys sorted.
proof fn lemma_entries_insert_sorted(es: Seq<(Seq<char>, JsonModel)>, key: Seq<char>, value: JsonModel)
    requires
        keys_sorted(es),
    ensures
        keys_sorted(entries_insert(es, key, value)),
{
    lemma_insert_position(es, key);
    let i = insert_position(es, key);
    lemma_entries_insert_at(es, key, value, i);
    let r = entries_insert(es, key, value);
    if i < es.len() && es[i].0 == key {
        assert forall|a: int, b: int| 0 <= a < b < r.len() implies text_lt(#[trigger] r[a].0, #[trigger] r[b].0) by {
            assert(r[a].0 == es[a].0);
            assert(r[b].0 == es[b].0);
        }
    } else {
        if i < es.len() {
            lemma_text_lt_total(es[i].0, key);
        }
        assert forall|a: int, b: int| 0 <= a < b < r.len() implies text_lt(#[trigger] r[a].0, #[trigger] r[b].0) by {
            if b < i {
                assert(r[a] == es[a] && r[b] == es[b]);
            } else if b == i {
                assert(r[a] == es[a] && r[b].0 == key);
            } else if a < i {
                assert(r[a] == es[a] && r[b] == es[b - 1]);
                assert(text_lt(es[a].0, key));
                lemma_text_lt_total(es[i].0, key);
                if b - 1 > i {
                    lemma_text_lt_transitive(key, es[i].0, es[b - 1].0);
                }
                lemma_text_lt_transitive(es[a].0, key, es[b - 1].0);
            } else if a == i {
                assert(r[a].0 == key && r[b] == es[b - 1]);
                if b - 1 > i {
                    lemma_text_lt_transitive(key, es[i].0, es[b - 1].0);
                }
            } else {
                assert(r[a] == es[a - 1] && r[b] == es[b - 1]);
            }
        }
    }
}

/// Setting a field gives it the new value and keeps the first value of every
/// other key; a value that is not an object is left as it is. An object whose
/// keys are sorted keeps them sorted, so there the first entry of a key is its
/// only one.
pub proof fn lemma_set_field(v: JsonModel, key: Seq<char>, value: JsonModel, other: Seq<char>)
    ensures
        v matches JsonModel::Object(es) && keys_sorted(es) ==> (json_set_field(v, key, value) matches JsonModel::Object(
            rs,
        ) && keys_sorted(rs)),
        v is Object ==> (json_set_field(v, key, value) matches JsonModel::Object(es) && field_of(
            es,
            key,
        ) == Some(value)),
        v is Object && other != key ==> (json_set_field(v, key, value) matches JsonModel::Object(
            es,
        ) && field_of(es, other) == field_of(v->Object_0, other)),
        !(v is Object) ==> json_set_field(v, key, value) == v,
{
    if let JsonModel::Object(es) = v {
        lemma_entries_insert_fields(es, key, value, other);
        if keys_sorted(es) {
            lemma_entries_insert_sorted(es, key, value);
        }
    }
}

proof fn lemma_entries_insert_fields(
    es: Seq<(Seq<char>, JsonModel)>,
    key: Seq<char>,
    value: JsonModel,
    other: Seq<char>,
)
    ensures
        field_of(entries_insert(es, key, value), key) == Some(value),
        other != key ==> field_of(entries_insert(es, key, value), other) == field_of(es, other),
    decreases es.len(),
{
    let r = entries_insert(es, key, value);
    if es.len() == 0 {
        assert(r.drop_first() =~= Seq::<(Seq<char>, JsonModel)>::empty());
        assert(r[0] == (key, value));
        assert(field_of(r.drop_first(), other) == None::<JsonModel>);
    } else if es[0].0 == key {
        assert(r.drop_first() =~= es.drop_first());
        assert(r[0] == (key, value));
    } else if text_lt(key, es[0].0) {
        assert(r.drop_first() =~= es);
        assert(r[0] == (key, value));
    } else {
        lemma_entries_insert_fields(es.drop_first(), key, value, other);
        assert(r.drop_first() =~= entries_insert(es.drop_first(), key, value));
        assert(r[0] == es[0]);
    }
}

// ─── Reading and printing JSON ───

#[verifier::external_type_specification]
#[verifier::external_body]
pub struct ExJsonValue(Value);

/// What `serde_json::from_str::<serde_json::Value>` reads from `text`, as the
/// content of a [`JsonValue`] (`None` when it rejects the text).
pub uninterp spec fn json_parse_model(text: Seq<char>) -> Option<JsonModel>;

/// What `serde_json::to_string_pretty` prints for the JSON value whose
/// content is `value` (a number is printed as the text it holds).
pub uninterp spec fn json_pretty_text(value: JsonModel) -> Seq<char>;

/// Converts a `serde_json::Value` into a [`JsonValue`], variant for variant:
/// a number is kept together with its `Display` text, an object becomes its
/// entries in the map's order. Nothing is stated of it alone; [`parse_json`]
/// states what the reading gives.
#[verifier::external_body]
fn json_from_value(value: Value) -> JsonValue {
    match value {
        Value::Null => JsonValue::Null,
        Value::Bool(b) => JsonValue::Bool(b),
        Value::Number(n) => JsonValue::Number(JsonNumber { text: n.to_string(), number: n }),
        Value::String(s) => JsonValue::Str(s),
        Value::Array(items) => JsonValue::Array(items.into_iter().map(json_from_value).collect()),
        Value::Object(map) => JsonValue::Object(
            map.into_iter().map(|(k, v)| (k, json_from_value(v))).collect(),
        ),
    }
}

/// Converts a [`JsonValue`] back into a `serde_json::Value`, variant for
/// variant, each number as the `serde_json::Number` it holds. Nothing is
/// stated of it alone; [`print_json_pretty`] states what the printing gives.
#[verifier::external_body]
fn json_to_value(value: &JsonValue) -> Value {
    match value {
        JsonValue::Null => Value::Null,
        JsonValue::Bool(b) => Value::Bool(*b),
        JsonValue::Number(n) => Value::Number(n.number.clone()),
        JsonValue::Str(s) => Value::String(s.clone()),
        JsonValue::Array(items) => Value::Array(items.iter().map(json_to_value).collect()),
        JsonValue::Object(es) => Value::Object(
            es.iter().map(|(k, v)| (k.clone(), json_to_value(v))).collect::<serde_json::Map<_, _>>(),
        ),
    }
}

/// Reads `text` with `serde_json::from_str::<serde_json::Value>` and converts
/// the value. Claimed: it succeeds exactly when `json_parse_model` gives a
/// content, and the result has that content, which is a function of the text
/// alone (a number's text is `Number`'s `Display`).
#[verifier::external_body]
fn parse_json(text: &str) -> (r: Option<JsonValue>)
    ensures
        r is Some <==> json_parse_model(text@) is Some,
        r matches Some(v) ==> v@ == json_parse_model(text@)->0,
{
    serde_json::from_str::<Value>(text).ok().map(json_from_value)
}

/// Converts `value` and prints it with `serde_json::to_string_pretty`.
/// Claimed: the text is what `json_pretty_text` names for the content of
/// `value` (a function of the content alone: serde_json writes a number with
/// the same formatters as `Number`'s `Display`). Printing a
/// `serde_json::Value` does not fail, so the error branch is never taken.
#[verifier::external_body]
fn print_json_pretty(value: &JsonValue) -> (s: String)
    ensures
        s@ == json_pretty_text(value@),
{
    serde_json::to_string_pretty(&json_to_value(value)).unwrap_or_default()
}

// ─── Renaming the package ───

/// The manifest is not JSON.
#[derive(Debug, Clone, Copy, PartialEq, Eq, Structural)]
pub enum PackageJsonError {
    Parse,
}

/// The manifest `content` with its `name` field set to `project_name` (when
/// it is an object), pretty-printed; `None` when it is not JSON.
pub open spec fn renamed_manifest(content: Seq<char>, project_name: Seq<char>) -> Option<Seq<char>> {
    match json_parse_model(content) {
        Some(m) => Some(json_pretty_text(json_set_field(m, "name"@, JsonModel::Str(project_name)))),
        None => None,
    }
}

/// The package manifest `content` with its `name` field set to
/// `project_name` when the manifest is a JSON object, pretty-printed.
pub fn rename_package(content: &str, project_name: &str) -> (r: Result<String, PackageJsonError>)
    ensures
        match renamed_manifest(content@, project_name@) {
            Some(t) => r matches Ok(s) && s@ == t,
            None => r == Err::<String, PackageJsonError>(PackageJsonError::Parse),
        },
{
    match parse_json(content) {
        None => Err(PackageJsonError::Parse),
        Some(value) => {
            let name = JsonValue::Str(project_name.to_owned());
            let renamed = set_field(value, "name", name);
            Ok(print_json_pretty(&renamed))
        },
    }
}

} // verus!
