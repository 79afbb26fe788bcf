use vstd::prelude::*;
use crate::text::decimal;

verus! {

/// A JSON value as serde_json holds it.  Its contents are given by `json_tree`.
#[verifier::external_type_specification]
#[verifier::external_body]
pub struct ExJsonValue(serde_json::Value);

/// serde_json derives `Clone` for `Value`: a clone is the same value.
pub assume_specification[ <serde_json::Value as Clone>::clone ](v: &serde_json::Value) -> (r:
    serde_json::Value)
    ensures
        r == *v,
;

/// A JSON value as a mathematical value: a number as the text serde_json writes
/// for it, an object as the map from its keys to their values.
pub enum JsonTree {
    Null,
    Bool(bool),
    Number(Seq<char>),
    Str(Seq<char>),
    Array(Seq<JsonTree>),
    Object(Map<Seq<char>, JsonTree>),
}

/// Whether at most `depth` levels of non-empty arrays and objects lie below `t`:
/// a scalar or an empty container is within any depth, a container with members
/// within `depth` when each member is within `depth - 1`.
pub open spec fn nests_within(t: JsonTree, depth: nat) -> bool
    decreases t,
{
    match t {
        JsonTree::Array(items) => items.len() == 0 || (depth >= 1 && forall|i: int|
            0 <= i < items.len() ==> nests_within(#[trigger] items[i], (depth - 1) as nat)),
        JsonTree::Object(m) => m.dom().is_empty() || (depth >= 1 && m.dom().finite() && forall|k: Seq<char>|
            m.dom().contains(k) ==> nests_within(#[trigger] m[k], (depth - 1) as nat)),
        _ => true,
    }
}

/// The compact JSON text serde_json writes for a value (object keys in
/// serde_json's order, which rests on the keys alone).
pub uninterp spec fn json_compact_text(t: JsonTree) -> Seq<char>;

/// What a serde_json value holds.
pub uninterp spec fn json_tree(v: serde_json::Value) -> JsonTree;

/// What a serde_json object map holds: its keys and their values.
pub uninterp spec fn json_map_tree(m: JsonObjectMap) -> Map<Seq<char>, JsonTree>;

/// A field value of a JSON report.
#[derive(Debug, Clone)]
pub enum JsonField {
    Text(String),
    Flag(bool),
    Count(u64),
    Texts(Vec<String>),
    Counts(Vec<u64>),
    Value(serde_json::Value),
    Values(Vec<serde_json::Value>),
}

/// A field value, as a mathematical value.
pub enum JsonVal {
    Text(Seq<char>),
    Flag(bool),
    Count(u64),
    Texts(Seq<Seq<char>>),
    Counts(Seq<u64>),
    Value(serde_json::Value),
    Values(Seq<serde_json::Value>),
}

impl JsonField {
    pub open spec fn view(&self) -> JsonVal {
        match self {
            JsonField::Text(s) => JsonVal::Text(s@),
            JsonField::Flag(b) => JsonVal::Flag(*b),
            JsonField::Count(n) => JsonVal::Count(*n),
            JsonField::Texts(v) => JsonVal::Texts(v@.map_values(|s: String| s@)),
            JsonField::Counts(v) => JsonVal::Counts(v@),
            JsonField::Value(v) => JsonVal::Value(*v),
            JsonField::Values(v) => JsonVal::Values(v@),
        }
    }
}

/// The fields of a report, as mathematical values.
pub open spec fn report_view(fields: Seq<(String, JsonField)>) -> Seq<(Seq<char>, JsonVal)> {
    fields.map_values(|p: (String, JsonField)| (p.0@, p.1.view()))
}

/// The JSON value of a report field: a text is a string, a flag a boolean, a
/// count a number, a list an array of those, and a JSON value itself.
pub open spec fn field_tree(f: JsonVal) -> JsonTree {
    match f {
        JsonVal::Text(s) => JsonTree::Str(s),
        JsonVal::Flag(b) => JsonTree::Bool(b),
        JsonVal::Count(n) => JsonTree::Number(decimal(n as nat)),
        JsonVal::Texts(ss) => JsonTree::Array(ss.map_values(|s: Seq<char>| JsonTree::Str(s))),
        JsonVal::Counts(ns) => JsonTree::Array(ns.map_values(|n: u64| JsonTree::Number(decimal(n as nat)))),
        JsonVal::Value(v) => json_tree(v),
        JsonVal::Values(vs) => JsonTree::Array(vs.map_values(|v: serde_json::Value| json_tree(v))),
    }
}

/// The object of a report: each field in turn sets its key, so a later field
/// replaces an earlier one of the same key.
pub open spec fn fields_tree(fields: Seq<(Seq<char>, JsonVal)>) -> Map<Seq<char>, JsonTree>
    decreases fields.len(),
{
    if fields.len() == 0 {
        Map::empty()
    } else {
        fields_tree(fields.drop_last()).insert(fields.last().0, field_tree(fields.last().1))
    }
}

/// A JSON object as serde_json holds it.
#[verifier::external_type_specification]
#[verifier::external_body]
#[verifier::reject_recursive_types(K)]
#[verifier::reject_recursive_types(V)]
pub struct ExJsonMap<K, V>(serde_json::Map<K, V>);

/// The map of a JSON object.
pub type JsonObjectMap = serde_json::Map<String, serde_json::Value>;

/// `serde_json::Map::new`: an empty object.
#[verifier::external_body]
fn json_map_new() -> (r: JsonObjectMap)
    ensures
        json_map_tree(r).dom() == Set::<Seq<char>>::empty(),
{
    serde_json::Map::new()
}

/// `serde_json::Map::insert`: sets a key of the object, replacing its value if
/// it had one.
#[verifier::external_body]
fn json_map_insert(map: &mut JsonObjectMap, key: String, value: serde_json::Value)
    ensures
        json_map_tree(*final(map)) == json_map_tree(*old(map)).insert(key@, json_tree(value)),
{
    map.insert(key, value);
}

/// `serde_json::Value::Object`: the object as a value.
#[verifier::external_body]
fn json_value_of_map(map: JsonObjectMap) -> (v: serde_json::Value)
    ensures
        json_tree(v) == JsonTree::Object(json_map_tree(map)),
{
    serde_json::Value::Object(map)
}

/// `serde_json::Value::from` on a `String`: a JSON string.
#[verifier::external_body]
fn json_from_text(s: &String) -> (v: serde_json::Value)
    ensures
        json_tree(v) == JsonTree::Str(s@),
{
    serde_json::Value::from(s.clone())
}

/// `serde_json::Value::from` on a `bool`: a JSON boolean.
#[verifier::external_body]
fn json_from_flag(b: bool) -> (v: serde_json::Value)
    ensures
        json_tree(v) == JsonTree::Bool(b),
{
    serde_json::Value::from(b)
}

/// `serde_json::Value::from` on a `u64`: a JSON number, written in decimal.
#[verifier::external_body]
fn json_from_count(n: u64) -> (v: serde_json::Value)
    ensures
        json_tree(v) == JsonTree::Number(decimal(n as nat)),
{
    serde_json::Value::from(n)
}

/// `serde_json::Value::from` on a `Vec<String>`: an array of JSON strings.
#[verifier::external_body]
fn json_from_texts(items: &Vec<String>) -> (v: serde_json::Value)
    ensures
        json_tree(v) == JsonTree::Array(items@.map_values(|s: String| JsonTree::Str(s@))),
{
    serde_json::Value::from(items.clone())
}

/// `serde_json::Value::from` on a `Vec<u64>`: an array of JSON numbers.
#[verifier::external_body]
fn json_from_counts(items: &Vec<u64>) -> (v: serde_json::Value)
    ensures
        json_tree(v) == JsonTree::Array(items@.map_values(|n: u64| JsonTree::Number(decimal(n as nat)))),
{
    serde_json::Value::from(items.clone())
}

/// `serde_json::Value::Array` on copies of the values: the array of them.
#[verifier::external_body]
fn json_array(items: &Vec<serde_json::Value>) -> (v: serde_json::Value)
    ensures
        json_tree(v) == JsonTree::Array(items@.map_values(|x: serde_json::Value| json_tree(x))),
{
    serde_json::Value::Array(items.clone())
}

/// The JSON value of a field.
fn json_value_of_field(field: &JsonField) -> (v: serde_json::Value)
    ensures
        json_tree(v) == field_tree(field.view()),
{
    match field {
        JsonField::Text(s) => json_from_text(s),
        JsonField::Flag(b) => json_from_flag(*b),
        JsonField::Count(n) => json_from_count(*n),
        JsonField::Texts(items) => {
            let v = json_from_texts(items);
            assert(items@.map_values(|s: String| JsonTree::Str(s@)) =~= items@.map_values(|s: String| s@).map_values(
                |s: Seq<char>| JsonTree::Str(s),
            ));
            v
        },
        JsonField::Counts(items) => json_from_counts(items),
        JsonField::Value(v) => v.clone(),
        JsonField::Values(items) => json_array(items),
    }
}

/// `serde_json::to_string` on a JSON value: its compact text.  Writing a `Value`
/// into memory cannot fail (its object keys are strings, and a `Vec` writer
/// reports no error), so there is always a text.
#[verifier::external_body]
pub(crate) fn json_to_string(v: &serde_json::Value) -> (r: Option<String>)
    ensures
        match r {
            Some(s) => s@ == json_compact_text(json_tree(*v)),
            None => false,
        },
{
    serde_json::to_string(v).ok()
}

/// A JSON object with these fields, in order (a later field replaces an earlier
/// one of the same key).
pub fn json_object(fields: &Vec<(String, JsonField)>) -> (v: serde_json::Value)
    ensures
        json_tree(v) == JsonTree::Object(fields_tree(report_view(fields@))),
{
    let mut map = json_map_new();
    assert(json_map_tree(map) =~= fields_tree(report_view(fields@).take(0)));
    let mut i: usize = 0;
    while i < fields.len()
        invariant
            i <= fields@.len(),
            json_map_tree(map) == fields_tree(report_view(fields@).take(i as int)),
        decreases fields@.len() - i,
    {
        let v = json_value_of_field(&fields[i].1);
        let key = fields[i].0.clone();
        proof {
            assert(report_view(fields@).take(i as int + 1).drop_last() =~= report_view(fields@).take(i as int));
        }
        json_map_insert(&mut map, key, v);
        i += 1;
    }
    proof {
        assert(report_view(fields@).take(fields@.len() as int) =~= report_view(fields@));
    }
    json_value_of_map(map)
}

} // verus!
