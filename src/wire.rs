use crate::codec::{
    content_value, request_value, text, unsigned, CONTENT_FORMAT, CONTENT_INSTANCE_TYPE, CONTENT_KEY,
    OP_READ, OP_WRITE, ORIGIN, REQUEST_TAG,
};
use crate::error::DAError;
use crate::json::{
    entries_view, items_view, lemma_entries_view, lemma_items_view, JsonNumber, JsonTree, JsonValue,
    NumberValue,
};
use serde_json::{Number, Value};
use vstd::prelude::*;

verus! {

broadcast use vstd::seq::axiom_seq_subrange_decreases;

#[verifier::external_type_specification]
#[verifier::external_body]
pub struct ExValue(serde_json::Value);

#[verifier::external_type_specification]
#[verifier::external_body]
pub struct ExNumber(serde_json::Number);

#[verifier::external_type_specification]
#[verifier::external_body]
pub struct ExJsonError(serde_json::Error);

/// Nesting depth up to which trees are read and written: serde_json's parser
/// refuses documents that nest deeper.
pub const MAX_DEPTH: usize = 128;

/// Whether `text` is a JSON document that serde_json accepts.
pub uninterp spec fn is_json_text(text: Seq<char>) -> bool;

/// The tree that serde_json parses the JSON document `text` into.
pub uninterp spec fn json_document(text: Seq<char>) -> JsonValue;

/// The tree that a serde_json `Value` holds. A mapping lists its entries in
/// the order in which its `Map` yields them; a floating-point number is
/// given by its shortest decimal text.
pub uninterp spec fn value_contents(v: Value) -> JsonValue;

/// The number that a serde_json `Number` holds, a floating-point number
/// given by its shortest decimal text.
pub uninterp spec fn number_contents(n: Number) -> NumberValue;

/// The entries of the serde_json `Map` collected from `entries`, in the
/// map's order: one entry per key, with the last value given for it.
pub uninterp spec fn map_entries(entries: Seq<(Seq<char>, JsonValue)>) -> Seq<(Seq<char>, JsonValue)>;

/// The compact JSON text that serde_json writes for a `Value` holding `v`.
pub uninterp spec fn json_text_of(v: JsonValue) -> Seq<char>;

/// Whether `s` is the text of a floating-point number that can be read and
/// written: a JSON document that is a number.
pub open spec fn float_text_valid(s: Seq<char>) -> bool {
    is_json_text(s) && json_document(s) is Number
}

/// Whether `v` nests no deeper than `depth` levels of arrays and mappings.
pub open spec fn nests_within(v: JsonValue, depth: nat) -> bool
    decreases depth, 0nat,
{
    match v {
        JsonValue::Array(items) => depth > 0 && all_nested(items, (depth - 1) as nat),
        JsonValue::Object(entries) => depth > 0 && all_nested_entries(entries, (depth - 1) as nat),
        _ => true,
    }
}

pub open spec fn all_nested(items: Seq<JsonValue>, depth: nat) -> bool
    decreases depth, items.len(),
{
    items.len() == 0 || (nests_within(items.last(), depth) && all_nested(items.drop_last(), depth))
}

pub open spec fn all_nested_entries(entries: Seq<(Seq<char>, JsonValue)>, depth: nat) -> bool
    decreases depth, entries.len(),
{
    entries.len() == 0 || (nests_within(entries.last().1, depth) && all_nested_entries(
        entries.drop_last(),
        depth,
    ))
}

/// Whether `v` can be written: it nests no deeper than `depth` and the text
/// of each floating-point number in it is valid.
pub open spec fn writable_within(v: JsonValue, depth: nat) -> bool
    decreases depth, 0nat,
{
    match v {
        JsonValue::Number(n) => n is Float ==> float_text_valid(n->Float_0),
        JsonValue::Array(items) => depth > 0 && all_writable(items, (depth - 1) as nat),
        JsonValue::Object(entries) => depth > 0 && all_writable_entries(entries, (depth - 1) as nat),
        _ => true,
    }
}

pub open spec fn all_writable(items: Seq<JsonValue>, depth: nat) -> bool
    decreases depth, items.len(),
{
    items.len() == 0 || (writable_within(items.last(), depth) && all_writable(items.drop_last(), depth))
}

pub open spec fn all_writable_entries(entries: Seq<(Seq<char>, JsonValue)>, depth: nat) -> bool
    decreases depth, entries.len(),
{
    entries.len() == 0 || (writable_within(entries.last().1, depth) && all_writable_entries(
        entries.drop_last(),
        depth,
    ))
}

proof fn lemma_all_nested(items: Seq<JsonValue>, depth: nat)
    requires
        all_nested(items, depth),
    ensures
        forall|k: int| 0 <= k < items.len() ==> nests_within(#[trigger] items[k], depth),
    decreases items.len(),
{
    if items.len() > 0 {
        lemma_all_nested(items.drop_last(), depth);
        assert forall|k: int| 0 <= k < items.len() implies nests_within(#[trigger] items[k], depth) by {
            if k < items.len() - 1 {
                assert(items[k] == items.drop_last()[k]);
            }
        }
    }
}

proof fn lemma_all_nested_entries(entries: Seq<(Seq<char>, JsonValue)>, depth: nat)
    requires
        all_nested_entries(entries, depth),
    ensures
        forall|k: int| 0 <= k < entries.len() ==> nests_within(#[trigger] entries[k].1, depth),
    decreases entries.len(),
{
    if entries.len() > 0 {
        lemma_all_nested_entries(entries.drop_last(), depth);
        assert forall|k: int| 0 <= k < entries.len() implies nests_within(#[trigger] entries[k].1, depth) by {
            if k < entries.len() - 1 {
                assert(entries[k] == entries.drop_last()[k]);
            }
        }
    }
}

proof fn lemma_all_writable(items: Seq<JsonValue>, depth: nat)
    requires
        all_writable(items, depth),
    ensures
        forall|k: int| 0 <= k < items.len() ==> writable_within(#[trigger] items[k], depth),
    decreases items.len(),
{
    if items.len() > 0 {
        lemma_all_writable(items.drop_last(), depth);
        assert forall|k: int| 0 <= k < items.len() implies writable_within(#[trigger] items[k], depth) by {
            if k < items.len() - 1 {
                assert(items[k] == items.drop_last()[k]);
            }
        }
    }
}

proof fn lemma_all_writable_entries(entries: Seq<(Seq<char>, JsonValue)>, depth: nat)
    requires
        all_writable_entries(entries, depth),
    ensures
        forall|k: int| 0 <= k < entries.len() ==> writable_within(#[trigger] entries[k].1, depth),
    decreases entries.len(),
{
    if entries.len() > 0 {
        lemma_all_writable_entries(entries.drop_last(), depth);
        assert forall|k: int| 0 <= k < entries.len() implies writable_within(#[trigger] entries[k].1, depth) by {
            if k < entries.len() - 1 {
                assert(entries[k] == entries.drop_last()[k]);
            }
        }
    }
}

/// The tree that serde_json holds after writing `v`: integers in the form
/// serde_json gives them, each floating-point number as its text parses, and
/// each mapping as its `Map` collects it.
pub open spec fn written(v: JsonValue) -> JsonValue
    decreases v,
{
    match v {
        JsonValue::Number(n) => match n {
            NumberValue::NegInt(i) => if i < 0 {
                v
            } else {
                JsonValue::Number(NumberValue::PosInt(i as u64))
            },
            NumberValue::Float(s) => json_document(s),
            NumberValue::PosInt(_) => v,
        },
        JsonValue::Array(items) => JsonValue::Array(written_items(items)),
        JsonValue::Object(entries) => JsonValue::Object(map_entries(written_entries(entries))),
        _ => v,
    }
}

pub open spec fn written_items(items: Seq<JsonValue>) -> Seq<JsonValue>
    decreases items,
{
    if items.len() == 0 {
        Seq::empty()
    } else {
        written_items(items.subrange(0, items.len() - 1)).push(written(items[items.len() - 1]))
    }
}

pub open spec fn written_entries(entries: Seq<(Seq<char>, JsonValue)>) -> Seq<(Seq<char>, JsonValue)>
    decreases entries,
{
    if entries.len() == 0 {
        Seq::empty()
    } else {
        let last = entries[entries.len() - 1];
        written_entries(entries.subrange(0, entries.len() - 1)).push((last.0, written(last.1)))
    }
}

proof fn lemma_written_items(items: Seq<JsonValue>)
    ensures
        written_items(items).len() == items.len(),
        forall|k: int| 0 <= k < items.len() ==> #[trigger] written_items(items)[k] == written(items[k]),
    decreases items.len(),
{
    if items.len() > 0 {
        lemma_written_items(items.subrange(0, items.len() - 1));
    }
}

proof fn lemma_written_entries(entries: Seq<(Seq<char>, JsonValue)>)
    ensures
        written_entries(entries).len() == entries.len(),
        forall|k: int|
            0 <= k < entries.len() ==> #[trigger] written_entries(entries)[k] == (
            entries[k].0,
            written(entries[k].1),
        ),
    decreases entries.len(),
{
    if entries.len() > 0 {
        lemma_written_entries(entries.subrange(0, entries.len() - 1));
    }
}

proof fn lemma_writable_push(entries: Seq<(Seq<char>, JsonValue)>, e: (Seq<char>, JsonValue), depth: nat)
    ensures
        all_writable_entries(entries.push(e), depth) == (writable_within(e.1, depth) && all_writable_entries(
            entries,
            depth,
        )),
{
    assert(entries.push(e).drop_last() =~= entries);
}

/// A request envelope can always be written when its payload, if any, can
/// be written a few levels below the depth limit.
pub proof fn lemma_request_writable(id: Seq<char>, target: Seq<char>, payload: Option<JsonValue>)
    requires
        payload matches Some(p) ==> writable_within(p, (MAX_DEPTH - 4) as nat),
    ensures
        writable_within(request_value(id, target, payload), MAX_DEPTH as nat),
{
    let d = MAX_DEPTH as nat;
    let e = (d - 2) as nat;
    let s0 = Seq::<(Seq<char>, JsonValue)>::empty();
    let s1 = s0.push(("fr"@, text(ORIGIN@)));
    let s2 = s1.push(("rqi"@, text(id)));
    lemma_writable_push(s0, ("fr"@, text(ORIGIN@)), e);
    lemma_writable_push(s1, ("rqi"@, text(id)), e);
    match payload {
        None => {
            let s3 = s2.push(("op"@, unsigned(OP_READ)));
            lemma_writable_push(s2, ("op"@, unsigned(OP_READ)), e);
            lemma_writable_push(s3, ("to"@, text(target)), e);
            let body = JsonValue::Object(s3.push(("to"@, text(target))));
            let req = request_value(id, target, payload);
            assert(req->Object_0[0].1->Object_0 =~= s3.push(("to"@, text(target))));
            assert(req->Object_0 =~= s0.push((REQUEST_TAG@, body)));
            assert(writable_within(body, (d - 1) as nat));
            lemma_writable_push(s0, (REQUEST_TAG@, body), (d - 1) as nat);
        },
        Some(p) => {
            let c0 = Seq::<(Seq<char>, JsonValue)>::empty();
            let c1 = c0.push(("con"@, p));
            lemma_writable_push(c0, ("con"@, p), (d - 4) as nat);
            lemma_writable_push(c1, ("cnf"@, text(CONTENT_FORMAT@)), (d - 4) as nat);
            let wrapped = (CONTENT_KEY@, content_value(p));
            lemma_writable_push(c0, wrapped, (d - 3) as nat);
            let s3 = s2.push(("op"@, unsigned(OP_WRITE)));
            let s4 = s3.push(("to"@, text(target)));
            let s5 = s4.push(("ty"@, unsigned(CONTENT_INSTANCE_TYPE)));
            lemma_writable_push(s2, ("op"@, unsigned(OP_WRITE)), e);
            lemma_writable_push(s3, ("to"@, text(target)), e);
            lemma_writable_push(s4, ("ty"@, unsigned(CONTENT_INSTANCE_TYPE)), e);
            lemma_writable_push(s5, ("pc"@, JsonValue::Object(c0.push(wrapped))), e);
            let body = JsonValue::Object(s5.push(("pc"@, JsonValue::Object(c0.push(wrapped)))));
            assert(content_value(p)->Object_0 =~= c1.push(("cnf"@, text(CONTENT_FORMAT@))));
            assert(writable_within(content_value(p), (d - 3) as nat));
            assert(writable_within(JsonValue::Object(c0.push(wrapped)), e));
            let req = request_value(id, target, payload);
            assert(req->Object_0[0].1->Object_0[5].1->Object_0 =~= c0.push(wrapped));
            assert(req->Object_0[0].1->Object_0 =~= s5.push(("pc"@, JsonValue::Object(c0.push(wrapped)))));
            assert(req->Object_0 =~= s0.push((REQUEST_TAG@, body)));
            assert(writable_within(body, (d - 1) as nat));
            lemma_writable_push(s0, (REQUEST_TAG@, body), (d - 1) as nat);
        },
    }
}

/// The trees held by a sequence of serde_json values.
pub open spec fn contents_of(values: Seq<Value>) -> Seq<JsonValue> {
    values.map_values(|v: Value| value_contents(v))
}

/// The entries held by a sequence of serde_json keys and values.
pub open spec fn entries_contents(entries: Seq<(String, Value)>) -> Seq<(Seq<char>, JsonValue)> {
    entries.map_values(|e: (String, Value)| (e.0@, value_contents(e.1)))
}

/// One level of a parsed document, its children still in serde_json's form.
enum Layer {
    Null,
    Bool(bool),
    Number(Number),
    Text(String),
    Array(Vec<Value>),
    Object(Vec<(String, Value)>),
}

/// Whether `layer` is the top level of the tree `c`.
spec fn layer_holds(layer: Layer, c: JsonValue) -> bool {
    match layer {
        Layer::Null => c == JsonValue::Null,
        Layer::Bool(b) => c == JsonValue::Bool(b),
        Layer::Number(n) => c == JsonValue::Number(number_contents(n)),
        Layer::Text(s) => c == JsonValue::Text(s@),
        Layer::Array(items) => c == JsonValue::Array(contents_of(items@)),
        Layer::Object(entries) => c == JsonValue::Object(entries_contents(entries@)),
    }
}

/// Relies on serde_json::from_str, which parses a JSON document into a
/// `Value`. The outcome depends on the text alone, and the parser refuses
/// documents that nest deeper than its recursion limit of 128.
#[verifier::external_body]
fn parse_document(text: &str) -> (r: Result<Value, serde_json::Error>)
    ensures
        r is Ok == is_json_text(text@),
        r matches Ok(v) ==> value_contents(v) == json_document(text@),
        r matches Ok(v) ==> nests_within(value_contents(v), MAX_DEPTH as nat),
{
    serde_json::from_str(text)
}

/// Relies on the variants of serde_json's `Value`: moves out the contents of
/// one level, the entries of a mapping in the order its `Map` yields them.
#[verifier::external_body]
fn open_layer(v: Value) -> (r: Layer)
    ensures
        layer_holds(r, value_contents(v)),
{
    match v {
        Value::Null => Layer::Null,
        Value::Bool(b) => Layer::Bool(b),
        Value::Number(n) => Layer::Number(n),
        Value::String(s) => Layer::Text(s),
        Value::Array(items) => Layer::Array(items),
        Value::Object(map) => Layer::Object(map.into_iter().collect()),
    }
}

/// Relies on serde_json's `Number::as_u64`: the value of a non-negative
/// integer.
#[verifier::external_body]
fn number_as_u64(n: &Number) -> (r: Option<u64>)
    ensures
        r == (match number_contents(*n) {
            NumberValue::PosInt(u) => Some(u),
            _ => None,
        }),
{
    n.as_u64()
}

/// Relies on serde_json's `Number::as_i64`: the value of an integer within
/// the range of `i64`.
#[verifier::external_body]
fn number_as_i64(n: &Number) -> (r: Option<i64>)
    ensures
        r == (match number_contents(*n) {
            NumberValue::PosInt(u) => if u <= i64::MAX {
                Some(u as i64)
            } else {
                None
            },
            NumberValue::NegInt(i) => Some(i),
            NumberValue::Float(_) => None,
        }),
{
    n.as_i64()
}

/// Relies on the `Display` of serde_json's `Number`: the shortest decimal
/// text of a floating-point number.
#[verifier::external_body]
fn number_text(n: &Number) -> (r: String)
    ensures
        number_contents(*n) matches NumberValue::Float(s) ==> r@ == s,
{
    n.to_string()
}

/// Relies on serde_json's `Value::Null`.
#[verifier::external_body]
fn value_null() -> (r: Value)
    ensures
        value_contents(r) == JsonValue::Null,
{
    Value::Null
}

/// Relies on serde_json's `Value::Bool`.
#[verifier::external_body]
fn value_bool(b: bool) -> (r: Value)
    ensures
        value_contents(r) == JsonValue::Bool(b),
{
    Value::Bool(b)
}

/// Relies on serde_json's `From<u64>` for `Value`: a non-negative integer.
#[verifier::external_body]
fn value_u64(u: u64) -> (r: Value)
    ensures
        value_contents(r) == JsonValue::Number(NumberValue::PosInt(u)),
{
    Value::from(u)
}

/// Relies on serde_json's `From<i64>` for `Value`, which keeps a negative
/// integer as such and makes any other one non-negative.
#[verifier::external_body]
fn value_i64(i: i64) -> (r: Value)
    ensures
        value_contents(r) == JsonValue::Number(if i < 0 {
            NumberValue::NegInt(i)
        } else {
            NumberValue::PosInt(i as u64)
        }),
{
    Value::from(i)
}

/// Relies on serde_json's `Value::Number`.
#[verifier::external_body]
fn value_number(n: Number) -> (r: Value)
    ensures
        value_contents(r) == JsonValue::Number(number_contents(n)),
{
    Value::Number(n)
}

/// Relies on serde_json's `Value::String`.
#[verifier::external_body]
fn value_text(s: String) -> (r: Value)
    ensures
        value_contents(r) == JsonValue::Text(s@),
{
    Value::String(s)
}

/// Relies on serde_json's `Value::Array`.
#[verifier::external_body]
fn value_array(items: Vec<Value>) -> (r: Value)
    ensures
        value_contents(r) == JsonValue::Array(contents_of(items@)),
{
    Value::Array(items)
}

/// Relies on serde_json's `Value::Object` and the `FromIterator` of its
/// `Map`, which keeps one entry per key, the last value given for it.
#[verifier::external_body]
fn value_object(entries: Vec<(String, Value)>) -> (r: Value)
    ensures
        value_contents(r) == JsonValue::Object(map_entries(entries_contents(entries@))),
{
    Value::Object(entries.into_iter().collect())
}

/// Relies on the `Display` of serde_json's `Value`: the compact JSON text.
#[verifier::external_body]
fn document_text(v: &Value) -> (r: String)
    ensures
        r@ == json_text_of(value_contents(*v)),
{
    v.to_string()
}

/// The library's form of a parsed number.
fn number_of(n: &Number) -> (r: JsonNumber)
    ensures
        r@ == number_contents(*n),
{
    match number_as_u64(n) {
        Some(u) => JsonNumber::PosInt(u),
        None => match number_as_i64(n) {
            Some(i) => JsonNumber::NegInt(i),
            None => JsonNumber::Float(number_text(n)),
        },
    }
}

/// The library's form of a parsed value; `None` only where it nests deeper
/// than `depth`.
fn tree_of(v: Value, depth: usize) -> (r: Option<JsonTree>)
    ensures
        nests_within(value_contents(v), depth as nat) ==> r is Some,
        r matches Some(t) ==> t@ == value_contents(v),
    decreases depth,
{
    let ghost c = value_contents(v);
    match open_layer(v) {
        Layer::Null => Some(JsonTree::Null),
        Layer::Bool(b) => Some(JsonTree::Bool(b)),
        Layer::Number(n) => Some(JsonTree::Number(number_of(&n))),
        Layer::Text(s) => Some(JsonTree::Text(s)),
        Layer::Array(values) => {
            if depth == 0 {
                return None;
            }
            let ghost orig = values@;
            proof {
                if nests_within(c, depth as nat) {
                    lemma_all_nested(contents_of(orig), (depth - 1) as nat);
                }
            }
            let mut values = values;
            let mut items: Vec<JsonTree> = Vec::new();
            while values.len() > 0
                invariant
                    depth > 0,
                    c == value_contents(v),
                    c == JsonValue::Array(contents_of(orig)),
                    items.len() + values.len() == orig.len(),
                    forall|k: int| 0 <= k < items.len() ==> #[trigger] items@[k]@ == value_contents(orig[k]),
                    forall|k: int| 0 <= k < values.len() ==> #[trigger] values@[k] == orig[items.len() + k],
                    nests_within(c, depth as nat) ==> forall|k: int|
                        0 <= k < orig.len() ==> nests_within(
                            #[trigger] contents_of(orig)[k],
                            (depth - 1) as nat,
                        ),
                decreases values.len(),
            {
                let ghost at = items.len() as int;
                let value = values.remove(0);
                assert(value == orig[at]);
                assert(contents_of(orig)[at] == value_contents(orig[at]));
                match tree_of(value, depth - 1) {
                    Some(item) => items.push(item),
                    None => return None,
                }
            }
            proof {
                lemma_items_view(items@);
                assert(items_view(items@) =~= contents_of(orig));
            }
            Some(JsonTree::Array(items))
        },
        Layer::Object(values) => {
            if depth == 0 {
                return None;
            }
            let ghost orig = values@;
            proof {
                if nests_within(c, depth as nat) {
                    lemma_all_nested_entries(entries_contents(orig), (depth - 1) as nat);
                }
            }
            let mut values = values;
            let mut entries: Vec<(String, JsonTree)> = Vec::new();
            while values.len() > 0
                invariant
                    depth > 0,
                    c == value_contents(v),
                    c == JsonValue::Object(entries_contents(orig)),
                    entries.len() + values.len() == orig.len(),
                    forall|k: int|
                        0 <= k < entries.len() ==> #[trigger] entries@[k].0@ == orig[k].0@
                            && entries@[k].1@ == value_contents(orig[k].1),
                    forall|k: int| 0 <= k < values.len() ==> #[trigger] values@[k] == orig[entries.len() + k],
                    nests_within(c, depth as nat) ==> forall|k: int|
                        0 <= k < orig.len() ==> nests_within(
                            #[trigger] entries_contents(orig)[k].1,
                            (depth - 1) as nat,
                        ),
                decreases values.len(),
            {
                let ghost at = entries.len() as int;
                let (key, value) = values.remove(0);
                assert(entries_contents(orig)[at].1 == value_contents(orig[at].1));
                match tree_of(value, depth - 1) {
                    Some(item) => entries.push((key, item)),
                    None => return None,
                }
            }
            proof {
                lemma_entries_view(entries@);
                assert(entries_view(entries@) =~= entries_contents(orig));
            }
            Some(JsonTree::Object(entries))
        },
    }
}

/// Reads an inbound message as a JSON tree.
///
/// Succeeds exactly on a JSON document, with the tree that serde_json parses
/// it into; fails with `ConversionError` on any other text.
pub fn decode(text: &str) -> (r: Result<JsonTree, DAError>)
    ensures
        r is Ok == is_json_text(text@),
        r matches Ok(t) ==> t@ == json_document(text@),
        r is Err ==> r == Err::<JsonTree, DAError>(DAError::ConversionError),
{
    match parse_document(text) {
        Ok(v) => match tree_of(v, MAX_DEPTH) {
            Some(t) => Ok(t),
            None => Err(DAError::ConversionError),
        },
        Err(_) => Err(DAError::ConversionError),
    }
}

/// Whether `s` is valid text for a floating-point number.
pub fn float_text_is_valid(s: &String) -> (r: bool)
    ensures
        r == float_text_valid(s@),
{
    match parse_document(s.as_str()) {
        Ok(v) => match open_layer(v) {
            Layer::Number(_) => true,
            _ => false,
        },
        Err(_) => false,
    }
}

/// serde_json's form of a tree; `None` only where the tree cannot be
/// written within `depth`.
fn value_of(t: &JsonTree, depth: usize) -> (r: Option<Value>)
    ensures
        writable_within(t@, depth as nat) ==> r is Some,
        r matches Some(v) ==> value_contents(v) == written(t@),
    decreases depth,
{
    match t {
        JsonTree::Null => Some(value_null()),
        JsonTree::Bool(b) => Some(value_bool(*b)),
        JsonTree::Number(JsonNumber::PosInt(u)) => Some(value_u64(*u)),
        JsonTree::Number(JsonNumber::NegInt(i)) => Some(value_i64(*i)),
        JsonTree::Number(JsonNumber::Float(s)) => match parse_document(s.as_str()) {
            Ok(v) => match open_layer(v) {
                Layer::Number(n) => Some(value_number(n)),
                _ => None,
            },
            Err(_) => None,
        },
        JsonTree::Text(s) => Some(value_text(s.clone())),
        JsonTree::Array(items) => {
            if depth == 0 {
                return None;
            }
            let ghost iv = items_view(items@);
            proof {
                lemma_items_view(items@);
                lemma_written_items(iv);
                if writable_within(t@, depth as nat) {
                    lemma_all_writable(iv, (depth - 1) as nat);
                }
            }
            let mut values: Vec<Value> = Vec::new();
            let mut i: usize = 0;
            while i < items.len()
                invariant
                    depth > 0,
                    i <= items.len(),
                    t@ == JsonValue::Array(iv),
                    iv.len() == items.len(),
                    values.len() == i,
                    forall|k: int| 0 <= k < items.len() ==> #[trigger] iv[k] == items@[k]@,
                    forall|k: int| 0 <= k < i ==> #[trigger] value_contents(values@[k]) == written(iv[k]),
                    writable_within(t@, depth as nat) ==> forall|k: int|
                        0 <= k < items.len() ==> writable_within(#[trigger] iv[k], (depth - 1) as nat),
                decreases items.len() - i,
            {
                proof {
                    assert(iv[i as int] == items@[i as int]@);
                }
                match value_of(&items[i], depth - 1) {
                    Some(v) => values.push(v),
                    None => return None,
                }
                i += 1;
            }
            proof {
                assert(contents_of(values@) =~= written_items(iv));
            }
            Some(value_array(values))
        },
        JsonTree::Object(entries) => {
            if depth == 0 {
                return None;
            }
            let ghost ev = entries_view(entries@);
            proof {
                lemma_entries_view(entries@);
                lemma_written_entries(ev);
                if writable_within(t@, depth as nat) {
                    lemma_all_writable_entries(ev, (depth - 1) as nat);
                }
            }
            let mut values: Vec<(String, Value)> = Vec::new();
            let mut i: usize = 0;
            while i < entries.len()
                invariant
                    depth > 0,
                    i <= entries.len(),
                    t@ == JsonValue::Object(ev),
                    ev.len() == entries.len(),
                    values.len() == i,
                    forall|k: int|
                        0 <= k < entries.len() ==> #[trigger] ev[k] == (
                            entries@[k].0@,
                            entries@[k].1@,
                        ),
                    forall|k: int|
                        0 <= k < i ==> #[trigger] values@[k].0@ == ev[k].0 && value_contents(
                            values@[k].1,
                        ) == written(ev[k].1),
                    writable_within(t@, depth as nat) ==> forall|k: int|
                        0 <= k < entries.len() ==> writable_within(#[trigger] ev[k].1, (depth - 1) as nat),
                decreases entries.len() - i,
            {
                proof {
                    assert(ev[i as int].1 == entries@[i as int].1@);
                }
                match value_of(&entries[i].1, depth - 1) {
                    Some(v) => values.push((entries[i].0.clone(), v)),
                    None => return None,
                }
                i += 1;
            }
            proof {
                assert(entries_contents(values@) =~= written_entries(ev));
            }
            Some(value_object(values))
        },
    }
}

/// Writes a tree as compact JSON text, the form sent to the adapter: the
/// text serde_json writes for the tree as [`written`] gives it.
///
/// Succeeds whenever the tree can be written within [`MAX_DEPTH`]; fails
/// with `ConversionError`, and with no other error, otherwise.
pub fn encode(t: &JsonTree) -> (r: Result<String, DAError>)
    ensures
        writable_within(t@, MAX_DEPTH as nat) ==> r is Ok,
        r matches Ok(s) ==> s@ == json_text_of(written(t@)),
        r is Err ==> r == Err::<String, DAError>(DAError::ConversionError),
{
    match value_of(t, MAX_DEPTH) {
        Some(v) => Ok(document_text(&v)),
        None => Err(DAError::ConversionError),
    }
}

} // verus!
