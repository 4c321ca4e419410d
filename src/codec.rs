use crate::json::{entries_view, lemma_entries_view, JsonNumber, JsonTree, JsonValue, NumberValue};
use vstd::prelude::*;
use vstd::string::*;

verus! {

/// Key of the outbound request envelope.
pub const REQUEST_TAG: &'static str = "m2m:rqp";

/// Key of the inbound response envelope.
pub const RESPONSE_TAG: &'static str = "m2m:rsp";

/// Origin marker that every request carries and every reply echoes.
pub const ORIGIN: &'static str = "hello";

/// Key under which a written value is wrapped.
pub const CONTENT_KEY: &'static str = "m2m:cin";

/// Content-format marker attached to every written value.
pub const CONTENT_FORMAT: &'static str = "text/plain:0";

/// Operation code of a read.
pub const OP_READ: u64 = 2;

/// Operation code of a create (write).
pub const OP_WRITE: u64 = 1;

/// Resource type tag of a written content instance.
pub const CONTENT_INSTANCE_TYPE: u64 = 4;

/// Node segment under which the heat-pump items live.
pub const SUBSYSTEM_PREFIX: &'static str = "MNAE/";

/// Prefix that turns an item address into an absolute target.
pub const TARGET_ROOT: &'static str = "/[0]/";

pub open spec fn text(s: Seq<char>) -> JsonValue {
    JsonValue::Text(s)
}

pub open spec fn unsigned(u: u64) -> JsonValue {
    JsonValue::Number(NumberValue::PosInt(u))
}

/// The wire form of a written value: the value under `con`, with the
/// content-format marker under `cnf`.
pub open spec fn content_value(v: JsonValue) -> JsonValue {
    JsonValue::Object(seq![("con"@, v), ("cnf"@, text(CONTENT_FORMAT@))])
}

/// The request envelope for correlation id `id`, target `target` and, for a
/// write, the value `payload`.
pub open spec fn request_value(id: Seq<char>, target: Seq<char>, payload: Option<JsonValue>) -> JsonValue {
    let body = match payload {
        None => seq![
            ("fr"@, text(ORIGIN@)),
            ("rqi"@, text(id)),
            ("op"@, unsigned(OP_READ)),
            ("to"@, text(target)),
        ],
        Some(p) => seq![
            ("fr"@, text(ORIGIN@)),
            ("rqi"@, text(id)),
            ("op"@, unsigned(OP_WRITE)),
            ("to"@, text(target)),
            ("ty"@, unsigned(CONTENT_INSTANCE_TYPE)),
            ("pc"@, JsonValue::Object(seq![(CONTENT_KEY@, content_value(p))])),
        ],
    };
    JsonValue::Object(seq![(REQUEST_TAG@, JsonValue::Object(body))])
}

/// A mapping entry whose key is the characters of `key`.
fn entry(key: &str, value: JsonTree) -> (r: (String, JsonTree))
    ensures
        r.0@ == key@,
        r.1 == value,
{
    (String::from_str(key), value)
}

fn text_tree(s: &str) -> (r: JsonTree)
    ensures
        r@ == text(s@),
{
    JsonTree::Text(String::from_str(s))
}

fn unsigned_tree(u: u64) -> (r: JsonTree)
    ensures
        r@ == unsigned(u),
{
    JsonTree::Number(JsonNumber::PosInt(u))
}

/// Wraps `value` for writing: `{"con": value, "cnf": "text/plain:0"}`.
pub fn content(value: JsonTree) -> (r: JsonTree)
    ensures
        r@ == content_value(value@),
{
    let entries = vec![entry("con", value), entry("cnf", text_tree(CONTENT_FORMAT))];
    proof {
        lemma_entries_view(entries@);
        assert(entries_view(entries@) =~= seq![("con"@, value@), ("cnf"@, text(CONTENT_FORMAT@))]);
    }
    JsonTree::Object(entries)
}

/// The absolute target of an item address: `/[0]/<item>`.
pub fn target_path(item: &str) -> (r: String)
    ensures
        r@ == TARGET_ROOT@ + item@,
{
    String::from_str(TARGET_ROOT).concat(item)
}

/// The address of a heat-pump item: the item under the subsystem's node.
pub fn subsystem_item(item: &str) -> (r: String)
    ensures
        r@ == SUBSYSTEM_PREFIX@ + item@,
{
    String::from_str(SUBSYSTEM_PREFIX).concat(item)
}

/// Builds the request envelope: a read when `payload` is `None`, else a
/// write of the payload wrapped by [`content`].
pub fn encode_request(id: &str, target: &str, payload: Option<JsonTree>) -> (r: JsonTree)
    ensures
        r@ == request_value(id@, target@, match payload {
            Some(p) => Some(p@),
            None => None,
        }),
{
    let body = match payload {
        None => {
            let entries = vec![
                entry("fr", text_tree(ORIGIN)),
                entry("rqi", text_tree(id)),
                entry("op", unsigned_tree(OP_READ)),
                entry("to", text_tree(target)),
            ];
            proof {
                lemma_entries_view(entries@);
                assert(entries_view(entries@) =~= request_value(id@, target@, None)->Object_0[0].1->Object_0);
            }
            JsonTree::Object(entries)
        },
        Some(p) => {
            let ghost pv = p@;
            let wrapped = vec![entry(CONTENT_KEY, content(p))];
            proof {
                lemma_entries_view(wrapped@);
                assert(entries_view(wrapped@) =~= seq![(CONTENT_KEY@, content_value(pv))]);
            }
            let entries = vec![
                entry("fr", text_tree(ORIGIN)),
                entry("rqi", text_tree(id)),
                entry("op", unsigned_tree(OP_WRITE)),
                entry("to", text_tree(target)),
                entry("ty", unsigned_tree(CONTENT_INSTANCE_TYPE)),
                entry("pc", JsonTree::Object(wrapped)),
            ];
            proof {
                lemma_entries_view(entries@);
                assert(entries_view(entries@) =~= request_value(id@, target@, Some(pv))->Object_0[0].1->Object_0);
            }
            JsonTree::Object(entries)
        },
    };
    let ghost bv = body@;
    let outer = vec![entry(REQUEST_TAG, body)];
    proof {
        lemma_entries_view(outer@);
        assert(entries_view(outer@) =~= seq![(REQUEST_TAG@, bv)]);
    }
    JsonTree::Object(outer)
}

} // verus!
