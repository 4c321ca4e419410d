use crate::codec::{
    encode_request, request_value, target_path, text, ORIGIN, REQUEST_TAG, RESPONSE_TAG, TARGET_ROOT,
};
use crate::error::DAError;
use crate::json::{child, entry_value, get, lemma_entry_value_at, JsonTree, JsonValue};
use crate::path::{extract, extracted, pieces, segments};
use crate::wire::{decode, is_json_text, json_document};
use vstd::prelude::*;
use vstd::string::*;

verus! {

/// The value under `key` in the response envelope of `reply`.
pub open spec fn reply_field(reply: JsonValue, key: Seq<char>) -> Option<JsonValue> {
    match child(reply, RESPONSE_TAG@) {
        Some(body) => child(body, key),
        None => None,
    }
}

/// Whether `reply` echoes the correlation id `id` and the origin marker.
pub open spec fn correlates(reply: JsonValue, id: Seq<char>) -> bool {
    &&& reply_field(reply, "rqi"@) == Some(text(id))
    &&& reply_field(reply, "to"@) == Some(text(ORIGIN@))
}

/// The outcome of a reply to the request with correlation id `id`, read at
/// the extraction path `path`.
pub open spec fn settled(id: Seq<char>, reply: JsonValue, path: Seq<char>) -> Result<
    JsonValue,
    DAError,
> {
    if !correlates(reply, id) {
        Err(DAError::ProtocolCorrelationError)
    } else {
        match extracted(reply, path) {
            Some(v) => Ok(v),
            None => Err(DAError::NoSuchFieldError),
        }
    }
}

/// Whether the tree result `r` is the outcome `expected`.
pub open spec fn outcome_is(r: Result<JsonTree, DAError>, expected: Result<JsonValue, DAError>) -> bool {
    match expected {
        Ok(v) => r is Ok && r->Ok_0@ == v,
        Err(e) => r == Err::<JsonTree, DAError>(e),
    }
}

/// A reply that echoes `id` and the origin marker, with `pc` as its content.
pub open spec fn echo_reply(id: Seq<char>, pc: JsonValue) -> JsonValue {
    JsonValue::Object(
        seq![
            (
                RESPONSE_TAG@,
                JsonValue::Object(seq![("rqi"@, text(id)), ("to"@, text(ORIGIN@)), ("pc"@, pc)]),
            ),
        ],
    )
}

/// A reply that echoes the correlation id and the origin marker yields
/// exactly the value found at the extraction path, unchanged.
pub proof fn lemma_echoing_reply_yields_value(id: Seq<char>, pc: JsonValue, path: Seq<char>)
    ensures
        correlates(echo_reply(id, pc), id),
        settled(id, echo_reply(id, pc), path) == (match extracted(echo_reply(id, pc), path) {
            Some(v) => Ok(v),
            None => Err(DAError::NoSuchFieldError),
        }),
{
    reveal_strlit("rqi");
    reveal_strlit("to");
    reveal_strlit("pc");
    let body = seq![("rqi"@, text(id)), ("to"@, text(ORIGIN@)), ("pc"@, pc)];
    let outer = seq![(RESPONSE_TAG@, JsonValue::Object(body))];
    assert(entry_value(outer, RESPONSE_TAG@) == Some(JsonValue::Object(body)));
    assert("rqi"@.len() == 3 && "to"@.len() == 2 && "pc"@.len() == 2);
    assert("pc"@[0] != "to"@[0]);
    lemma_entry_value_at(body, "rqi"@, 0);
    lemma_entry_value_at(body, "to"@, 1);
}

/// A reply that echoes a correlation id other than the one sent never
/// yields a value: it fails with `ProtocolCorrelationError`.
pub proof fn lemma_mismatched_reply_fails(id: Seq<char>, other: Seq<char>, reply: JsonValue, path: Seq<char>)
    requires
        reply_field(reply, "rqi"@) == Some(text(other)),
        other != id,
    ensures
        settled(id, reply, path) == Err::<JsonValue, DAError>(DAError::ProtocolCorrelationError),
{
}

/// A write request carries the correlation id it was built with, and an
/// acknowledgment that echoes that id yields its whole tree at the path `/`.
pub proof fn lemma_write_acknowledged(id: Seq<char>, target: Seq<char>, payload: JsonValue, pc: JsonValue)
    ensures
        match child(request_value(id, target, Some(payload)), REQUEST_TAG@) {
            Some(body) => child(body, "rqi"@) == Some(text(id)),
            None => false,
        },
        settled(id, echo_reply(id, pc), "/"@) == Ok::<JsonValue, DAError>(echo_reply(id, pc)),
{
    reveal_strlit("fr");
    reveal_strlit("rqi");
    reveal_strlit("/");
    let req = request_value(id, target, Some(payload));
    let body = req->Object_0[0].1->Object_0;
    assert(entry_value(req->Object_0, REQUEST_TAG@) == Some(JsonValue::Object(body)));
    reveal_strlit("op");
    reveal_strlit("to");
    reveal_strlit("ty");
    reveal_strlit("pc");
    assert(body[1] == ("rqi"@, text(id)));
    assert("rqi"@.len() == 3);
    assert(forall|k: int| 1 < k < body.len() ==> body[k].0.len() == 2);
    lemma_entry_value_at(body, "rqi"@, 1);
    let p = "/"@;
    assert(p.len() == 1 && p[0] == '/');
    assert(p.drop_first() =~= Seq::<char>::empty());
    assert(pieces(p.drop_first(), Seq::empty()) =~= Seq::<Seq<char>>::empty());
    assert(segments(p) =~= Seq::<Seq<char>>::empty());
    lemma_echoing_reply_yields_value(id, pc, p);
}

/// Relies on uuid's `Uuid::new_v4` for a fresh random identifier, and on its
/// `Display`, which writes the 36-character hyphenated form.
#[verifier::external_body]
fn fresh_correlation_id() -> (r: String)
    ensures
        r@.len() == 36,
{
    uuid::Uuid::new_v4().to_string()
}

/// Whether `t` holds, under `key`, the text `expected`.
fn text_at(t: &JsonTree, key: &str, expected: &str) -> (r: bool)
    ensures
        r == (child(t@, key@) == Some(text(expected@))),
{
    match get(t, &String::from_str(key)) {
        Some(JsonTree::Text(s)) => *s == String::from_str(expected),
        _ => false,
    }
}

/// Checks that `reply` answers the request with correlation id `id`, then
/// reads it at `path`.
///
/// Fails with `ProtocolCorrelationError` when the reply does not echo the id
/// or the origin marker, else with `NoSuchFieldError` when `path` does not
/// resolve.
pub fn settle(id: &str, reply: JsonTree, path: &str) -> (r: Result<JsonTree, DAError>)
    ensures
        outcome_is(r, settled(id@, reply@, path@)),
{
    let echoed = match get(&reply, &String::from_str(RESPONSE_TAG)) {
        Some(body) => text_at(body, "rqi", id) && text_at(body, "to", ORIGIN),
        None => false,
    };
    if !echoed {
        return Err(DAError::ProtocolCorrelationError);
    }
    extract(reply, path)
}

/// One request that has been built and awaits its single reply.
pub struct PendingRequest {
    /// The correlation id that the reply must echo.
    pub correlation_id: String,
    /// Where in the reply the result is read.
    pub extraction_path: String,
}

impl PendingRequest {
    /// Starts an exchange with the correlation id `id`: returns the pending
    /// request and the envelope to send for the item address `item`, a read
    /// when `payload` is `None`, else a write of `payload`.
    pub fn with_id(id: String, item: &str, payload: Option<JsonTree>, extraction_path: &str) -> (r: (
        PendingRequest,
        JsonTree,
    ))
        ensures
            r.0.correlation_id@ == id@,
            r.0.extraction_path@ == extraction_path@,
            r.1@ == request_value(id@, TARGET_ROOT@ + item@, match payload {
                Some(p) => Some(p@),
                None => None,
            }),
    {
        let target = target_path(item);
        let request = encode_request(id.as_str(), target.as_str(), payload);
        (PendingRequest { correlation_id: id, extraction_path: String::from_str(extraction_path) }, request)
    }

    /// Starts an exchange under a fresh correlation id.
    pub fn begin(item: &str, payload: Option<JsonTree>, extraction_path: &str) -> (r: (
        PendingRequest,
        JsonTree,
    ))
        ensures
            r.0.correlation_id@.len() == 36,
            r.0.extraction_path@ == extraction_path@,
            r.1@ == request_value(r.0.correlation_id@, TARGET_ROOT@ + item@, match payload {
                Some(p) => Some(p@),
                None => None,
            }),
    {
        PendingRequest::with_id(fresh_correlation_id(), item, payload, extraction_path)
    }

    /// The correlation id of this request.
    pub fn correlation_id(&self) -> (r: &str)
        ensures
            r@ == self.correlation_id@,
    {
        self.correlation_id.as_str()
    }

    /// Ends the exchange with what the connection yielded: a parsed reply,
    /// or the error met while sending, reading or parsing, which is passed
    /// on unchanged.
    pub fn complete(self, reply: Result<JsonTree, DAError>) -> (r: Result<JsonTree, DAError>)
        ensures
            match reply {
                Ok(t) => outcome_is(r, settled(self.correlation_id@, t@, self.extraction_path@)),
                Err(e) => r == Err::<JsonTree, DAError>(e),
            },
    {
        match reply {
            Ok(t) => settle(self.correlation_id.as_str(), t, self.extraction_path.as_str()),
            Err(e) => Err(e),
        }
    }

    /// Ends the exchange with the message text that the connection yielded,
    /// or the error met while sending or reading, passed on unchanged.
    ///
    /// A JSON document is settled, as by [`PendingRequest::complete`], on the
    /// tree that serde_json parses it into; any other text fails with
    /// `ConversionError`.
    pub fn receive(self, message: Result<String, DAError>) -> (r: Result<JsonTree, DAError>)
        ensures
            match message {
                Ok(text) => if is_json_text(text@) {
                    outcome_is(
                        r,
                        settled(self.correlation_id@, json_document(text@), self.extraction_path@),
                    )
                } else {
                    r == Err::<JsonTree, DAError>(DAError::ConversionError)
                },
                Err(e) => r == Err::<JsonTree, DAError>(e),
            },
    {
        match message {
            Ok(text) => match decode(text.as_str()) {
                Ok(t) => self.complete(Ok(t)),
                Err(e) => Err(e),
            },
            Err(e) => Err(e),
        }
    }
}

} // verus!
