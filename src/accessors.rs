use crate::codec::{subsystem_item, text, unsigned, SUBSYSTEM_PREFIX, TARGET_ROOT, request_value};
use crate::engine::PendingRequest;
use crate::convert::FromJsonValue;
use crate::error::DAError;
use crate::json::{JsonNumber, JsonTree, JsonValue};
use vstd::prelude::*;
use vstd::string::*;

verus! {

/// Item address of the adapter's device information.
pub const ADAPTER_INFO_ITEM: &'static str = "MNCSE-node/deviceInfo";

/// Where a device-information reply holds the adapter's model.
pub const ADAPTER_MODEL_PATH: &'static str = "/m2m:rsp/pc/m2m:dvi/mod";

/// Where a reply holds the value of a heat-pump item.
pub const CONTENT_VALUE_PATH: &'static str = "/m2m:rsp/pc/m2m:cin/con";

/// Where a write acknowledgment is read: its root.
pub const ACK_PATH: &'static str = "/";

/// The websocket address of the adapter at `hostname`:
/// `ws://<hostname>/mca`.
pub fn endpoint_address(hostname: &str) -> (r: String)
    ensures
        r@ == "ws://"@ + hostname@ + "/mca"@,
{
    String::from_str("ws://").concat(hostname).concat("/mca")
}

#[verifier::external_type_specification]
#[verifier::external_body]
pub struct ExUrl(url::Url);

#[verifier::external_type_specification]
#[verifier::external_body]
pub struct ExUrlParseError(url::ParseError);

/// Whether url's parser accepts `text` as an absolute URL.
pub uninterp spec fn url_parses(text: Seq<char>) -> bool;

/// Relies on url's `Url::parse`, whose outcome depends on the text alone.
#[verifier::external_body]
fn parse_url(text: &str) -> (r: Result<url::Url, url::ParseError>)
    ensures
        r is Ok == url_parses(text@),
{
    url::Url::parse(text)
}

/// The parsed websocket address of the adapter at `hostname`; fails with
/// `UrlParseError` exactly when that address is not a valid URL.
pub fn endpoint_url(hostname: &str) -> (r: Result<url::Url, DAError>)
    ensures
        r is Ok == url_parses("ws://"@ + hostname@ + "/mca"@),
        r is Err ==> r == Err::<url::Url, DAError>(DAError::UrlParseError),
{
    let address = endpoint_address(hostname);
    match parse_url(address.as_str()) {
        Ok(u) => Ok(u),
        Err(_) => Err(DAError::UrlParseError),
    }
}

/// Starts the read of the heat-pump item `item`; the reply is read at
/// [`CONTENT_VALUE_PATH`].
pub fn read_item(item: &str) -> (r: (PendingRequest, JsonTree))
    ensures
        r.0.extraction_path@ == CONTENT_VALUE_PATH@,
        r.1@ == request_value(r.0.correlation_id@, TARGET_ROOT@ + (SUBSYSTEM_PREFIX@ + item@), None),
{
    let address = subsystem_item(item);
    PendingRequest::begin(address.as_str(), None, CONTENT_VALUE_PATH)
}

/// Starts the write of `value` to the heat-pump item `item`; the
/// acknowledgment is read at [`ACK_PATH`].
pub fn write_item(item: &str, value: JsonTree) -> (r: (PendingRequest, JsonTree))
    ensures
        r.0.extraction_path@ == ACK_PATH@,
        r.1@ == request_value(
            r.0.correlation_id@,
            TARGET_ROOT@ + (SUBSYSTEM_PREFIX@ + item@),
            Some(value@),
        ),
{
    let address = subsystem_item(item);
    PendingRequest::begin(address.as_str(), Some(value), ACK_PATH)
}

/// Whether a power state reads as enabled: exactly the text `on`.
pub fn is_on(state: &String) -> (r: bool)
    ensures
        r == (state@ == "on"@),
{
    *state == String::from_str("on")
}

/// Whether an integer flag is set: exactly the value 1.
pub fn is_flag_set(flag: i64) -> (r: bool)
    ensures
        r == (flag == 1),
{
    flag == 1
}

/// The value written for a flag: 1 when set, 0 when not.
pub fn flag_value(set: bool) -> (r: JsonTree)
    ensures
        r@ == unsigned(if set { 1 } else { 0 }),
{
    JsonTree::Number(JsonNumber::PosInt(if set { 1 } else { 0 }))
}

/// The value written to switch the tank on or off: `on` or `off`.
pub fn tank_power_value(enabled: bool) -> (r: JsonTree)
    ensures
        r@ == text(if enabled { "on"@ } else { "off"@ }),
{
    JsonTree::Text(String::from_str(if enabled { "on" } else { "off" }))
}

/// The value written to switch the heating on or to standby: `on` or
/// `standby`.
pub fn heating_power_value(enabled: bool) -> (r: JsonTree)
    ensures
        r@ == text(if enabled { "on"@ } else { "standby"@ }),
{
    JsonTree::Text(String::from_str(if enabled { "on" } else { "standby" }))
}

/// The adapter model held by a device-information value; a value that is
/// not text has the wrong shape.
pub fn adapter_model(value: JsonTree) -> (r: Result<String, DAError>)
    ensures
        match value@ {
            JsonValue::Text(s) => r is Ok && r->Ok_0@ == s,
            _ => r == Err::<String, DAError>(DAError::ValueConversionError),
        },
{
    String::from_json_value(&value)
}

} // verus!
