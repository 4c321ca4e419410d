use daikin_altherma::accessors::{
    adapter_model, endpoint_address, endpoint_url, flag_value, heating_power_value, is_flag_set, is_on,
    read_item, tank_power_value, write_item, ACK_PATH, CONTENT_VALUE_PATH,
};
use daikin_altherma::codec::{content, encode_request, subsystem_item, target_path};
use daikin_altherma::convert::{convert, FromJsonValue, ScalarKind, TypedValue};
use daikin_altherma::engine::{settle, PendingRequest};
use daikin_altherma::error::DAError;
use daikin_altherma::json::{get, take_child, JsonNumber, JsonTree};
use daikin_altherma::path::extract;
use daikin_altherma::wire::{decode, encode};

fn txt(s: &str) -> JsonTree {
    JsonTree::Text(s.to_string())
}

fn uint(u: u64) -> JsonTree {
    JsonTree::Number(JsonNumber::PosInt(u))
}

fn float(s: &str) -> JsonTree {
    JsonTree::Number(JsonNumber::Float(s.to_string()))
}

fn obj(entries: Vec<(&str, JsonTree)>) -> JsonTree {
    JsonTree::Object(entries.into_iter().map(|(k, v)| (k.to_string(), v)).collect())
}

fn echo(id: &str, pc: JsonTree) -> JsonTree {
    obj(vec![("m2m:rsp", obj(vec![("rqi", txt(id)), ("to", txt("hello")), ("pc", pc)]))])
}

fn tank_payload() -> JsonTree {
    obj(vec![("m2m:cin", obj(vec![("con", float("42.5"))]))])
}

#[test]
fn tank_temperature_read_yields_float() {
    let (pending, request) = read_item("2/Sensor/TankTemperature/la");
    assert_eq!(pending.extraction_path, "/m2m:rsp/pc/m2m:cin/con");
    let expected = encode_request(
        pending.correlation_id(),
        "/[0]/MNAE/2/Sensor/TankTemperature/la",
        None,
    );
    assert_eq!(request, expected);
    let reply = echo(pending.correlation_id(), tank_payload());
    let value = pending.complete(Ok(reply)).unwrap();
    assert_eq!(value, float("42.5"));
    match convert(&value, ScalarKind::Float) {
        Ok(TypedValue::Float(JsonNumber::Float(s))) => {
            assert_eq!(s.parse::<f64>().unwrap(), 42.5)
        }
        other => panic!("unexpected {:?}", other),
    }
}

#[test]
fn tank_temperature_read_from_message_text() {
    let (pending, request) = read_item("2/Sensor/TankTemperature/la");
    let sent = encode(&request).unwrap();
    assert!(sent.contains("\"to\":\"/[0]/MNAE/2/Sensor/TankTemperature/la\""));
    assert!(sent.contains("\"op\":2"));
    assert!(sent.contains("\"fr\":\"hello\""));
    let message = format!(
        "{{\"m2m:rsp\":{{\"rqi\":\"{}\",\"to\":\"hello\",\"pc\":{{\"m2m:cin\":{{\"con\":42.5}}}}}}}}",
        pending.correlation_id()
    );
    let value = pending.receive(Ok(message)).unwrap();
    let reading = JsonNumber::from_json_value(&value).unwrap();
    match reading {
        JsonNumber::Float(s) => assert_eq!(s.parse::<f64>().unwrap(), 42.5),
        other => panic!("unexpected {:?}", other),
    }
}

#[test]
fn flag_write_encodes_one_and_zero() {
    let on = encode_request("id-1", "/[0]/MNAE/2/Operation/Powerful", Some(flag_value(true)));
    let on_body = take_child(take_child(take_child(on, &"m2m:rqp".to_string()).unwrap(), &"pc".to_string()).unwrap(), &"m2m:cin".to_string()).unwrap();
    assert_eq!(on_body, obj(vec![("con", uint(1)), ("cnf", txt("text/plain:0"))]));
    let off = encode_request("id-2", "/[0]/MNAE/2/Operation/Powerful", Some(flag_value(false)));
    let off_body = take_child(take_child(take_child(off, &"m2m:rqp".to_string()).unwrap(), &"pc".to_string()).unwrap(), &"m2m:cin".to_string()).unwrap();
    assert_eq!(off_body, obj(vec![("con", uint(0)), ("cnf", txt("text/plain:0"))]));
    assert_eq!(encode(&content(flag_value(true))).unwrap(), "{\"cnf\":\"text/plain:0\",\"con\":1}");
    assert_eq!(encode(&content(flag_value(false))).unwrap(), "{\"cnf\":\"text/plain:0\",\"con\":0}");
}

#[test]
fn write_request_has_type_and_operation() {
    let request = encode_request("abc", "/[0]/MNAE/1/Holiday/HolidayState", Some(flag_value(true)));
    let expected = obj(vec![(
        "m2m:rqp",
        obj(vec![
            ("fr", txt("hello")),
            ("rqi", txt("abc")),
            ("op", uint(1)),
            ("to", txt("/[0]/MNAE/1/Holiday/HolidayState")),
            ("ty", uint(4)),
            ("pc", obj(vec![("m2m:cin", obj(vec![("con", uint(1)), ("cnf", txt("text/plain:0"))]))])),
        ]),
    )]);
    assert_eq!(request, expected);
}

#[test]
fn read_request_omits_payload_fields() {
    let request = encode_request("abc", "/[0]/MNCSE-node/deviceInfo", None);
    let expected = obj(vec![(
        "m2m:rqp",
        obj(vec![
            ("fr", txt("hello")),
            ("rqi", txt("abc")),
            ("op", uint(2)),
            ("to", txt("/[0]/MNCSE-node/deviceInfo")),
        ]),
    )]);
    assert_eq!(request, expected);
}

#[test]
fn missing_path_is_no_such_field() {
    let reply = echo("id", tank_payload());
    assert_eq!(settle("id", reply, "/m2m:rsp/pc/m2m:dvi/mod"), Err(DAError::NoSuchFieldError));
    assert_eq!(extract(tank_payload(), "/m2m:cin/missing"), Err(DAError::NoSuchFieldError));
    assert_eq!(extract(tank_payload(), "/m2m:cin/con/deeper"), Err(DAError::NoSuchFieldError));
    assert_eq!(extract(txt("x"), "/a"), Err(DAError::NoSuchFieldError));
}

#[test]
fn echoing_reply_yields_value_unchanged() {
    let pc = obj(vec![("m2m:dvi", obj(vec![("mod", txt("BRP069A61"))]))]);
    let value = settle("xyz", echo("xyz", pc), "/m2m:rsp/pc/m2m:dvi/mod").unwrap();
    assert_eq!(value, txt("BRP069A61"));
    assert_eq!(adapter_model(value), Ok("BRP069A61".to_string()));
}

#[test]
fn mismatched_correlation_id_fails() {
    let (pending, _) = read_item("2/Operation/Power/la");
    let reply = echo("someone-else", tank_payload());
    assert_eq!(pending.complete(Ok(reply)), Err(DAError::ProtocolCorrelationError));
    assert_eq!(settle("a", echo("b", tank_payload()), "/"), Err(DAError::ProtocolCorrelationError));
}

#[test]
fn mismatched_origin_or_missing_envelope_fails() {
    let reply = obj(vec![("m2m:rsp", obj(vec![("rqi", txt("id")), ("to", txt("other")), ("pc", tank_payload())]))]);
    assert_eq!(settle("id", reply, "/"), Err(DAError::ProtocolCorrelationError));
    assert_eq!(settle("id", tank_payload(), "/"), Err(DAError::ProtocolCorrelationError));
    let numeric_id = obj(vec![("m2m:rsp", obj(vec![("rqi", uint(7)), ("to", txt("hello"))]))]);
    assert_eq!(settle("7", numeric_id, "/"), Err(DAError::ProtocolCorrelationError));
}

#[test]
fn write_acknowledgment_is_extractable_at_root() {
    let (pending, request) = write_item("2/Operation/Power", tank_power_value(true));
    assert_eq!(pending.extraction_path, ACK_PATH);
    let id = pending.correlation_id().to_string();
    let rqi = get(get(&request, &"m2m:rqp".to_string()).unwrap(), &"rqi".to_string()).unwrap();
    assert_eq!(*rqi, txt(&id));
    let ack = pending.complete(Ok(echo(&id, obj(vec![])))).unwrap();
    assert_eq!(ack, echo(&id, obj(vec![])));
}

#[test]
fn communication_error_passes_through() {
    let (pending, _) = read_item("1/Operation/Power/la");
    assert_eq!(pending.complete(Err(DAError::CommunicationError)), Err(DAError::CommunicationError));
    let (pending, _) = read_item("1/Operation/Power/la");
    assert_eq!(pending.receive(Err(DAError::CommunicationError)), Err(DAError::CommunicationError));
}

#[test]
fn unparsable_message_is_conversion_error() {
    let (pending, _) = read_item("1/Operation/Power/la");
    assert_eq!(pending.receive(Ok("not json {".to_string())), Err(DAError::ConversionError));
    assert_eq!(decode(""), Err(DAError::ConversionError));
}

#[test]
fn decode_reads_every_shape() {
    let tree = decode("{\"a\":[null,true,-3,18446744073709551615,1.5,\"s\"],\"b\":{}}").unwrap();
    let expected = obj(vec![
        (
            "a",
            JsonTree::Array(vec![
                JsonTree::Null,
                JsonTree::Bool(true),
                JsonTree::Number(JsonNumber::NegInt(-3)),
                uint(u64::MAX),
                float("1.5"),
                txt("s"),
            ]),
        ),
        ("b", obj(vec![])),
    ]);
    assert_eq!(tree, expected);
    assert_eq!(
        encode(&tree).unwrap(),
        "{\"a\":[null,true,-3,18446744073709551615,1.5,\"s\"],\"b\":{}}"
    );
}

#[test]
fn encode_refuses_a_float_that_is_not_a_number() {
    assert_eq!(encode(&float("abc")), Err(DAError::ConversionError));
    assert_eq!(encode(&float("[1]")), Err(DAError::ConversionError));
    assert_eq!(encode(&float("21.5")).unwrap(), "21.5");
}

#[test]
fn conversion_matches_shape_only() {
    assert_eq!(convert(&uint(5), ScalarKind::Integer), Ok(TypedValue::Integer(5)));
    assert_eq!(
        convert(&JsonTree::Number(JsonNumber::NegInt(-5)), ScalarKind::Integer),
        Ok(TypedValue::Integer(-5))
    );
    assert_eq!(convert(&uint(u64::MAX), ScalarKind::Integer), Err(DAError::ValueConversionError));
    assert_eq!(convert(&float("2.5"), ScalarKind::Integer), Err(DAError::ValueConversionError));
    assert_eq!(convert(&txt("5"), ScalarKind::Integer), Err(DAError::ValueConversionError));
    assert_eq!(convert(&uint(5), ScalarKind::Float), Ok(TypedValue::Float(JsonNumber::PosInt(5))));
    assert_eq!(convert(&txt("on"), ScalarKind::Float), Err(DAError::ValueConversionError));
    assert_eq!(convert(&txt("on"), ScalarKind::Text), Ok(TypedValue::Text("on".to_string())));
    assert_eq!(convert(&uint(1), ScalarKind::Text), Err(DAError::ValueConversionError));
    assert_eq!(convert(&JsonTree::Bool(false), ScalarKind::Boolean), Ok(TypedValue::Boolean(false)));
    assert_eq!(convert(&uint(1), ScalarKind::Boolean), Err(DAError::ValueConversionError));
    assert_eq!(convert(&JsonTree::Null, ScalarKind::Text), Err(DAError::ValueConversionError));
}

#[test]
fn conversion_is_repeatable() {
    let raw = float("42.5");
    assert_eq!(convert(&raw, ScalarKind::Float), convert(&raw, ScalarKind::Float));
    assert_eq!(convert(&raw, ScalarKind::Text), convert(&raw, ScalarKind::Text));
}

#[test]
fn typed_readers() {
    assert_eq!(i64::from_json_value(&uint(1)), Ok(1));
    assert_eq!(i64::from_json_value(&txt("1")), Err(DAError::ValueConversionError));
    assert_eq!(String::from_json_value(&txt("on")), Ok("on".to_string()));
    assert_eq!(bool::from_json_value(&JsonTree::Bool(true)), Ok(true));
    assert_eq!(bool::from_json_value(&uint(1)), Err(DAError::ValueConversionError));
    assert_eq!(JsonNumber::from_json_value(&uint(3)), Ok(JsonNumber::PosInt(3)));
}

#[test]
fn paths_skip_empty_segments() {
    assert_eq!(extract(tank_payload(), "/"), Ok(tank_payload()));
    assert_eq!(extract(tank_payload(), ""), Ok(tank_payload()));
    assert_eq!(extract(tank_payload(), "//m2m:cin//con/"), Ok(float("42.5")));
}

#[test]
fn last_of_equal_keys_wins() {
    let tree = obj(vec![("k", uint(1)), ("k", uint(2))]);
    assert_eq!(encode(&tree).unwrap(), "{\"k\":2}");
    assert_eq!(extract(tree, "/k"), Ok(uint(2)));
    let parsed = decode("{\"k\":1,\"k\":2}").unwrap();
    assert_eq!(extract(parsed, "/k"), Ok(uint(2)));
}

#[test]
fn float_text_must_be_a_number() {
    assert_eq!(convert(&float("abc"), ScalarKind::Float), Err(DAError::ValueConversionError));
    assert_eq!(convert(&float("[1]"), ScalarKind::Float), Err(DAError::ValueConversionError));
    assert_eq!(JsonNumber::from_json_value(&float("x")), Err(DAError::ValueConversionError));
    assert_eq!(
        convert(&float("21.5"), ScalarKind::Float),
        Ok(TypedValue::Float(JsonNumber::Float("21.5".to_string())))
    );
}

#[test]
fn decode_then_encode_keeps_the_text() {
    let text = "{\"m2m:rsp\":{\"pc\":{\"m2m:cin\":{\"con\":-7}},\"rqi\":\"a\",\"to\":\"hello\"}}";
    assert_eq!(encode(&decode(text).unwrap()).unwrap(), text);
    assert_eq!(
        encode(&JsonTree::Number(JsonNumber::NegInt(5))).unwrap(),
        "5"
    );
}

#[test]
fn addresses_are_built_by_prefix() {
    assert_eq!(target_path("MNAE/2/Operation/Power"), "/[0]/MNAE/2/Operation/Power");
    assert_eq!(subsystem_item("2/Operation/Power"), "MNAE/2/Operation/Power");
    assert_eq!(endpoint_address("192.168.11.100"), "ws://192.168.11.100/mca");
    assert_eq!(CONTENT_VALUE_PATH, "/m2m:rsp/pc/m2m:cin/con");
}

#[test]
fn correlation_ids_are_fresh() {
    let (a, _) = read_item("x");
    let (b, _) = read_item("x");
    assert_eq!(a.correlation_id().len(), 36);
    assert_ne!(a.correlation_id(), b.correlation_id());
}

#[test]
fn with_id_uses_the_given_id() {
    let (pending, request) = PendingRequest::with_id("fixed".to_string(), "MNAE/x", None, "/");
    assert_eq!(pending.correlation_id(), "fixed");
    assert_eq!(request, encode_request("fixed", "/[0]/MNAE/x", None));
}

#[test]
fn parameter_conventions() {
    assert!(is_on(&"on".to_string()));
    assert!(!is_on(&"off".to_string()));
    assert!(!is_on(&"standby".to_string()));
    assert!(is_flag_set(1));
    assert!(!is_flag_set(0));
    assert!(!is_flag_set(2));
    assert_eq!(tank_power_value(true), txt("on"));
    assert_eq!(tank_power_value(false), txt("off"));
    assert_eq!(heating_power_value(true), txt("on"));
    assert_eq!(heating_power_value(false), txt("standby"));
    assert_eq!(adapter_model(uint(3)), Err(DAError::ValueConversionError));
}

#[test]
fn deep_nesting_is_refused() {
    let text = format!("{}{}", "[".repeat(300), "]".repeat(300));
    assert_eq!(decode(&text), Err(DAError::ConversionError));
    let mut tree = JsonTree::Null;
    for _ in 0..300 {
        tree = JsonTree::Array(vec![tree]);
    }
    assert_eq!(encode(&tree), Err(DAError::ConversionError));
    let mut shallow = JsonTree::Null;
    for _ in 0..100 {
        shallow = JsonTree::Array(vec![shallow]);
    }
    assert!(encode(&shallow).is_ok());
}

#[test]
fn endpoint_url_parses_the_address() {
    assert_eq!(endpoint_url("192.168.11.100").unwrap().as_str(), "ws://192.168.11.100/mca");
    assert_eq!(endpoint_url("bad host").unwrap_err(), DAError::UrlParseError);
}
