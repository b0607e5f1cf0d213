use std::time::{Duration, SystemTime};

use fastly_compute_otel::convert::{
    any_value_to_otlp, event_to_otlp, link_to_otlp, resource_to_otlp, span_data_to_otlp,
    span_kind_to_otlp, status_to_otlp, value_to_otlp,
};
use fastly_compute_otel::json::{
    encode_resource, encode_span, encode_span_event, encode_span_link, encode_span_status,
    encode_value,
};
use fastly_compute_otel::model::{
    AnyValue, Array, Double, Event, InstrumentationScope, KeyValue, Link, SpanContext, SpanData, SpanKind,
    Status, UnixTime, Value,
};
use fastly_compute_otel::system_time_to_nanos;

fn kv(key: &str, value: &str) -> KeyValue {
    KeyValue { key: key.to_string(), value: Value::String(value.to_string()) }
}

fn time(secs: u64, nanos: u32) -> UnixTime {
    UnixTime { secs, subsec_nanos: nanos }
}

fn context(trace_id: &str, span_id: &str) -> SpanContext {
    SpanContext {
        trace_id: u128::from_str_radix(trace_id, 16).unwrap(),
        span_id: u64::from_str_radix(span_id, 16).unwrap(),
        trace_flags: 1,
        is_remote: false,
        trace_state: String::new(),
    }
}

/// Build a minimal span for testing. Callers can override fields after creation.
fn make_test_span(parent_span_id: u64) -> SpanData {
    SpanData {
        span_context: context("0af7651916cd43dd8448eb211c80319c", "b7ad6b7169203331"),
        parent_span_id,
        span_kind: SpanKind::Server,
        name: "GET /api/users".to_string(),
        start_time: time(1_700_000_000, 0),
        end_time: time(1_700_000_000, 50_000_000),
        attributes: vec![kv("http.method", "GET")],
        dropped_attributes_count: 0,
        events: vec![],
        dropped_events_count: 0,
        links: vec![],
        dropped_links_count: 0,
        status: Status::Success,
        instrumentation_scope: InstrumentationScope {
            name: "test-tracer".to_string(),
            version: Some("0.1.0".to_string()),
            schema_url: None,
            attributes: vec![],
        },
    }
}

fn any_json(v: &AnyValue) -> String {
    encode_value(&any_value_to_otlp(v))
}

fn value_json(v: &Value) -> String {
    encode_value(&value_to_otlp(v))
}

#[test]
fn nanosecond_timestamp_includes_subsecond_precision() {
    let t = SystemTime::UNIX_EPOCH + Duration::new(1_696_435_200, 123_456_789);
    assert_eq!(system_time_to_nanos(t), "1696435200123456789");
}

#[test]
fn int64_serialized_as_decimal_string_per_otlp_spec() {
    // OTLP JSON encodes int64 as a string, not a number.
    let v = AnyValue::Int(42);
    assert_eq!(any_json(&v), r#"{"intValue":"42"}"#);
}

#[test]
fn bytes_serialized_as_base64() {
    // bytesValue uses standard base64 per protobuf JSON mapping.
    let v = AnyValue::Bytes(vec![0xde, 0xad, 0xbe, 0xef]);
    assert_eq!(any_json(&v), r#"{"bytesValue":"3q2+7w=="}"#);
}

#[test]
fn nested_list_preserves_structure() {
    let v = AnyValue::ListAny(vec![AnyValue::Int(1), AnyValue::Int(2)]);
    assert_eq!(
        any_json(&v),
        r#"{"arrayValue":{"values":[{"intValue":"1"},{"intValue":"2"}]}}"#
    );
}

#[test]
fn resource_roundtrips_through_otlp_json() {
    let resource = vec![kv("service.name", "test-svc")];
    let json = encode_resource(&resource_to_otlp(&resource));
    assert_eq!(
        json,
        r#"{"attributes":[{"key":"service.name","value":{"stringValue":"test-svc"}}]}"#
    );
}

#[test]
fn value_bool_serialized_correctly() {
    assert_eq!(value_json(&Value::Bool(true)), r#"{"boolValue":true}"#);
}

#[test]
fn value_i64_serialized_as_decimal_string() {
    assert_eq!(value_json(&Value::I64(-99)), r#"{"intValue":"-99"}"#);
}

#[test]
fn value_f64_serialized_as_number() {
    let v = Value::F64(Double { bits: 3.14f64.to_bits(), json: serde_json::to_string(&3.14f64).unwrap() });
    assert_eq!(value_json(&v), r#"{"doubleValue":3.14}"#);
}

#[test]
fn value_array_of_strings() {
    let v = Value::Array(Array::String(vec!["a".to_string(), "b".to_string()]));
    assert_eq!(
        value_json(&v),
        r#"{"arrayValue":{"values":[{"stringValue":"a"},{"stringValue":"b"}]}}"#
    );
}

#[test]
fn value_array_of_ints() {
    let v = Value::Array(Array::I64(vec![1, 2, 3]));
    assert_eq!(
        value_json(&v),
        r#"{"arrayValue":{"values":[{"intValue":"1"},{"intValue":"2"},{"intValue":"3"}]}}"#
    );
}

#[test]
fn span_kind_maps_to_otlp_integers() {
    assert_eq!(span_kind_to_otlp(&SpanKind::Internal), 1);
    assert_eq!(span_kind_to_otlp(&SpanKind::Server), 2);
    assert_eq!(span_kind_to_otlp(&SpanKind::Client), 3);
    assert_eq!(span_kind_to_otlp(&SpanKind::Producer), 4);
    assert_eq!(span_kind_to_otlp(&SpanKind::Consumer), 5);
}

#[test]
fn status_unset_serializes_with_code_zero() {
    let s = status_to_otlp(&Status::Unset);
    assert_eq!(encode_span_status(&s), r#"{"code":0}"#);
}

#[test]
fn status_ok_serializes_with_code_one() {
    let s = status_to_otlp(&Status::Success);
    assert_eq!(encode_span_status(&s), r#"{"code":1}"#);
}

#[test]
fn status_error_includes_message() {
    let s = status_to_otlp(&Status::Error { description: "something broke".to_string() });
    assert_eq!(encode_span_status(&s), r#"{"code":2,"message":"something broke"}"#);
}

#[test]
fn span_data_to_otlp_produces_valid_structure() {
    let span = make_test_span(u64::from_str_radix("00f067aa0ba902b7", 16).unwrap());

    let otlp_span = span_data_to_otlp(&span);
    let json: serde_json::Value = serde_json::from_str(&encode_span(&otlp_span)).unwrap();

    assert_eq!(json["traceId"], "0af7651916cd43dd8448eb211c80319c");
    assert_eq!(json["spanId"], "b7ad6b7169203331");
    assert_eq!(json["parentSpanId"], "00f067aa0ba902b7");
    assert_eq!(json["name"], "GET /api/users");
    assert_eq!(json["kind"], 2); // SERVER
    assert_eq!(json["startTimeUnixNano"], "1700000000000000000");
    assert_eq!(json["endTimeUnixNano"], "1700000000050000000");
    assert_eq!(json["status"]["code"], 1); // OK
    assert_eq!(json["attributes"][0]["key"], "http.method");
    assert_eq!(json["attributes"][0]["value"]["stringValue"], "GET");
    // Dropped counts and empty collections should be omitted
    assert!(json.get("droppedAttributesCount").is_none());
    assert!(json.get("events").is_none());
    assert!(json.get("links").is_none());
    // traceState should be omitted when empty
    assert!(json.get("traceState").is_none());
}

#[test]
fn root_span_omits_parent_span_id() {
    let span = make_test_span(0);

    let otlp_span = span_data_to_otlp(&span);
    let json: serde_json::Value = serde_json::from_str(&encode_span(&otlp_span)).unwrap();

    assert!(json.get("parentSpanId").is_none());
}

#[test]
fn span_event_serializes_correctly() {
    let event = Event {
        name: "exception".to_string(),
        timestamp: time(1_700_000_000, 100_000),
        attributes: vec![kv("exception.message", "not found")],
        dropped_attributes_count: 0,
    };

    let otlp_event = event_to_otlp(&event);
    let json: serde_json::Value = serde_json::from_str(&encode_span_event(&otlp_event)).unwrap();

    assert_eq!(json["name"], "exception");
    assert_eq!(json["timeUnixNano"], "1700000000000100000");
    assert_eq!(json["attributes"][0]["key"], "exception.message");
}

#[test]
fn span_link_serializes_correctly() {
    let link = Link {
        span_context: context("aaaabbbbccccdddd1111222233334444", "eeee5555ffff6666"),
        attributes: vec![kv("link.reason", "retry")],
        dropped_attributes_count: 0,
    };

    let otlp_link = link_to_otlp(&link);
    let json: serde_json::Value = serde_json::from_str(&encode_span_link(&otlp_link)).unwrap();

    assert_eq!(json["traceId"], "aaaabbbbccccdddd1111222233334444");
    assert_eq!(json["spanId"], "eeee5555ffff6666");
    assert_eq!(json["attributes"][0]["key"], "link.reason");
    assert_eq!(json["attributes"][0]["value"]["stringValue"], "retry");
    // traceState should be omitted when empty
    assert!(json.get("traceState").is_none());
}

#[test]
fn time_before_the_epoch_is_zero_nanoseconds() {
    let t = SystemTime::UNIX_EPOCH - Duration::new(5, 0);
    assert_eq!(system_time_to_nanos(t), "0");
    assert_eq!(system_time_to_nanos(SystemTime::UNIX_EPOCH), "0");
    assert_eq!(system_time_to_nanos(SystemTime::UNIX_EPOCH + Duration::new(0, 7)), "7");
}
