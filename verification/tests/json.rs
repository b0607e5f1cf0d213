use fastly_compute_otel::convert::{
    any_value_to_otlp, scope_to_otlp, span_data_to_otlp, trace_id_to_hex, span_id_to_hex,
};
use fastly_compute_otel::json::{encode_scope, encode_span, encode_value};
use fastly_compute_otel::model::{
    AnyValue, Event, InstrumentationScope, KeyValue, Link, SpanContext, SpanData, SpanKind, Status,
    UnixTime, Value,
};
use fastly_compute_otel::otlp::OtlpAnyValue;
use fastly_compute_otel::is_zero;
use fastly_compute_otel::text::{i64_to_decimal, lower_hex_fixed, u128_to_decimal};

#[test]
fn strings_are_escaped_as_serde_json_does() {
    let v = OtlpAnyValue::StringValue("a\"b\\c\nd\u{1}e\t/é".to_string());
    assert_eq!(encode_value(&v), "{\"stringValue\":\"a\\\"b\\\\c\\nd\\u0001e\\t/é\"}");
}

#[test]
fn base64_pads_short_groups() {
    assert_eq!(encode_value(&any_value_to_otlp(&AnyValue::Bytes(vec![]))), r#"{"bytesValue":""}"#);
    assert_eq!(encode_value(&any_value_to_otlp(&AnyValue::Bytes(b"a".to_vec()))), r#"{"bytesValue":"YQ=="}"#);
    assert_eq!(encode_value(&any_value_to_otlp(&AnyValue::Bytes(b"ab".to_vec()))), r#"{"bytesValue":"YWI="}"#);
    assert_eq!(encode_value(&any_value_to_otlp(&AnyValue::Bytes(b"abc".to_vec()))), r#"{"bytesValue":"YWJj"}"#);
}

#[test]
fn maps_become_key_value_lists() {
    let v = AnyValue::KeyValues(vec![
        ("k".to_string(), AnyValue::Boolean(false)),
        ("n".to_string(), AnyValue::ListAny(vec![AnyValue::Double("1.5".to_string())])),
    ]);
    assert_eq!(
        encode_value(&any_value_to_otlp(&v)),
        r#"{"kvlistValue":{"values":[{"key":"k","value":{"boolValue":false}},{"key":"n","value":{"arrayValue":{"values":[{"doubleValue":1.5}]}}}]}}"#
    );
}

#[test]
fn decimal_and_hex_texts() {
    assert_eq!(i64_to_decimal(i64::MIN), "-9223372036854775808");
    assert_eq!(i64_to_decimal(0), "0");
    assert_eq!(u128_to_decimal(u128::MAX), u128::MAX.to_string());
    assert_eq!(lower_hex_fixed(0xabc, 6), "000abc");
    assert_eq!(trace_id_to_hex(1), "00000000000000000000000000000001");
    assert_eq!(span_id_to_hex(u64::MAX), "ffffffffffffffff");
    assert!(is_zero(&0));
    assert!(!is_zero(&7));
}

#[test]
fn int64_is_always_a_json_string() {
    for i in [0i64, 1, -1, 42, i64::MAX, i64::MIN] {
        let json = encode_value(&any_value_to_otlp(&AnyValue::Int(i)));
        assert_eq!(json, format!("{{\"intValue\":\"{}\"}}", i));
    }
}

#[test]
fn scope_with_all_fields() {
    let s = InstrumentationScope {
        name: "lib".to_string(),
        version: Some("1.0".to_string()),
        schema_url: Some("https://example.com/schema".to_string()),
        attributes: vec![KeyValue { key: "a".to_string(), value: Value::I64(1) }],
    };
    assert_eq!(
        encode_scope(&scope_to_otlp(&s)),
        r#"{"name":"lib","version":"1.0","schemaUrl":"https://example.com/schema","attributes":[{"key":"a","value":{"intValue":"1"}}]}"#
    );
}

#[test]
fn span_with_everything_present() {
    let sc = SpanContext {
        trace_id: 0x10,
        span_id: 0x20,
        trace_flags: 1,
        is_remote: true,
        trace_state: "k=v".to_string(),
    };
    let span = SpanData {
        span_context: sc,
        parent_span_id: 0x30,
        span_kind: SpanKind::Consumer,
        name: "n".to_string(),
        start_time: UnixTime { secs: 0, subsec_nanos: 7 },
        end_time: UnixTime { secs: 0, subsec_nanos: 9 },
        attributes: vec![KeyValue { key: "a".to_string(), value: Value::Bool(true) }],
        dropped_attributes_count: 1,
        events: vec![Event {
            name: "e".to_string(),
            timestamp: UnixTime { secs: 0, subsec_nanos: 8 },
            attributes: vec![],
            dropped_attributes_count: 2,
        }],
        dropped_events_count: 3,
        links: vec![Link {
            span_context: SpanContext {
                trace_id: 0x40,
                span_id: 0x50,
                trace_flags: 0,
                is_remote: false,
                trace_state: String::new(),
            },
            attributes: vec![],
            dropped_attributes_count: 0,
        }],
        dropped_links_count: 4,
        status: Status::Error { description: "bad".to_string() },
        instrumentation_scope: InstrumentationScope {
            name: "s".to_string(),
            version: None,
            schema_url: None,
            attributes: vec![],
        },
    };
    assert_eq!(
        encode_span(&span_data_to_otlp(&span)),
        [
            r#"{"traceId":"00000000000000000000000000000010","spanId":"0000000000000020","#,
            r#""parentSpanId":"0000000000000030","name":"n","kind":5,"startTimeUnixNano":"7","#,
            r#""endTimeUnixNano":"9","attributes":[{"key":"a","value":{"boolValue":true}}],"#,
            r#""droppedAttributesCount":1,"events":[{"timeUnixNano":"8","name":"e","droppedAttributesCount":2}],"#,
            r#""droppedEventsCount":3,"links":[{"traceId":"00000000000000000000000000000040","spanId":"0000000000000050"}],"#,
            r#""droppedLinksCount":4,"status":{"code":2,"message":"bad"},"flags":1,"traceState":"k=v"}"#,
        ].concat()
    );
}
