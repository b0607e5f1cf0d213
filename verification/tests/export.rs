use fastly_compute_otel::export::{build_trace_request, scope_eq, ExportError};
use fastly_compute_otel::convert::{span_id_to_hex, trace_id_to_hex};
use fastly_compute_otel::init::{backend_span, first_shutdown_error, response_span_update, root_span};
use fastly_compute_otel::model::{
    AnyValue, Array, Double, Event, InstrumentationScope, KeyValue, LogBatchEntry, LogRecordData, SpanContext, SpanData,
    SpanKind, Status, TraceContext, UnixTime, Value,
};
use fastly_compute_otel::{
    has_remote_span_context, FastlyLogExporter, FastlyOtelBuilder, FastlyOtelError, FastlySpanExporter,
};

fn scope(name: &str) -> InstrumentationScope {
    InstrumentationScope { name: name.to_string(), version: None, schema_url: None, attributes: vec![] }
}

fn span(name: &str, scope_name: &str) -> SpanData {
    SpanData {
        span_context: SpanContext {
            trace_id: 1,
            span_id: 2,
            trace_flags: 0,
            is_remote: false,
            trace_state: String::new(),
        },
        parent_span_id: 0,
        span_kind: SpanKind::Internal,
        name: name.to_string(),
        start_time: UnixTime { secs: 1, subsec_nanos: 0 },
        end_time: UnixTime { secs: 2, subsec_nanos: 0 },
        attributes: vec![],
        dropped_attributes_count: 0,
        events: vec![],
        dropped_events_count: 0,
        links: vec![],
        dropped_links_count: 0,
        status: Status::Unset,
        instrumentation_scope: scope(scope_name),
    }
}

fn resource() -> Vec<KeyValue> {
    vec![KeyValue { key: "service.name".to_string(), value: Value::String("svc".to_string()) }]
}

#[test]
fn spans_are_grouped_by_scope_in_first_seen_order() {
    let batch = vec![span("a1", "A"), span("b1", "B"), span("a2", "A")];
    let q = build_trace_request(&resource(), &batch);
    assert_eq!(q.resource_spans.len(), 1);
    let groups = &q.resource_spans[0].scope_spans;
    assert_eq!(groups.len(), 2);
    assert_eq!(groups[0].scope.name, "A");
    assert_eq!(groups[0].spans.len(), 2);
    assert_eq!(groups[0].spans[0].name, "a1");
    assert_eq!(groups[0].spans[1].name, "a2");
    assert_eq!(groups[1].scope.name, "B");
    assert_eq!(groups[1].spans[0].name, "b1");
}

#[test]
fn scopes_with_different_versions_are_different_groups() {
    let mut s2 = span("x2", "A");
    s2.instrumentation_scope.version = Some("2".to_string());
    let batch = vec![span("x1", "A"), s2];
    let q = build_trace_request(&resource(), &batch);
    assert_eq!(q.resource_spans[0].scope_spans.len(), 2);
}

#[test]
fn span_export_writes_one_json_line() {
    let mut exporter = FastlySpanExporter::new("otel".to_string());
    exporter.set_resource(resource());
    let line = exporter.export(&vec![span("work", "lib")]).unwrap().unwrap();
    assert!(line.ends_with('\n'));
    assert_eq!(line.matches('\n').count(), 1);
    assert_eq!(
        line,
        [
            r#"{"resourceSpans":[{"resource":{"attributes":[{"key":"service.name","value":{"stringValue":"svc"}}]},"#,
            r#""scopeSpans":[{"scope":{"name":"lib"},"spans":[{"traceId":"00000000000000000000000000000001","#,
            r#""spanId":"0000000000000002","name":"work","kind":1,"startTimeUnixNano":"1000000000","#,
            r#""endTimeUnixNano":"2000000000","status":{"code":0}}]}]}]}"#,
            "\n",
        ].concat()
    );
}

#[test]
fn span_export_of_empty_batch_writes_nothing() {
    let exporter = FastlySpanExporter::new("otel".to_string());
    assert!(matches!(exporter.export(&vec![]), Ok(None)));
}

// This scenario also runs in the Fastly runtime with the SDK (app/); here it checks
// the library's decisions in it.
#[test]
fn shutdown_after_export_does_not_panic() {
    let mut exporter = FastlySpanExporter::new("otel".to_string());
    for i in 0..5 {
        let line = exporter.export(&vec![span(&format!("span-{i}"), "test-tracer")]);
        assert!(matches!(line, Ok(Some(_))));
    }
    exporter.shutdown_with_timeout();
    assert!(exporter.is_shutdown());
    assert!(matches!(
        exporter.export(&vec![span("late", "test-tracer")]),
        Err(ExportError::AlreadyShutdown)
    ));
}

#[test]
fn exporter_keeps_endpoint_and_resource() {
    let mut exporter = FastlySpanExporter::new("otel-endpoint".to_string());
    assert_eq!(exporter.endpoint_name(), "otel-endpoint");
    exporter.set_resource(resource());
    exporter.shutdown_with_timeout();
    assert_eq!(exporter.endpoint_name(), "otel-endpoint");
}

#[test]
fn export_failure_names_the_exporter() {
    let exporter = FastlySpanExporter::new("otel".to_string());
    let e = FastlyOtelError::EndpointOpen { name: "otel".to_string(), source: "no such endpoint".to_string() };
    match exporter.failure(&e) {
        ExportError::InternalFailure(text) => assert_eq!(
            text,
            "FastlySpanExporter: failed to open log endpoint 'otel': no such endpoint"
        ),
        ExportError::AlreadyShutdown => panic!("wrong error"),
    }
    let logs = FastlyLogExporter::new("otel".to_string());
    match logs.failure(&FastlyOtelError::Write("broken pipe".to_string())) {
        ExportError::InternalFailure(text) => {
            assert_eq!(text, "FastlyLogExporter: failed to write to log endpoint: broken pipe")
        }
        ExportError::AlreadyShutdown => panic!("wrong error"),
    }
}

fn record(body: &str) -> LogRecordData {
    LogRecordData {
        timestamp: Some(UnixTime { secs: 1_700_000_000, subsec_nanos: 5 }),
        observed_timestamp: None,
        severity_number: Some(9),
        severity_text: Some("INFO".to_string()),
        body: Some(AnyValue::String(body.to_string())),
        attributes: vec![("url.path".to_string(), AnyValue::String("/api/data".to_string()))],
        trace_context: Some(TraceContext { trace_id: 0xab, span_id: 0xcd, trace_flags: Some(1) }),
    }
}

#[test]
fn log_export_writes_one_json_line() {
    let exporter = FastlyLogExporter::new("otel".to_string());
    let line = exporter
        .export(&vec![LogBatchEntry { record: record("cache miss"), scope: scope("test-logger") }])
        .unwrap();
    assert_eq!(
        line,
        [
            r#"{"resourceLogs":[{"resource":{"attributes":[]},"scopeLogs":[{"scope":{"name":"test-logger"},"#,
            r#""logRecords":[{"timeUnixNano":"1700000000000000005","severityNumber":9,"severityText":"INFO","#,
            r#""body":{"stringValue":"cache miss"},"attributes":[{"key":"url.path","value":{"stringValue":"/api/data"}}],"#,
            r#""traceId":"000000000000000000000000000000ab","spanId":"00000000000000cd","flags":1}]}]}]}"#,
            "\n",
        ].concat()
    );
}

#[test]
fn log_export_of_empty_batch_writes_an_empty_request() {
    let exporter = FastlyLogExporter::new("otel".to_string());
    assert_eq!(
        exporter.export(&vec![]).unwrap(),
        "{\"resourceLogs\":[{\"resource\":{\"attributes\":[]},\"scopeLogs\":[]}]}\n"
    );
}

#[test]
fn log_export_refused_after_shutdown() {
    let mut exporter = FastlyLogExporter::new("otel".to_string());
    exporter.shutdown_with_timeout();
    assert!(matches!(exporter.export(&vec![]), Err(ExportError::AlreadyShutdown)));
}

#[test]
fn log_records_group_by_scope() {
    let exporter = FastlyLogExporter::new("otel".to_string());
    let entries = vec![
        LogBatchEntry { record: record("one"), scope: scope("a") },
        LogBatchEntry { record: record("two"), scope: scope("b") },
        LogBatchEntry { record: record("three"), scope: scope("a") },
    ];
    let line = exporter.export(&entries).unwrap();
    let json: serde_json::Value = serde_json::from_str(line.trim_end()).unwrap();
    let groups = &json["resourceLogs"][0]["scopeLogs"];
    assert_eq!(groups.as_array().unwrap().len(), 2);
    assert_eq!(groups[0]["scope"]["name"], "a");
    assert_eq!(groups[0]["logRecords"][0]["body"]["stringValue"], "one");
    assert_eq!(groups[0]["logRecords"][1]["body"]["stringValue"], "three");
    assert_eq!(groups[1]["logRecords"][0]["body"]["stringValue"], "two");
}

#[test]
fn line_breaks_inside_values_stay_escaped_in_the_line() {
    let mut exporter = FastlySpanExporter::new("otel".to_string());
    exporter.set_resource(resource());
    let mut s = span("multi\nline", "lib");
    s.attributes.push(KeyValue { key: "k\r\n".to_string(), value: Value::String("a\nb".to_string()) });
    let line = exporter.export(&vec![s]).unwrap().unwrap();
    assert_eq!(line.matches('\n').count(), 1);
    assert!(line.ends_with('\n'));
    assert!(line.contains(r#""name":"multi\nline""#));
    assert!(line.contains(r#"{"key":"k\r\n","value":{"stringValue":"a\nb"}}"#));

    let log_exporter = FastlyLogExporter::new("otel".to_string());
    let entry = LogBatchEntry {
        record: LogRecordData {
            timestamp: None,
            observed_timestamp: None,
            severity_number: None,
            severity_text: Some("two\nlines".to_string()),
            body: Some(AnyValue::ListAny(vec![AnyValue::String("x\ny".to_string())])),
            attributes: vec![],
            trace_context: None,
        },
        scope: scope("lib"),
    };
    let line = log_exporter.export(&vec![entry]).unwrap();
    assert_eq!(line.matches('\n').count(), 1);
    assert!(line.ends_with('\n'));
}

fn plain_record(severity: u32, text: &str, body: &str, attributes: Vec<(&str, &str)>) -> LogRecordData {
    LogRecordData {
        timestamp: None,
        observed_timestamp: None,
        severity_number: Some(severity),
        severity_text: Some(text.to_string()),
        body: Some(AnyValue::String(body.to_string())),
        attributes: attributes
            .into_iter()
            .map(|(k, v)| (k.to_string(), AnyValue::String(v.to_string())))
            .collect(),
        trace_context: None,
    }
}

// This scenario also runs in the Fastly runtime with the SDK (app/); here it checks
// the library's decisions in it.
#[test]
fn span_create_and_export() {
    let plan = FastlyOtelBuilder::new()
        .service_name("integration-test")
        .trace_endpoint("otel")
        .plan()
        .ok()
        .expect("build should succeed");
    let mut exporter = FastlySpanExporter::new(plan.trace_endpoint.expect("trace endpoint"));
    exporter.set_resource(plan.resource);
    let line = exporter
        .export(&vec![span("test-span", "test-tracer")])
        .expect("export should succeed")
        .expect("a line for a non-empty batch");
    let json: serde_json::Value = serde_json::from_str(line.trim_end()).unwrap();
    let rs = &json["resourceSpans"][0];
    assert_eq!(rs["resource"]["attributes"][0]["value"]["stringValue"], "integration-test");
    assert_eq!(rs["scopeSpans"][0]["scope"]["name"], "test-tracer");
    assert_eq!(rs["scopeSpans"][0]["spans"][0]["name"], "test-span");
    exporter.shutdown_with_timeout();
    assert!(exporter.is_shutdown());
}

// This scenario also runs in the Fastly runtime with the SDK (app/); here it checks
// the library's decisions in it.
#[test]
fn span_with_attributes_and_events() {
    let mut s = span("span-with-attrs", "test-tracer");
    s.attributes.push(KeyValue { key: "http.request.method".to_string(), value: Value::String("GET".to_string()) });
    s.attributes.push(KeyValue { key: "url.path".to_string(), value: Value::String("/test".to_string()) });
    s.events.push(Event {
        name: "cache-lookup".to_string(),
        timestamp: UnixTime { secs: 1, subsec_nanos: 500 },
        attributes: vec![KeyValue { key: "cache.hit".to_string(), value: Value::Bool(false) }],
        dropped_attributes_count: 0,
    });
    let exporter = FastlySpanExporter::new("otel".to_string());
    let line = exporter.export(&vec![s]).unwrap().unwrap();
    let json: serde_json::Value = serde_json::from_str(line.trim_end()).unwrap();
    let sp = &json["resourceSpans"][0]["scopeSpans"][0]["spans"][0];
    assert_eq!(sp["attributes"][0]["key"], "http.request.method");
    assert_eq!(sp["attributes"][0]["value"]["stringValue"], "GET");
    assert_eq!(sp["attributes"][1]["key"], "url.path");
    assert_eq!(sp["events"][0]["name"], "cache-lookup");
    assert_eq!(sp["events"][0]["timeUnixNano"], "1000000500");
    assert_eq!(sp["events"][0]["attributes"][0]["value"]["boolValue"], false);
}

// This scenario also runs in the Fastly runtime with the SDK (app/); here it checks
// the library's decisions in it.
#[test]
fn log_record_create_and_export() {
    let exporter = FastlyLogExporter::new("otel".to_string());
    let entry = LogBatchEntry {
        record: plain_record(9, "INFO", "integration test log message", vec![]),
        scope: scope("test-logger"),
    };
    let line = exporter.export(&vec![entry]).expect("export should succeed");
    let json: serde_json::Value = serde_json::from_str(line.trim_end()).unwrap();
    let rec = &json["resourceLogs"][0]["scopeLogs"][0]["logRecords"][0];
    assert_eq!(rec["severityNumber"], 9);
    assert_eq!(rec["severityText"], "INFO");
    assert_eq!(rec["body"]["stringValue"], "integration test log message");
    assert!(rec.get("attributes").is_none());
    assert!(rec.get("traceId").is_none());
}

// This scenario also runs in the Fastly runtime with the SDK (app/); here it checks
// the library's decisions in it.
#[test]
fn log_record_with_attributes() {
    let exporter = FastlyLogExporter::new("otel".to_string());
    let entry = LogBatchEntry {
        record: plain_record(
            13,
            "WARN",
            "cache miss",
            vec![("url.path", "/api/data"), ("fastly.cache_status", "MISS")],
        ),
        scope: scope("test-logger"),
    };
    let line = exporter.export(&vec![entry]).expect("export should succeed");
    let json: serde_json::Value = serde_json::from_str(line.trim_end()).unwrap();
    let rec = &json["resourceLogs"][0]["scopeLogs"][0]["logRecords"][0];
    assert_eq!(rec["severityNumber"], 13);
    assert_eq!(rec["severityText"], "WARN");
    assert_eq!(rec["attributes"][0]["key"], "url.path");
    assert_eq!(rec["attributes"][1]["key"], "fastly.cache_status");
    assert_eq!(rec["attributes"][1]["value"]["stringValue"], "MISS");
}

// This scenario also runs in the Fastly runtime with the SDK (app/); here it checks
// the library's decisions in it.
#[test]
fn build_from_request_continues_incoming_trace() {
    // The context that the `traceparent` header
    // 00-0af7651916cd43dd8448eb211c80319c-b7ad6b7169203331-01 carries.
    let incoming = SpanContext {
        trace_id: 0x0af7651916cd43dd8448eb211c80319c,
        span_id: 0xb7ad6b7169203331,
        trace_flags: 1,
        is_remote: true,
        trace_state: String::new(),
    };
    assert!(has_remote_span_context(&incoming));
    assert_eq!(trace_id_to_hex(incoming.trace_id), "0af7651916cd43dd8448eb211c80319c");
    assert_eq!(span_id_to_hex(incoming.span_id), "b7ad6b7169203331");
}

// This scenario also runs in the Fastly runtime with the SDK (app/); here it checks
// the library's decisions in it.
#[test]
fn full_lifecycle_traces_and_logs() {
    let plan = FastlyOtelBuilder::new()
        .service_name("integration-test")
        .service_version("0.1.0")
        .endpoint("otel")
        .plan()
        .ok()
        .expect("build should succeed");
    let root = root_span(
        "GET",
        "/api/data",
        Some(b"example.com".as_slice()),
        Some(b"integration-test/1.0".as_slice()),
        None,
        None,
    );
    assert_eq!(root.name, "GET");

    let mut spans = FastlySpanExporter::new(plan.trace_endpoint.clone().unwrap());
    let mut logs = FastlyLogExporter::new(plan.log_endpoint.clone().unwrap());
    let mut child = span("process-request", "test-app");
    child.attributes.push(KeyValue { key: "custom.attr".to_string(), value: Value::String("value".to_string()) });
    let span_line = spans.export(&vec![child]).unwrap().unwrap();
    assert!(span_line.starts_with("{\"resourceSpans\":"));
    let entry = LogBatchEntry {
        record: plain_record(9, "INFO", "request processed successfully", vec![]),
        scope: scope("test-app"),
    };
    let log_line = logs.export(&vec![entry]).unwrap();
    assert!(log_line.starts_with("{\"resourceLogs\":"));

    let (status_attr, status) = response_span_update(200);
    assert_eq!(status_attr.key, "http.response.status_code");
    assert!(status.is_none());
    spans.shutdown_with_timeout();
    logs.shutdown_with_timeout();
    let done: Result<(), ExportError> = first_shutdown_error(Some(Ok(())), Some(Ok(())));
    assert!(done.is_ok());
}

// This scenario also runs in the Fastly runtime with the SDK (app/); here it checks
// the library's decisions in it.
#[test]
fn send_to_nonexistent_backend_returns_error_without_panic() {
    let start = backend_span("GET", "https://nonexistent.example.com/", "nonexistent-backend");
    assert_eq!(start.name, "backend nonexistent-backend");
    assert!(matches!(start.kind, SpanKind::Client));
    match response_span_update(502).1 {
        Some(Status::Error { description }) => assert_eq!(description, "HTTP 502"),
        _ => panic!("expected an error status"),
    }
}

fn attr(key: &str, value: &str) -> KeyValue {
    KeyValue { key: key.to_string(), value: Value::String(value.to_string()) }
}

#[test]
fn scopes_are_compared_with_attributes_sorted_by_key() {
    let mut s1 = span("x1", "A");
    s1.instrumentation_scope.attributes = vec![attr("a", "1"), attr("b", "2")];
    let mut s2 = span("x2", "A");
    s2.instrumentation_scope.attributes = vec![attr("b", "2"), attr("a", "1")];
    let mut s3 = span("x3", "A");
    s3.instrumentation_scope.attributes = vec![attr("a", "1"), attr("b", "3")];
    let q = build_trace_request(&resource(), &vec![s1, s2, s3]);
    let groups = &q.resource_spans[0].scope_spans;
    assert_eq!(groups.len(), 2);
    assert_eq!(groups[0].spans.len(), 2);
    assert_eq!(groups[0].scope.attributes[0].key, "a");
    assert_eq!(groups[1].spans[0].name, "x3");
}

#[test]
fn scope_equality_follows_the_sdk() {
    let scope_with = |attrs: Vec<KeyValue>| InstrumentationScope {
        name: "lib".to_string(),
        version: Some("1".to_string()),
        schema_url: None,
        attributes: attrs,
    };
    assert!(scope_eq(&scope_with(vec![attr("a", "1"), attr("b", "2")]), &scope_with(vec![attr("b", "2"), attr("a", "1")])));
    assert!(!scope_eq(&scope_with(vec![attr("a", "1")]), &scope_with(vec![attr("a", "1"), attr("a", "1")])));
    assert!(!scope_eq(&scope_with(vec![attr("a", "1"), attr("a", "2")]), &scope_with(vec![attr("a", "2"), attr("a", "1")])));
    assert!(!scope_eq(&scope_with(vec![]), &scope(&"lib")));
}

#[test]
fn serialization_failure_text_has_its_prefix() {
    let e = FastlyOtelError::Serialization(serde_json::from_str::<u8>("x").unwrap_err());
    assert!(e.message().starts_with("failed to serialize OTLP JSON: "));
    match FastlyLogExporter::new("otel".to_string()).failure(&e) {
        ExportError::InternalFailure(text) => {
            assert!(text.starts_with("FastlyLogExporter: failed to serialize OTLP JSON: "))
        }
        ExportError::AlreadyShutdown => panic!("wrong error"),
    }
}

fn double_attr(key: &str, f: f64) -> KeyValue {
    KeyValue { key: key.to_string(), value: Value::F64(Double { bits: f.to_bits(), json: serde_json::to_string(&f).unwrap() }) }
}

#[test]
fn scope_doubles_compare_as_numbers() {
    let scope_with = |attrs: Vec<KeyValue>| InstrumentationScope {
        name: "lib".to_string(),
        version: None,
        schema_url: None,
        attributes: attrs,
    };
    assert!(scope_eq(&scope_with(vec![double_attr("x", 0.0)]), &scope_with(vec![double_attr("x", -0.0)])));
    assert!(scope_eq(&scope_with(vec![double_attr("x", 1.5)]), &scope_with(vec![double_attr("x", 1.5)])));
    assert!(!scope_eq(&scope_with(vec![double_attr("x", 1.5)]), &scope_with(vec![double_attr("x", 2.5)])));
    let nan = scope_with(vec![double_attr("x", f64::NAN)]);
    assert!(!scope_eq(&nan, &scope_with(vec![double_attr("x", f64::NAN)])));
    let nan_array = |f: f64| {
        scope_with(vec![KeyValue {
            key: "xs".to_string(),
            value: Value::Array(Array::F64(vec![Double { bits: f.to_bits(), json: "null".to_string() }])),
        }])
    };
    assert!(!scope_eq(&nan_array(f64::NAN), &nan_array(f64::NAN)));
    assert!(scope_eq(&nan_array(f64::INFINITY), &nan_array(f64::INFINITY)));
}

#[test]
fn spans_of_a_nan_scope_are_never_grouped() {
    let mut s1 = span("n1", "A");
    s1.instrumentation_scope.attributes = vec![double_attr("x", f64::NAN)];
    let mut s2 = span("n2", "A");
    s2.instrumentation_scope.attributes = vec![double_attr("x", f64::NAN)];
    let mut s3 = span("z1", "A");
    s3.instrumentation_scope.attributes = vec![double_attr("x", 0.0)];
    let mut s4 = span("z2", "A");
    s4.instrumentation_scope.attributes = vec![double_attr("x", -0.0)];
    let q = build_trace_request(&resource(), &vec![s1, s2, s3, s4]);
    let groups = &q.resource_spans[0].scope_spans;
    assert_eq!(groups.len(), 3);
    assert_eq!(groups[0].spans.len(), 1);
    assert_eq!(groups[1].spans.len(), 1);
    assert_eq!(groups[2].spans.len(), 2);
    assert_eq!(groups[2].spans[1].name, "z2");
}
