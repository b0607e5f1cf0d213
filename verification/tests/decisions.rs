use fastly_compute_otel::init::{
    backend_span, first_shutdown_error, header_text, response_span_update, root_span,
    FastlyOtelBuilder,
};
use fastly_compute_otel::model::{KeyValue, SpanContext, SpanKind, Status, Value};
use fastly_compute_otel::propagation::request_id_attribute;
use fastly_compute_otel::{has_remote_span_context, FastlyOtelError};

fn string_value(kv: &KeyValue) -> &str {
    match &kv.value {
        Value::String(s) => s,
        _ => panic!("not a string attribute"),
    }
}

fn find<'a>(attrs: &'a [KeyValue], key: &str) -> Option<&'a str> {
    attrs.iter().find(|kv| kv.key == key).map(string_value)
}

// This scenario also runs in the Fastly runtime with the SDK (app/); here it checks
// the library's decisions in it.
#[test]
fn build_with_log_endpoint() {
    let plan = FastlyOtelBuilder::new()
        .service_name("integration-test")
        .log_endpoint("otel")
        .plan()
        .ok()
        .expect("build with log endpoint should succeed");
    assert!(plan.log_endpoint.is_some());
    assert!(plan.trace_endpoint.is_none());
}

// This scenario also runs in the Fastly runtime with the SDK (app/); here it checks
// the library's decisions in it.
#[test]
fn build_with_trace_endpoint() {
    let plan = FastlyOtelBuilder::new()
        .service_name("integration-test")
        .trace_endpoint("otel")
        .plan()
        .ok()
        .expect("build with trace endpoint should succeed");
    assert!(plan.trace_endpoint.is_some());
    assert!(plan.log_endpoint.is_none());
}

// This scenario also runs in the Fastly runtime with the SDK (app/); here it checks
// the library's decisions in it.
#[test]
fn build_with_shared_endpoint() {
    let plan = FastlyOtelBuilder::new()
        .service_name("integration-test")
        .endpoint("otel")
        .plan()
        .ok()
        .expect("build with shared endpoint should succeed");
    assert_eq!(plan.trace_endpoint.as_deref(), Some("otel"));
    assert_eq!(plan.log_endpoint.as_deref(), Some("otel"));
}

// This scenario also runs in the Fastly runtime with the SDK (app/); here it checks
// the library's decisions in it.
#[test]
fn build_with_custom_resource_attributes() {
    let plan = FastlyOtelBuilder::new()
        .service_name("integration-test")
        .service_namespace("test-team")
        .service_version("1.2.3")
        .deployment_environment("test")
        .resource_attribute(KeyValue {
            key: "custom.attr".to_string(),
            value: Value::String("value".to_string()),
        })
        .endpoint("otel")
        .plan()
        .ok()
        .expect("build with custom attributes should succeed");
    let keys: Vec<&str> = plan.resource.iter().map(|kv| kv.key.as_str()).collect();
    assert_eq!(
        keys,
        vec![
            "service.name",
            "telemetry.sdk.name",
            "telemetry.sdk.version",
            "telemetry.sdk.language",
            "service.namespace",
            "service.version",
            "deployment.environment.name",
            "custom.attr",
        ]
    );
}

#[test]
fn plan_fails_without_service_name_or_endpoint() {
    match FastlyOtelBuilder::new().endpoint("otel").plan() {
        Err(FastlyOtelError::Config(m)) => assert_eq!(m, "service_name is required"),
        _ => panic!("expected a configuration error"),
    }
    match FastlyOtelBuilder::new().service_name("svc").plan() {
        Err(e) => assert_eq!(
            e.message(),
            "at least one endpoint must be configured (log_endpoint or trace_endpoint)"
        ),
        Ok(_) => panic!("expected a configuration error"),
    }
}

#[test]
fn shared_endpoint_is_both_endpoints() {
    let a = FastlyOtelBuilder::new().service_name("s").endpoint("e").plan().ok().unwrap();
    let b = FastlyOtelBuilder::new()
        .service_name("s")
        .trace_endpoint("e")
        .log_endpoint("e")
        .plan()
        .ok()
        .unwrap();
    assert_eq!(a.trace_endpoint, b.trace_endpoint);
    assert_eq!(a.log_endpoint, b.log_endpoint);
}

// This scenario also runs in the Fastly runtime with the SDK (app/); here it checks
// the library's decisions in it.
#[test]
fn build_from_request_creates_root_span() {
    let start = root_span(
        "GET",
        "/test-path",
        Some(b"example.com".as_slice()),
        Some(b"integration-test/1.0".as_slice()),
        None,
        None,
    );
    assert_eq!(start.name, "GET");
    assert!(matches!(start.kind, SpanKind::Server));
    assert_eq!(find(&start.attributes, "http.request.method"), Some("GET"));
    assert_eq!(find(&start.attributes, "url.path"), Some("/test-path"));
    assert_eq!(find(&start.attributes, "server.address"), Some("example.com"));
    assert_eq!(find(&start.attributes, "user_agent.original"), Some("integration-test/1.0"));
    assert_eq!(find(&start.attributes, "client.address"), None);
}

#[test]
fn root_span_skips_non_utf8_headers_and_adds_request_id() {
    let rid = request_id_attribute(Some("abc123".to_string()));
    let start = root_span("POST", "/", Some(&[0xff, 0xfe][..]), None, Some(b"1.2.3.4".as_slice()), rid);
    assert_eq!(find(&start.attributes, "server.address"), None);
    assert_eq!(find(&start.attributes, "client.address"), Some("1.2.3.4"));
    assert_eq!(find(&start.attributes, "fastly.request_id"), Some("abc123"));
    assert_eq!(header_text(Some(&[0xc3, 0x28][..])), None);
    assert_eq!(header_text(Some("héllo".as_bytes())), Some("héllo".to_string()));
    assert_eq!(header_text(None), None);
}

#[test]
fn backend_span_attributes() {
    let start = backend_span("GET", "https://origin.example.com/api", "origin");
    assert_eq!(start.name, "backend origin");
    assert!(matches!(start.kind, SpanKind::Client));
    assert_eq!(find(&start.attributes, "url.full"), Some("https://origin.example.com/api"));
    assert_eq!(find(&start.attributes, "server.address"), Some("origin"));
}

// This scenario also runs in the Fastly runtime with the SDK (app/); here it checks
// the library's decisions in it.
#[test]
fn finish_records_status_and_shuts_down() {
    let (attribute, status) = response_span_update(200);
    assert_eq!(attribute.key, "http.response.status_code");
    assert!(matches!(attribute.value, Value::I64(200)));
    assert!(status.is_none());
    assert!(response_span_update(499).1.is_none());
}

// This scenario also runs in the Fastly runtime with the SDK (app/); here it checks
// the library's decisions in it.
#[test]
fn finish_marks_error_on_5xx() {
    match response_span_update(500).1 {
        Some(Status::Error { description }) => assert_eq!(description, "HTTP 500"),
        _ => panic!("expected an error status"),
    }
    match response_span_update(503).1 {
        Some(Status::Error { description }) => assert_eq!(description, "HTTP 503"),
        _ => panic!("expected an error status"),
    }
}

// This scenario also runs in the Fastly runtime with the SDK (app/); here it checks
// the library's decisions in it.
#[test]
fn finish_returns_response_even_after_double_shutdown() {
    let r: Result<(), &str> = first_shutdown_error(Some(Err("trace")), Some(Err("log")));
    assert_eq!(r, Err("trace"));
    let r: Result<(), &str> = first_shutdown_error(Some(Ok(())), Some(Err("log")));
    assert_eq!(r, Err("log"));
    let r: Result<(), &str> = first_shutdown_error(None, None);
    assert_eq!(r, Ok(()));
}

// This scenario also runs in the Fastly runtime with the SDK (app/); here it checks
// the library's decisions in it.
#[test]
fn fastly_request_id_in_viceroy() {
    let kv = request_id_attribute(Some("req-1".to_string())).expect("request id");
    assert_eq!(kv.key, "fastly.request_id");
    assert_eq!(string_value(&kv), "req-1");
    assert!(request_id_attribute(Some(String::new())).is_none());
}

#[test]
fn remote_span_context_detection() {
    let sc = |trace_id: u128, span_id: u64, is_remote: bool| SpanContext {
        trace_id,
        span_id,
        trace_flags: 1,
        is_remote,
        trace_state: String::new(),
    };
    assert!(has_remote_span_context(&sc(1, 1, true)));
    assert!(!has_remote_span_context(&sc(1, 1, false)));
    assert!(!has_remote_span_context(&sc(0, 1, true)));
    assert!(!has_remote_span_context(&sc(1, 0, true)));
}

#[test]
fn error_messages() {
    let e = FastlyOtelError::EndpointOpen { name: "x".to_string(), source: "gone".to_string() };
    assert_eq!(e.message(), "failed to open log endpoint 'x': gone");
    assert_eq!(FastlyOtelError::Config("service_name is required").message(), "service_name is required");
}
