use fastly_compute_otel::init::{FastlyOtelBuilder, SDK_VERSION};
use fastly_compute_otel::model::{KeyValue, Value};
use fastly_compute_otel::propagation::request_id_attribute;

fn builder() -> FastlyOtelBuilder {
    FastlyOtelBuilder::new()
}

fn find(attrs: &[KeyValue], key: &str) -> Option<String> {
    attrs.iter().find(|kv| kv.key == key).map(|kv| match &kv.value {
        Value::String(s) => s.clone(),
        _ => panic!("not a string attribute"),
    })
}

#[test]
fn validate_fails_without_service_name() {
    let builder = builder().log_endpoint("otel");
    let err = builder.validate_preconditions().unwrap_err();
    assert!(err.message().contains("service_name"));
}

#[test]
fn validate_fails_without_any_endpoint() {
    let builder = builder().service_name("test-svc");
    let err = builder.validate_preconditions().unwrap_err();
    assert!(err.message().contains("endpoint"));
}

#[test]
fn validate_succeeds_with_log_endpoint() {
    let builder = builder().service_name("test-svc").log_endpoint("otel");
    assert!(builder.validate_preconditions().is_ok());
}

#[test]
fn validate_succeeds_with_trace_endpoint() {
    let builder = builder().service_name("test-svc").trace_endpoint("otel");
    assert!(builder.validate_preconditions().is_ok());
}

#[test]
fn validate_succeeds_with_both_endpoints() {
    let builder = builder()
        .service_name("test-svc")
        .log_endpoint("otel-logs")
        .trace_endpoint("otel-traces");
    assert!(builder.validate_preconditions().is_ok());
}

#[test]
fn build_resource_includes_all_standard_attributes() {
    let builder = builder()
        .service_name("test-svc")
        .service_namespace("my-team")
        .service_version("1.2.3")
        .deployment_environment("staging")
        .resource_attribute(KeyValue {
            key: "custom.attr".to_string(),
            value: Value::String("value".to_string()),
        });

    let attrs = builder.build_resource();

    // Required + explicit attributes
    assert_eq!(find(&attrs, "service.name").as_deref(), Some("test-svc"));
    assert_eq!(find(&attrs, "service.namespace").as_deref(), Some("my-team"));
    assert_eq!(find(&attrs, "service.version").as_deref(), Some("1.2.3"));
    assert_eq!(find(&attrs, "deployment.environment.name").as_deref(), Some("staging"));
    assert_eq!(find(&attrs, "custom.attr").as_deref(), Some("value"));

    // Auto-set telemetry SDK attributes
    assert_eq!(find(&attrs, "telemetry.sdk.name").as_deref(), Some("fastly-compute-otel"));
    assert_eq!(find(&attrs, "telemetry.sdk.version").as_deref(), Some("0.1.0"));
    assert_eq!(SDK_VERSION, "0.1.0");
    assert_eq!(find(&attrs, "telemetry.sdk.language").as_deref(), Some("rust"));
}

#[test]
fn build_resource_omits_optional_attributes_when_not_set() {
    let builder = builder().service_name("test-svc");

    let attrs = builder.build_resource();
    let has = |key: &str| attrs.iter().any(|kv| kv.key == key);

    // Always present
    assert!(has("service.name"));
    assert!(has("telemetry.sdk.name"));

    // Should NOT be present
    assert!(!has("service.namespace"));
    assert!(!has("service.version"));
    assert!(!has("deployment.environment.name"));
}

#[test]
fn fastly_request_id_returns_none_when_unset() {
    // Outside Fastly Compute the variable is unset.
    let result = request_id_attribute(None);
    assert!(result.is_none());
}

#[test]
fn build_resource_keeps_the_last_value_per_key() {
    let builder = FastlyOtelBuilder::new()
        .service_name("test-svc")
        .resource_attribute(KeyValue { key: "custom".to_string(), value: Value::String("one".to_string()) })
        .resource_attribute(KeyValue { key: "service.name".to_string(), value: Value::String("override".to_string()) })
        .resource_attribute(KeyValue { key: "custom".to_string(), value: Value::String("two".to_string()) });
    let attrs = builder.build_resource();
    let keys: Vec<&str> = attrs.iter().map(|kv| kv.key.as_str()).collect();
    assert_eq!(
        keys,
        vec!["service.name", "telemetry.sdk.name", "telemetry.sdk.version", "telemetry.sdk.language", "custom"]
    );
    let value = |key: &str| match &attrs.iter().find(|kv| kv.key == key).unwrap().value {
        Value::String(s) => s.clone(),
        _ => panic!("not a string"),
    };
    assert_eq!(value("service.name"), "override");
    assert_eq!(value("custom"), "two");
}
