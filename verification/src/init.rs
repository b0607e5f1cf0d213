//! Configuration of the OTel instance: the builder, its validation, the
//! resource it describes, and the span decisions taken per request.

use vstd::prelude::*;

use crate::model::{attributes_view, doubles_view, Double, KeyValue, SpanContext, SpanKind, Status, Value, ValueView};
use crate::text::{decimal, u128_to_decimal};
use crate::FastlyOtelError;
use vstd::utf8::{decode_utf8, valid_utf8};

verus! {

/// The name this library reports as `telemetry.sdk.name`.
pub const SDK_NAME: &'static str = "fastly-compute-otel";

/// The version this library reports as `telemetry.sdk.version`.
pub const SDK_VERSION: &'static str = "0.1.0";

/// The language this library reports as `telemetry.sdk.language`.
pub const SDK_LANGUAGE: &'static str = "rust";

/// The message of the error for a builder without a service name.
pub const MISSING_SERVICE_NAME: &'static str = "service_name is required";

/// The message of the error for a builder without any endpoint.
pub const MISSING_ENDPOINT: &'static str = "at least one endpoint must be configured (log_endpoint or trace_endpoint)";

/// Builder for the OTel instance.
///
/// At minimum, set a service name and at least one endpoint (log or trace).
#[derive(Debug)]
pub struct FastlyOtelBuilder {
    service_name: Option<String>,
    service_namespace: Option<String>,
    service_version: Option<String>,
    deployment_environment: Option<String>,
    resource_attributes: Vec<KeyValue>,
    trace_endpoint: Option<String>,
    log_endpoint: Option<String>,
}

/// The configuration a builder holds.
pub struct BuilderView {
    pub service_name: Option<Seq<char>>,
    pub service_namespace: Option<Seq<char>>,
    pub service_version: Option<Seq<char>>,
    pub deployment_environment: Option<Seq<char>>,
    pub resource_attributes: Seq<(Seq<char>, ValueView)>,
    pub trace_endpoint: Option<Seq<char>>,
    pub log_endpoint: Option<Seq<char>>,
}

impl View for FastlyOtelBuilder {
    type V = BuilderView;

    closed spec fn view(&self) -> BuilderView {
        BuilderView {
            service_name: self.service_name.deep_view(),
            service_namespace: self.service_namespace.deep_view(),
            service_version: self.service_version.deep_view(),
            deployment_environment: self.deployment_environment.deep_view(),
            resource_attributes: attributes_view(self.resource_attributes@),
            trace_endpoint: self.trace_endpoint.deep_view(),
            log_endpoint: self.log_endpoint.deep_view(),
        }
    }
}

/// The configuration with the trace endpoint set to `name`.
pub open spec fn with_trace_endpoint(b: BuilderView, name: Seq<char>) -> BuilderView {
    BuilderView { trace_endpoint: Some(name), ..b }
}

/// The configuration with the log endpoint set to `name`.
pub open spec fn with_log_endpoint(b: BuilderView, name: Seq<char>) -> BuilderView {
    BuilderView { log_endpoint: Some(name), ..b }
}

/// The configuration with both endpoints set to `name`.
pub open spec fn with_endpoint(b: BuilderView, name: Seq<char>) -> BuilderView {
    BuilderView { trace_endpoint: Some(name), log_endpoint: Some(name), ..b }
}

/// Setting the shared endpoint is the same as setting the trace endpoint
/// and the log endpoint to the same name, in either order.
pub proof fn lemma_endpoint_sets_both(b: BuilderView, name: Seq<char>)
    ensures
        with_endpoint(b, name) == with_log_endpoint(with_trace_endpoint(b, name), name),
        with_endpoint(b, name) == with_trace_endpoint(with_log_endpoint(b, name), name),
{
}

/// A configuration with a service name and the shared endpoint set passes validation.
pub proof fn lemma_endpoint_completes_configuration(b: BuilderView, service_name: Seq<char>, name: Seq<char>)
    ensures
        validation_result(with_endpoint(BuilderView { service_name: Some(service_name), ..b }, name)) is None,
{
}

/// A string attribute.
pub open spec fn string_attribute(key: Seq<char>, value: Seq<char>) -> (Seq<char>, ValueView) {
    (key, ValueView::Str(value))
}

/// An optional string attribute: present only for `Some`.
pub open spec fn opt_string_attribute(key: Seq<char>, value: Option<Seq<char>>) -> Seq<(Seq<char>, ValueView)> {
    match value {
        Some(v) => seq![string_attribute(key, v)],
        None => seq![],
    }
}

/// The resource attributes a configuration describes: the service name and
/// the SDK name, version and language, then the namespace, version and
/// deployment environment where they are set, then the custom attributes in
/// the order they were added.
pub open spec fn resource_attributes_of(b: BuilderView, service_name: Seq<char>) -> Seq<(Seq<char>, ValueView)> {
    seq![
        string_attribute("service.name"@, service_name),
        string_attribute("telemetry.sdk.name"@, SDK_NAME@),
        string_attribute("telemetry.sdk.version"@, SDK_VERSION@),
        string_attribute("telemetry.sdk.language"@, SDK_LANGUAGE@),
    ] + opt_string_attribute("service.namespace"@, b.service_namespace)
        + opt_string_attribute("service.version"@, b.service_version)
        + opt_string_attribute("deployment.environment.name"@, b.deployment_environment)
        + b.resource_attributes
}

/// A configuration is complete when it names the service and at least one endpoint.
pub open spec fn validation_result(b: BuilderView) -> Option<Seq<char>> {
    if b.service_name is None {
        Some(MISSING_SERVICE_NAME@)
    } else if b.trace_endpoint is None && b.log_endpoint is None {
        Some(MISSING_ENDPOINT@)
    } else {
        None
    }
}

/// What building the instance needs: the resource and the endpoints of the
/// signals to export.
#[derive(Debug)]
pub struct BuildPlan {
    pub resource: Vec<KeyValue>,
    pub trace_endpoint: Option<String>,
    pub log_endpoint: Option<String>,
}

fn string_kv(key: &str, value: &str) -> (r: KeyValue)
    ensures
        r@ == string_attribute(key@, value@),
{
    KeyValue { key: key.to_owned(), value: Value::String(value.to_owned()) }
}

fn copy_opt(o: &Option<String>) -> (r: Option<String>)
    ensures
        r.deep_view() == o.deep_view(),
{
    match o {
        Some(s) => Some(s.clone()),
        None => None,
    }
}

fn copy_value(v: &Value) -> (r: Value)
    ensures
        r@ == v@,
{
    match v {
        Value::Bool(b) => Value::Bool(*b),
        Value::I64(i) => Value::I64(*i),
        Value::F64(d) => Value::F64(copy_double(d)),
        Value::String(s) => Value::String(s.clone()),
        Value::Array(crate::model::Array::Bool(v)) => Value::Array(crate::model::Array::Bool(v.clone())),
        Value::Array(crate::model::Array::I64(v)) => Value::Array(crate::model::Array::I64(v.clone())),
        Value::Array(crate::model::Array::F64(v)) => {
            let c = copy_doubles(v);
            Value::Array(crate::model::Array::F64(c))
        },
        Value::Array(crate::model::Array::String(v)) => {
            let c = copy_strings(v);
            Value::Array(crate::model::Array::String(c))
        },
    }
}

fn copy_double(d: &Double) -> (r: Double)
    ensures
        r@ == d@,
{
    Double { bits: d.bits, json: d.json.clone() }
}

fn copy_doubles(v: &Vec<Double>) -> (r: Vec<Double>)
    ensures
        doubles_view(r@) == doubles_view(v@),
{
    let mut r: Vec<Double> = Vec::new();
    let mut i: usize = 0;
    while i < v.len()
        invariant
            i <= v@.len(),
            r@.len() == i,
            forall|k: int| 0 <= k < i ==> r@[k]@ == v@[k]@,
        decreases v@.len() - i,
    {
        r.push(copy_double(&v[i]));
        i = i + 1;
    }
    proof { assert(doubles_view(r@) =~= doubles_view(v@)); }
    r
}

fn copy_strings(v: &Vec<String>) -> (r: Vec<String>)
    ensures
        r.deep_view() == v.deep_view(),
{
    let mut r: Vec<String> = Vec::new();
    let mut i: usize = 0;
    while i < v.len()
        invariant
            i <= v@.len(),
            r@.len() == i,
            forall|k: int| 0 <= k < i ==> r@[k]@ == v@[k]@,
        decreases v@.len() - i,
    {
        r.push(v[i].clone());
        i = i + 1;
    }
    proof { assert(r.deep_view() =~= v.deep_view()); }
    r
}

/// Some entry of `attrs` has the key `k`.
pub open spec fn has_key(attrs: Seq<(Seq<char>, ValueView)>, k: Seq<char>) -> bool {
    exists|j: int| 0 <= j < attrs.len() && (#[trigger] attrs[j]).0 == k
}

/// The attributes with one entry per key, in the order in which the keys
/// first appear, each entry holding the last value given for its key.
pub open spec fn merge_by_key(attrs: Seq<(Seq<char>, ValueView)>) -> Seq<(Seq<char>, ValueView)>
    decreases attrs.len(),
{
    if attrs.len() == 0 {
        seq![]
    } else {
        let rest = merge_by_key(attrs.drop_last());
        let kv = attrs.last();
        if has_key(rest, kv.0) {
            rest.update(choose|j: int| 0 <= j < rest.len() && (#[trigger] rest[j]).0 == kv.0, kv)
        } else {
            rest.push(kv)
        }
    }
}

/// The last value that `attrs` gives the key `k`, if any.
pub open spec fn last_value_of(attrs: Seq<(Seq<char>, ValueView)>, k: Seq<char>) -> Option<ValueView>
    decreases attrs.len(),
{
    if attrs.len() == 0 {
        None
    } else if attrs.last().0 == k {
        Some(attrs.last().1)
    } else {
        last_value_of(attrs.drop_last(), k)
    }
}

/// Keys occur at most once.
pub open spec fn distinct_keys(attrs: Seq<(Seq<char>, ValueView)>) -> bool {
    forall|i: int, j: int| 0 <= i < j < attrs.len() ==> (#[trigger] attrs[i]).0 != (#[trigger] attrs[j]).0
}

/// Merging by key keeps one entry per key, for exactly the keys given, each
/// with the last value given for it.
pub proof fn lemma_merge_by_key(attrs: Seq<(Seq<char>, ValueView)>)
    ensures
        distinct_keys(merge_by_key(attrs)),
        forall|i: int|
            0 <= i < merge_by_key(attrs).len() ==> last_value_of(attrs, (#[trigger] merge_by_key(attrs)[i]).0)
                == Some(merge_by_key(attrs)[i].1),
        forall|k: Seq<char>| #[trigger] has_key(merge_by_key(attrs), k) <==> last_value_of(attrs, k) is Some,
    decreases attrs.len(),
{
    if attrs.len() > 0 {
        let p = attrs.drop_last();
        let rest = merge_by_key(p);
        let kv = attrs.last();
        lemma_merge_by_key(p);
        let m = merge_by_key(attrs);
        if has_key(rest, kv.0) {
            let j0 = choose|j: int| 0 <= j < rest.len() && (#[trigger] rest[j]).0 == kv.0;
            assert(m == rest.update(j0, kv));
            assert forall|i: int, j: int| 0 <= i < j < m.len() implies (#[trigger] m[i]).0 != (#[trigger] m[j]).0 by {
                assert(m[i].0 == rest[i].0);
                assert(m[j].0 == rest[j].0);
            }
            assert forall|i: int| 0 <= i < m.len() implies last_value_of(attrs, (#[trigger] m[i]).0) == Some(m[i].1) by {
                if i != j0 {
                    assert(m[i] == rest[i]);
                    assert(rest[i].0 != rest[j0].0);
                }
            }
            assert forall|k: Seq<char>| #[trigger] has_key(m, k) <==> last_value_of(attrs, k) is Some by {
                if has_key(m, k) {
                    let j = choose|j: int| 0 <= j < m.len() && (#[trigger] m[j]).0 == k;
                    assert(m[j].0 == rest[j].0);
                    if k != kv.0 {
                        assert(has_key(rest, k));
                    }
                }
                if last_value_of(attrs, k) is Some {
                    if k == kv.0 {
                        assert(m[j0].0 == k);
                    } else {
                        assert(has_key(rest, k));
                        let j = choose|j: int| 0 <= j < rest.len() && (#[trigger] rest[j]).0 == k;
                        assert(m[j].0 == rest[j].0);
                    }
                }
            }
        } else {
            assert(m == rest.push(kv));
            assert forall|i: int, j: int| 0 <= i < j < m.len() implies (#[trigger] m[i]).0 != (#[trigger] m[j]).0 by {
                if j == rest.len() {
                    assert(m[i] == rest[i]);
                    if rest[i].0 == kv.0 {
                        assert(has_key(rest, kv.0));
                    }
                } else {
                    assert(m[i] == rest[i]);
                    assert(m[j] == rest[j]);
                }
            }
            assert forall|i: int| 0 <= i < m.len() implies last_value_of(attrs, (#[trigger] m[i]).0) == Some(m[i].1) by {
                if i < rest.len() {
                    assert(m[i] == rest[i]);
                    if rest[i].0 == kv.0 {
                        assert(has_key(rest, kv.0));
                    }
                }
            }
            assert forall|k: Seq<char>| #[trigger] has_key(m, k) <==> last_value_of(attrs, k) is Some by {
                if has_key(m, k) {
                    let j = choose|j: int| 0 <= j < m.len() && (#[trigger] m[j]).0 == k;
                    if j < rest.len() {
                        assert(m[j] == rest[j]);
                        assert(has_key(rest, k));
                    }
                }
                if last_value_of(attrs, k) is Some {
                    if k == kv.0 {
                        assert(m[rest.len() as int].0 == k);
                    } else {
                        assert(has_key(rest, k));
                        let j = choose|j: int| 0 <= j < rest.len() && (#[trigger] rest[j]).0 == k;
                        assert(m[j] == rest[j]);
                    }
                }
            }
        }
    }
}

proof fn lemma_last_value_concat(a: Seq<(Seq<char>, ValueView)>, b: Seq<(Seq<char>, ValueView)>, k: Seq<char>)
    ensures
        last_value_of(a + b, k) == (if last_value_of(b, k) is Some {
            last_value_of(b, k)
        } else {
            last_value_of(a, k)
        }),
    decreases b.len(),
{
    if b.len() == 0 {
        assert(a + b =~= a);
    } else {
        assert((a + b).drop_last() =~= a + b.drop_last());
        assert((a + b).last() == b.last());
        lemma_last_value_concat(a, b.drop_last(), k);
    }
}

proof fn lemma_last_value_push(a: Seq<(Seq<char>, ValueView)>, e: (Seq<char>, ValueView), k: Seq<char>)
    ensures
        last_value_of(a.push(e), k) == (if e.0 == k {
            Some(e.1)
        } else {
            last_value_of(a, k)
        }),
{
    assert(a.push(e).drop_last() =~= a);
}

/// The merged attributes hold the key `k` with the value `v`.
pub open spec fn holds_entry(m: Seq<(Seq<char>, ValueView)>, k: Seq<char>, v: ValueView) -> bool {
    &&& has_key(m, k)
    &&& forall|i: int| 0 <= i < m.len() && (#[trigger] m[i]).0 == k ==> m[i].1 == v
}

/// The value an optional string setting gives its attribute.
pub open spec fn setting(o: Option<Seq<char>>) -> Option<ValueView> {
    match o {
        Some(v) => Some(ValueView::Str(v)),
        None => None,
    }
}

proof fn lemma_merged_entry(r: Seq<(Seq<char>, ValueView)>, k: Seq<char>)
    ensures
        last_value_of(r, k) matches Some(v) ==> holds_entry(merge_by_key(r), k, v),
        last_value_of(r, k) is None ==> !has_key(merge_by_key(r), k),
{
    lemma_merge_by_key(r);
    let m = merge_by_key(r);
    if last_value_of(r, k) is Some {
        assert(has_key(m, k));
        assert forall|i: int| 0 <= i < m.len() && (#[trigger] m[i]).0 == k implies m[i].1
            == last_value_of(r, k)->0 by {
            assert(last_value_of(r, m[i].0) == Some(m[i].1));
        }
    }
}

/// The resource a configuration describes holds each setting, whatever else
/// is set: the service name and the SDK name, version and language always;
/// the namespace, version and deployment environment exactly when they are
/// set, with the values set; and every custom attribute, whose last value
/// for a key replaces whatever the settings give that key.
pub proof fn lemma_resource_settings(b: BuilderView, n: Seq<char>)
    ensures
        ({
            let m = merge_by_key(resource_attributes_of(b, n));
            let c = b.resource_attributes;
            &&& forall|k: Seq<char>|
                #[trigger] last_value_of(c, k) is Some ==> holds_entry(m, k, last_value_of(c, k)->0)
            &&& last_value_of(c, "service.name"@) is None ==> holds_entry(m, "service.name"@, ValueView::Str(n))
            &&& last_value_of(c, "telemetry.sdk.name"@) is None ==> holds_entry(
                m,
                "telemetry.sdk.name"@,
                ValueView::Str(SDK_NAME@),
            )
            &&& last_value_of(c, "telemetry.sdk.version"@) is None ==> holds_entry(
                m,
                "telemetry.sdk.version"@,
                ValueView::Str(SDK_VERSION@),
            )
            &&& last_value_of(c, "telemetry.sdk.language"@) is None ==> holds_entry(
                m,
                "telemetry.sdk.language"@,
                ValueView::Str(SDK_LANGUAGE@),
            )
            &&& last_value_of(c, "service.namespace"@) is None ==> (match b.service_namespace {
                Some(v) => holds_entry(m, "service.namespace"@, ValueView::Str(v)),
                None => !has_key(m, "service.namespace"@),
            })
            &&& last_value_of(c, "service.version"@) is None ==> (match b.service_version {
                Some(v) => holds_entry(m, "service.version"@, ValueView::Str(v)),
                None => !has_key(m, "service.version"@),
            })
            &&& last_value_of(c, "deployment.environment.name"@) is None ==> (match b.deployment_environment {
                Some(v) => holds_entry(m, "deployment.environment.name"@, ValueView::Str(v)),
                None => !has_key(m, "deployment.environment.name"@),
            })
        }),
{
    reveal_strlit("service.name");
    reveal_strlit("telemetry.sdk.name");
    reveal_strlit("telemetry.sdk.version");
    reveal_strlit("telemetry.sdk.language");
    reveal_strlit("service.namespace");
    reveal_strlit("service.version");
    reveal_strlit("deployment.environment.name");
    let c = b.resource_attributes;
    let base = seq![
        string_attribute("service.name"@, n),
        string_attribute("telemetry.sdk.name"@, SDK_NAME@),
        string_attribute("telemetry.sdk.version"@, SDK_VERSION@),
        string_attribute("telemetry.sdk.language"@, SDK_LANGUAGE@),
    ];
    let ns = opt_string_attribute("service.namespace"@, b.service_namespace);
    let ver = opt_string_attribute("service.version"@, b.service_version);
    let env = opt_string_attribute("deployment.environment.name"@, b.deployment_environment);
    let r = resource_attributes_of(b, n);
    assert(r == base + ns + ver + env + c);
    assert forall|k: Seq<char>| true implies {
        &&& last_value_of(r, k) == (if last_value_of(c, k) is Some {
            last_value_of(c, k)
        } else if last_value_of(env, k) is Some {
            last_value_of(env, k)
        } else if last_value_of(ver, k) is Some {
            last_value_of(ver, k)
        } else if last_value_of(ns, k) is Some {
            last_value_of(ns, k)
        } else {
            last_value_of(base, k)
        })
    } by {
        lemma_last_value_concat(base + ns + ver + env, c, k);
        lemma_last_value_concat(base + ns + ver, env, k);
        lemma_last_value_concat(base + ns, ver, k);
        lemma_last_value_concat(base, ns, k);
    }
    let e = Seq::<(Seq<char>, ValueView)>::empty();
    assert forall|k: Seq<char>| true implies #[trigger] last_value_of(ns, k) == (if k == "service.namespace"@ {
        setting(b.service_namespace)
    } else {
        None
    }) && last_value_of(ver, k) == (if k == "service.version"@ {
        setting(b.service_version)
    } else {
        None
    }) && last_value_of(env, k) == (if k == "deployment.environment.name"@ {
        setting(b.deployment_environment)
    } else {
        None
    }) by {
        if let Some(v) = b.service_namespace {
            assert(ns =~= e.push(string_attribute("service.namespace"@, v)));
            lemma_last_value_push(e, string_attribute("service.namespace"@, v), k);
        }
        if let Some(v) = b.service_version {
            assert(ver =~= e.push(string_attribute("service.version"@, v)));
            lemma_last_value_push(e, string_attribute("service.version"@, v), k);
        }
        if let Some(v) = b.deployment_environment {
            assert(env =~= e.push(string_attribute("deployment.environment.name"@, v)));
            lemma_last_value_push(e, string_attribute("deployment.environment.name"@, v), k);
        }
    }
    assert(base =~= e.push(base[0]).push(base[1]).push(base[2]).push(base[3]));
    assert forall|k: Seq<char>| true implies #[trigger] last_value_of(base, k) == (if k == base[3].0 {
        Some(base[3].1)
    } else if k == base[2].0 {
        Some(base[2].1)
    } else if k == base[1].0 {
        Some(base[1].1)
    } else if k == base[0].0 {
        Some(base[0].1)
    } else {
        None
    }) by {
        lemma_last_value_push(e.push(base[0]).push(base[1]).push(base[2]), base[3], k);
        lemma_last_value_push(e.push(base[0]).push(base[1]), base[2], k);
        lemma_last_value_push(e.push(base[0]), base[1], k);
        lemma_last_value_push(e, base[0], k);
    }
    assert(base[0] == string_attribute("service.name"@, n));
    assert(base[1] == string_attribute("telemetry.sdk.name"@, SDK_NAME@));
    assert(base[2] == string_attribute("telemetry.sdk.version"@, SDK_VERSION@));
    assert(base[3] == string_attribute("telemetry.sdk.language"@, SDK_LANGUAGE@));
    assert("service.name"@.len() == 12 && "telemetry.sdk.name"@.len() == 18 && "telemetry.sdk.version"@.len()
        == 21 && "telemetry.sdk.language"@.len() == 22 && "service.namespace"@.len() == 17
        && "service.version"@.len() == 15 && "deployment.environment.name"@.len() == 27);
    assert(last_value_of(base, "service.name"@) == Some(ValueView::Str(n)));
    assert(last_value_of(base, "telemetry.sdk.name"@) == Some(ValueView::Str(SDK_NAME@)));
    assert(last_value_of(base, "telemetry.sdk.version"@) == Some(ValueView::Str(SDK_VERSION@)));
    assert(last_value_of(base, "telemetry.sdk.language"@) == Some(ValueView::Str(SDK_LANGUAGE@)));
    assert(last_value_of(base, "service.namespace"@) is None);
    assert(last_value_of(base, "service.version"@) is None);
    assert(last_value_of(base, "deployment.environment.name"@) is None);
    assert forall|k: Seq<char>| #[trigger] last_value_of(c, k) is Some implies holds_entry(
        merge_by_key(r),
        k,
        last_value_of(c, k)->0,
    ) by {
        lemma_merged_entry(r, k);
    }
    lemma_merged_entry(r, "service.name"@);
    lemma_merged_entry(r, "telemetry.sdk.name"@);
    lemma_merged_entry(r, "telemetry.sdk.version"@);
    lemma_merged_entry(r, "telemetry.sdk.language"@);
    lemma_merged_entry(r, "service.namespace"@);
    lemma_merged_entry(r, "service.version"@);
    lemma_merged_entry(r, "deployment.environment.name"@);
}

/// Merge attributes by key: one entry per key, in the order in which the
/// keys first appear, each with the last value given for it.
pub fn merge_attributes(attrs: &Vec<KeyValue>) -> (r: Vec<KeyValue>)
    ensures
        attributes_view(r@) == merge_by_key(attributes_view(attrs@)),
{
    let mut out: Vec<KeyValue> = Vec::new();
    let mut i: usize = 0;
    proof { assert(attributes_view(out@) =~= merge_by_key(attributes_view(attrs@.take(0)))); }
    while i < attrs.len()
        invariant
            i <= attrs@.len(),
            attributes_view(out@) == merge_by_key(attributes_view(attrs@.take(i as int))),
        decreases attrs@.len() - i,
    {
        let ghost t = attributes_view(attrs@.take(i + 1));
        let ghost prev = attributes_view(attrs@.take(i as int));
        let ghost ov = attributes_view(out@);
        proof {
            assert(attrs@.take(i + 1).drop_last() =~= attrs@.take(i as int));
            assert(t.drop_last() =~= prev);
            assert(t.last() == attrs@[i as int]@);
            lemma_merge_by_key(prev);
        }
        let kv = KeyValue { key: attrs[i].key.clone(), value: copy_value(&attrs[i].value) };
        let mut j: usize = 0;
        let mut found = false;
        while j < out.len()
            invariant
                j <= out@.len(),
                ov == attributes_view(out@),
                kv.key@ == attrs@[i as int].key@,
                !found ==> forall|u: int| 0 <= u < j ==> (#[trigger] ov[u]).0 != kv.key@,
                found ==> j < out@.len() && ov[j as int].0 == kv.key@,
            ensures
                !found ==> forall|u: int| 0 <= u < out@.len() ==> (#[trigger] ov[u]).0 != kv.key@,
                found ==> j < out@.len() && ov[j as int].0 == kv.key@,
            decreases out@.len() - j + if found { 0int } else { 1int },
        {
            if out[j].key == kv.key {
                found = true;
                break;
            }
            j = j + 1;
        }
        if found {
            let ghost kvv = kv@;
            out.set(j, kv);
            proof {
                assert(has_key(ov, kvv.0));
                let j0 = choose|u: int| 0 <= u < ov.len() && (#[trigger] ov[u]).0 == kvv.0;
                assert(j0 == j) by {
                    if j0 != j as int {
                        if j0 < j {
                            assert(ov[j0].0 != ov[j as int].0);
                        } else {
                            assert(ov[j as int].0 != ov[j0].0);
                        }
                    }
                }
                assert(attributes_view(out@) =~= ov.update(j as int, kvv));
            }
        } else {
            let ghost kvv = kv@;
            out.push(kv);
            proof {
                assert(!has_key(ov, kvv.0));
                assert(attributes_view(out@) =~= ov.push(kvv));
            }
        }
        i = i + 1;
    }
    proof { assert(attrs@.take(attrs@.len() as int) =~= attrs@); }
    out
}

impl FastlyOtelBuilder {
    /// A builder with nothing configured.
    pub fn new() -> (r: Self)
        ensures
            r@.service_name is None,
            r@.service_namespace is None,
            r@.service_version is None,
            r@.deployment_environment is None,
            r@.resource_attributes == Seq::<(Seq<char>, ValueView)>::empty(),
            r@.trace_endpoint is None,
            r@.log_endpoint is None,
    {
        let r = FastlyOtelBuilder {
            service_name: None,
            service_namespace: None,
            service_version: None,
            deployment_environment: None,
            resource_attributes: Vec::new(),
            trace_endpoint: None,
            log_endpoint: None,
        };
        proof { assert(attributes_view(r.resource_attributes@) =~= Seq::empty()); }
        r
    }

    /// Set the `service.name` resource attribute (required).
    pub fn service_name(self, name: &str) -> (r: Self)
        ensures
            r@ == (BuilderView { service_name: Some(name@), ..self@ }),
    {
        FastlyOtelBuilder { service_name: Some(name.to_owned()), ..self }
    }

    /// Set the `service.namespace` resource attribute: a namespace that
    /// groups related services.
    pub fn service_namespace(self, namespace: &str) -> (r: Self)
        ensures
            r@ == (BuilderView { service_namespace: Some(namespace@), ..self@ }),
    {
        FastlyOtelBuilder { service_namespace: Some(namespace.to_owned()), ..self }
    }

    /// Set the `service.version` resource attribute.
    pub fn service_version(self, version: &str) -> (r: Self)
        ensures
            r@ == (BuilderView { service_version: Some(version@), ..self@ }),
    {
        FastlyOtelBuilder { service_version: Some(version.to_owned()), ..self }
    }

    /// Set the `deployment.environment.name` resource attribute.
    pub fn deployment_environment(self, environment: &str) -> (r: Self)
        ensures
            r@ == (BuilderView { deployment_environment: Some(environment@), ..self@ }),
    {
        FastlyOtelBuilder { deployment_environment: Some(environment.to_owned()), ..self }
    }

    /// Add a custom resource attribute.
    pub fn resource_attribute(self, kv: KeyValue) -> (r: Self)
        ensures
            r@ == (BuilderView { resource_attributes: self@.resource_attributes.push(kv@), ..self@ }),
    {
        let ghost old_attrs = self.resource_attributes@;
        let mut s = self;
        s.resource_attributes.push(kv);
        proof {
            assert(attributes_view(s.resource_attributes@) =~= attributes_view(old_attrs).push(kv@));
        }
        s
    }

    /// Set a single named log endpoint for both signals (traces and logs).
    pub fn endpoint(self, name: &str) -> (r: Self)
        ensures
            r@ == with_endpoint(self@, name@),
    {
        FastlyOtelBuilder {
            trace_endpoint: Some(name.to_owned()),
            log_endpoint: Some(name.to_owned()),
            ..self
        }
    }

    /// Set the named log endpoint for trace export; this enables trace export.
    pub fn trace_endpoint(self, name: &str) -> (r: Self)
        ensures
            r@ == with_trace_endpoint(self@, name@),
    {
        FastlyOtelBuilder { trace_endpoint: Some(name.to_owned()), ..self }
    }

    /// Set the named log endpoint for log export; this enables log export.
    pub fn log_endpoint(self, name: &str) -> (r: Self)
        ensures
            r@ == with_log_endpoint(self@, name@),
    {
        FastlyOtelBuilder { log_endpoint: Some(name.to_owned()), ..self }
    }

    /// Check that the builder has the minimum required configuration: a
    /// service name, and at least one endpoint.
    pub fn validate_preconditions(&self) -> (r: Result<(), FastlyOtelError>)
        ensures
            match validation_result(self@) {
                None => r is Ok,
                Some(m) => r matches Err(FastlyOtelError::Config(t)) && t@ == m,
            },
    {
        if self.service_name.is_none() {
            return Err(FastlyOtelError::Config(MISSING_SERVICE_NAME));
        }
        let has_endpoint = self.trace_endpoint.is_some() || self.log_endpoint.is_some();
        if !has_endpoint {
            return Err(FastlyOtelError::Config(MISSING_ENDPOINT));
        }
        Ok(())
    }

    /// The resource attributes of the configuration, in the order they are
    /// given, repeated keys included (a service name must be set).
    fn resource_attribute_list(&self) -> (r: Vec<KeyValue>)
        requires
            self@.service_name is Some,
        ensures
            attributes_view(r@) == resource_attributes_of(self@, self@.service_name->0),
    {
        let mut attrs: Vec<KeyValue> = Vec::new();
        let name = match &self.service_name {
            Some(n) => n.as_str(),
            None => "",
        };
        attrs.push(string_kv("service.name", name));
        attrs.push(string_kv("telemetry.sdk.name", SDK_NAME));
        attrs.push(string_kv("telemetry.sdk.version", SDK_VERSION));
        attrs.push(string_kv("telemetry.sdk.language", SDK_LANGUAGE));
        let ghost base = attributes_view(attrs@);
        proof {
            assert(base =~= seq![
                string_attribute("service.name"@, self@.service_name->0),
                string_attribute("telemetry.sdk.name"@, SDK_NAME@),
                string_attribute("telemetry.sdk.version"@, SDK_VERSION@),
                string_attribute("telemetry.sdk.language"@, SDK_LANGUAGE@),
            ]);
        }
        let ghost a0 = attributes_view(attrs@);
        if let Some(namespace) = &self.service_namespace {
            attrs.push(string_kv("service.namespace", namespace.as_str()));
        }
        proof {
            assert(attributes_view(attrs@) =~= a0 + opt_string_attribute("service.namespace"@, self@.service_namespace));
        }
        let ghost a1 = attributes_view(attrs@);
        if let Some(version) = &self.service_version {
            attrs.push(string_kv("service.version", version.as_str()));
        }
        proof {
            assert(attributes_view(attrs@) =~= a1 + opt_string_attribute("service.version"@, self@.service_version));
        }
        let ghost a2 = attributes_view(attrs@);
        if let Some(environment) = &self.deployment_environment {
            attrs.push(string_kv("deployment.environment.name", environment.as_str()));
        }
        proof {
            assert(attributes_view(attrs@) =~= a2 + opt_string_attribute(
                "deployment.environment.name"@,
                self@.deployment_environment,
            ));
        }
        let ghost a3 = attributes_view(attrs@);
        let mut i: usize = 0;
        while i < self.resource_attributes.len()
            invariant
                i <= self.resource_attributes@.len(),
                attributes_view(attrs@) == a3 + attributes_view(self.resource_attributes@.take(i as int)),
            decreases self.resource_attributes@.len() - i,
        {
            let kv = &self.resource_attributes[i];
            let c = KeyValue { key: kv.key.clone(), value: copy_value(&kv.value) };
            let ghost before = attributes_view(attrs@);
            attrs.push(c);
            proof {
                assert(attributes_view(attrs@) =~= before.push(kv@));
                assert(attributes_view(self.resource_attributes@.take(i + 1)) =~= attributes_view(
                    self.resource_attributes@.take(i as int),
                ).push(kv@));
            }
            i = i + 1;
        }
        proof {
            assert(self.resource_attributes@.take(self.resource_attributes@.len() as int)
                =~= self.resource_attributes@);
            assert(attributes_view(attrs@) =~= resource_attributes_of(self@, self@.service_name->0));
        }
        attrs
    }

    /// The resource of the configuration (a service name must be set): its
    /// attributes merged by key as the SDK's resource merges them, so that a
    /// later attribute replaces an earlier one with the same key.
    pub fn build_resource(&self) -> (r: Vec<KeyValue>)
        requires
            self@.service_name is Some,
        ensures
            attributes_view(r@) == merge_by_key(resource_attributes_of(self@, self@.service_name->0)),
    {
        let list = self.resource_attribute_list();
        merge_attributes(&list)
    }

    /// Validate the configuration and work out what to build: the resource
    /// and the endpoint of each signal to export.
    pub fn plan(self) -> (r: Result<BuildPlan, FastlyOtelError>)
        ensures
            match validation_result(self@) {
                None => r matches Ok(p) && self@.service_name is Some && attributes_view(p.resource@)
                    == merge_by_key(resource_attributes_of(self@, self@.service_name->0)) && p.trace_endpoint.deep_view()
                    == self@.trace_endpoint && p.log_endpoint.deep_view() == self@.log_endpoint,
                Some(m) => r matches Err(FastlyOtelError::Config(t)) && t@ == m,
            },
    {
        match self.validate_preconditions() {
            Err(e) => Err(e),
            Ok(()) => {
                let resource = self.build_resource();
                Ok(
                    BuildPlan {
                        resource,
                        trace_endpoint: copy_opt(&self.trace_endpoint),
                        log_endpoint: copy_opt(&self.log_endpoint),
                    },
                )
            },
        }
    }
}

/// The name, kind and attributes of a span about to be started.
#[derive(Debug)]
pub struct SpanStart {
    pub name: String,
    pub kind: SpanKind,
    pub attributes: Vec<KeyValue>,
}

/// The span for a backend request: named `backend <backend>`, of kind
/// client, with the request method, the full URL and the backend as
/// `server.address`.
pub fn backend_span(method: &str, url: &str, backend: &str) -> (r: SpanStart)
    ensures
        r.name@ == "backend "@ + backend@,
        r.kind == SpanKind::Client,
        attributes_view(r.attributes@) == seq![
            string_attribute("http.request.method"@, method@),
            string_attribute("url.full"@, url@),
            string_attribute("server.address"@, backend@),
        ],
{
    let mut name = String::new();
    name.append("backend ");
    name.append(backend);
    let mut attributes: Vec<KeyValue> = Vec::new();
    attributes.push(string_kv("http.request.method", method));
    attributes.push(string_kv("url.full", url));
    attributes.push(string_kv("server.address", backend));
    proof {
        assert(attributes_view(attributes@) =~= seq![
            string_attribute("http.request.method"@, method@),
            string_attribute("url.full"@, url@),
            string_attribute("server.address"@, backend@),
        ]);
    }
    SpanStart { name, kind: SpanKind::Client, attributes }
}

/// Calls `std::str::from_utf8`, which is documented to succeed exactly on
/// valid UTF-8; the text is then the decoding of the bytes.
#[verifier::external_body]
fn str_from_utf8(bytes: &[u8]) -> (r: Option<&str>)
    ensures
        r is Some <==> valid_utf8(bytes@),
        r matches Some(s) ==> s@ == decode_utf8(bytes@),
{
    std::str::from_utf8(bytes).ok()
}

/// A header value as text: `None` when the header is absent or is not valid UTF-8.
pub fn header_text(value: Option<&[u8]>) -> (r: Option<String>)
    ensures
        r.deep_view() == match value {
            Some(b) => if valid_utf8(b@) {
                Some(decode_utf8(b@))
            } else {
                None
            },
            None => None,
        },
{
    match value {
        Some(b) => match str_from_utf8(b) {
            Some(s) => Some(s.to_owned()),
            None => None,
        },
        None => None,
    }
}

/// An attribute holding a header's text, present only when the header is
/// present and valid UTF-8.
pub open spec fn header_attribute(key: Seq<char>, value: Option<Seq<u8>>) -> Seq<(Seq<char>, ValueView)> {
    match value {
        Some(b) => if valid_utf8(b) {
            seq![string_attribute(key, decode_utf8(b))]
        } else {
            seq![]
        },
        None => seq![],
    }
}

/// The bytes of an optional header value.
pub open spec fn header_bytes(value: Option<&[u8]>) -> Option<Seq<u8>> {
    match value {
        Some(b) => Some(b@),
        None => None,
    }
}

fn push_header_attribute(attrs: &mut Vec<KeyValue>, key: &str, value: Option<&[u8]>)
    ensures
        attributes_view(final(attrs)@) == attributes_view(old(attrs)@) + header_attribute(
            key@,
            header_bytes(value),
        ),
{
    let ghost before = attributes_view(attrs@);
    match header_text(value) {
        Some(t) => attrs.push(string_kv(key, t.as_str())),
        None => {},
    }
    proof {
        assert(attributes_view(attrs@) =~= before + header_attribute(key@, header_bytes(value)));
    }
}

/// The root span of an incoming request: named by the method alone (to
/// keep span names of low cardinality), of kind server, with the method and
/// path, then the `host`, `user-agent` and `fastly-client-ip` headers where
/// they are present and valid UTF-8, then the Fastly request id where known.
pub fn root_span(
    method: &str,
    path: &str,
    host: Option<&[u8]>,
    user_agent: Option<&[u8]>,
    client_ip: Option<&[u8]>,
    request_id: Option<KeyValue>,
) -> (r: SpanStart)
    ensures
        r.name@ == method@,
        r.kind == SpanKind::Server,
        attributes_view(r.attributes@) == seq![
            string_attribute("http.request.method"@, method@),
            string_attribute("url.path"@, path@),
        ] + header_attribute("server.address"@, header_bytes(host)) + header_attribute(
            "user_agent.original"@,
            header_bytes(user_agent),
        ) + header_attribute("client.address"@, header_bytes(client_ip)) + match request_id {
            Some(kv) => seq![kv@],
            None => seq![],
        },
{
    let mut attributes: Vec<KeyValue> = Vec::new();
    attributes.push(string_kv("http.request.method", method));
    attributes.push(string_kv("url.path", path));
    let ghost a0 = attributes_view(attributes@);
    proof {
        assert(a0 =~= seq![
            string_attribute("http.request.method"@, method@),
            string_attribute("url.path"@, path@),
        ]);
    }
    push_header_attribute(&mut attributes, "server.address", host);
    push_header_attribute(&mut attributes, "user_agent.original", user_agent);
    push_header_attribute(&mut attributes, "client.address", client_ip);
    let ghost a1 = attributes_view(attributes@);
    let ghost rid = request_id;
    match request_id {
        Some(kv) => attributes.push(kv),
        None => {},
    }
    proof {
        assert(attributes_view(attributes@) =~= a1 + match rid {
            Some(kv) => seq![kv@],
            None => seq![],
        });
    }
    SpanStart { name: method.to_owned(), kind: SpanKind::Server, attributes }
}

/// The status of a span that answered with an HTTP status code: an error,
/// described as `HTTP <code>`, for codes from 500 on; no status change below.
pub open spec fn response_status(status_code: u16) -> Option<Seq<char>> {
    if status_code >= 500 {
        Some("HTTP "@ + decimal(status_code as nat))
    } else {
        None
    }
}

/// Every server error is marked and nothing else is: for each status code
/// from 500 on the span gets an error status described as `HTTP ` and the
/// code's decimal digits, and below 500 its status is left unchanged.
pub proof fn lemma_server_errors_marked(status_code: u16)
    ensures
        status_code >= 500 <==> response_status(status_code) is Some,
        status_code >= 500 ==> response_status(status_code) == Some(
            seq!['H', 'T', 'T', 'P', ' '] + decimal(status_code as nat),
        ),
{
    reveal_strlit("HTTP ");
    assert("HTTP "@ =~= seq!['H', 'T', 'T', 'P', ' ']);
}

/// What finishing a span with an HTTP status code records: the
/// `http.response.status_code` attribute, and an error status from 500 on.
pub fn response_span_update(status_code: u16) -> (r: (KeyValue, Option<Status>))
    ensures
        r.0@ == ("http.response.status_code"@, ValueView::I64(status_code as i64)),
        match response_status(status_code) {
            Some(d) => r.1 matches Some(Status::Error { description }) && description@ == d,
            None => r.1 is None,
        },
        status_code >= 500 ==> (r.1 matches Some(Status::Error { description }) && description@
            == "HTTP "@ + decimal(status_code as nat)),
        status_code < 500 ==> r.1 is None,
{
    let attribute = KeyValue {
        key: "http.response.status_code".to_owned(),
        value: Value::I64(status_code as i64),
    };
    if status_code >= 500 {
        let mut description = String::new();
        description.append("HTTP ");
        let digits = u128_to_decimal(status_code as u128);
        description.append(digits.as_str());
        (attribute, Some(Status::Error { description }))
    } else {
        (attribute, None)
    }
}

/// The result of shutting down the providers: the first failure, the
/// tracer provider's before the logger provider's; success when neither
/// failed (a provider that is not configured does not fail).
pub fn first_shutdown_error<E>(trace_result: Option<Result<(), E>>, log_result: Option<Result<(), E>>) -> (r: Result<(), E>)
    ensures
        match trace_result {
            Some(Err(e)) => r == Err::<(), E>(e),
            _ => match log_result {
                Some(Err(e)) => r == Err::<(), E>(e),
                _ => r is Ok,
            },
        },
{
    match trace_result {
        Some(Err(e)) => Err(e),
        _ => match log_result {
            Some(Err(e)) => Err(e),
            _ => Ok(()),
        },
    }
}

} // verus!
