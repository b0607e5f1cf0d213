//! OTLP data model, as the OTLP JSON encoding lays it out.
//!
//! These types mirror the OTLP protobuf schema. Their JSON form (lowerCamelCase
//! field names, int64 as decimal strings, empty fields omitted) is written by
//! the `json` module.

use vstd::prelude::*;

verus! {

/// OTLP `AnyValue`: exactly one of its variants is present.
#[derive(Debug)]
pub enum OtlpAnyValue {
    StringValue(String),
    BoolValue(bool),
    /// int64 as a decimal string, as the OTLP JSON encoding requires.
    IntValue(String),
    /// A double, held as the JSON number text that stands for it.
    DoubleValue(String),
    ArrayValue(OtlpArrayValue),
    KvlistValue(OtlpKeyValueList),
    /// Base64 of the bytes, as the protobuf JSON mapping requires.
    BytesValue(String),
}

/// OTLP `ArrayValue`.
#[derive(Debug)]
pub struct OtlpArrayValue {
    pub values: Vec<OtlpAnyValue>,
}

/// OTLP `KeyValueList`.
#[derive(Debug)]
pub struct OtlpKeyValueList {
    pub values: Vec<OtlpKeyValue>,
}

/// OTLP `KeyValue`.
#[derive(Debug)]
pub struct OtlpKeyValue {
    pub key: String,
    pub value: OtlpAnyValue,
}

/// The mathematical content of an `OtlpAnyValue`.
pub enum OtlpValueView {
    StringValue(Seq<char>),
    BoolValue(bool),
    IntValue(Seq<char>),
    DoubleValue(Seq<char>),
    ArrayValue(Seq<OtlpValueView>),
    KvlistValue(Seq<(Seq<char>, OtlpValueView)>),
    BytesValue(Seq<char>),
}

/// The content of an `OtlpAnyValue`.
pub open spec fn value_view(v: OtlpAnyValue) -> OtlpValueView
    decreases v,
{
    match v {
        OtlpAnyValue::StringValue(s) => OtlpValueView::StringValue(s@),
        OtlpAnyValue::BoolValue(b) => OtlpValueView::BoolValue(b),
        OtlpAnyValue::IntValue(s) => OtlpValueView::IntValue(s@),
        OtlpAnyValue::DoubleValue(s) => OtlpValueView::DoubleValue(s@),
        OtlpAnyValue::ArrayValue(a) => OtlpValueView::ArrayValue(values_view(a.values@)),
        OtlpAnyValue::KvlistValue(l) => OtlpValueView::KvlistValue(key_values_view(l.values@)),
        OtlpAnyValue::BytesValue(s) => OtlpValueView::BytesValue(s@),
    }
}

/// The contents of a sequence of `OtlpAnyValue`s.
pub open spec fn values_view(s: Seq<OtlpAnyValue>) -> Seq<OtlpValueView>
    decreases s,
{
    if s.len() == 0 {
        seq![]
    } else {
        values_view(s.drop_last()).push(value_view(s.last()))
    }
}

/// The contents of a sequence of `OtlpKeyValue`s.
pub open spec fn key_values_view(s: Seq<OtlpKeyValue>) -> Seq<(Seq<char>, OtlpValueView)>
    decreases s,
{
    if s.len() == 0 {
        seq![]
    } else {
        key_values_view(s.drop_last()).push((s.last().key@, value_view(s.last().value)))
    }
}


/// OTLP `Resource`.
#[derive(Debug)]
pub struct Resource {
    pub attributes: Vec<OtlpKeyValue>,
}

/// OTLP `InstrumentationScope`.
#[derive(Debug)]
pub struct Scope {
    pub name: String,
    pub version: Option<String>,
    pub schema_url: Option<String>,
    pub attributes: Vec<OtlpKeyValue>,
}

/// OTLP `LogRecord`.
#[derive(Debug)]
pub struct LogRecord {
    /// Nanosecond timestamp as a decimal string.
    pub time_unix_nano: Option<String>,
    /// Nanosecond observed timestamp as a decimal string.
    pub observed_time_unix_nano: Option<String>,
    /// Severity number (integer, not enum name).
    pub severity_number: Option<u32>,
    pub severity_text: Option<String>,
    pub body: Option<OtlpAnyValue>,
    pub attributes: Vec<OtlpKeyValue>,
    /// Trace ID as hex string.
    pub trace_id: Option<String>,
    /// Span ID as hex string.
    pub span_id: Option<String>,
    /// Trace flags.
    pub flags: Option<u32>,
}

/// OTLP `ScopeLogs`.
#[derive(Debug)]
pub struct ScopeLogs {
    pub scope: Scope,
    pub log_records: Vec<LogRecord>,
}

/// OTLP `ResourceLogs`.
#[derive(Debug)]
pub struct ResourceLogs {
    pub resource: Resource,
    pub scope_logs: Vec<ScopeLogs>,
}

/// OTLP `ExportLogsServiceRequest`.
#[derive(Debug)]
pub struct ExportLogsServiceRequest {
    pub resource_logs: Vec<ResourceLogs>,
}

/// OTLP `Span`.
#[derive(Debug)]
pub struct Span {
    /// Hex-encoded 16-byte trace ID.
    pub trace_id: String,
    /// Hex-encoded 8-byte span ID.
    pub span_id: String,
    /// Hex-encoded 8-byte parent span ID (absent for root spans).
    pub parent_span_id: Option<String>,
    pub name: String,
    /// Span kind (0=unspecified, 1=internal, 2=server, 3=client, 4=producer, 5=consumer).
    pub kind: u32,
    /// Start time as nanoseconds since the epoch (decimal string).
    pub start_time_unix_nano: String,
    /// End time as nanoseconds since the epoch (decimal string).
    pub end_time_unix_nano: String,
    pub attributes: Vec<OtlpKeyValue>,
    pub dropped_attributes_count: u32,
    pub events: Vec<SpanEvent>,
    pub dropped_events_count: u32,
    pub links: Vec<SpanLink>,
    pub dropped_links_count: u32,
    pub status: SpanStatus,
    /// W3C trace flags (lower 8 bits).
    pub flags: u32,
    /// W3C tracestate header.
    pub trace_state: Option<String>,
}

/// OTLP `Span.Event`.
#[derive(Debug)]
pub struct SpanEvent {
    pub time_unix_nano: String,
    pub name: String,
    pub attributes: Vec<OtlpKeyValue>,
    pub dropped_attributes_count: u32,
}

/// OTLP `Span.Link`.
#[derive(Debug)]
pub struct SpanLink {
    pub trace_id: String,
    pub span_id: String,
    pub attributes: Vec<OtlpKeyValue>,
    pub dropped_attributes_count: u32,
    pub flags: u32,
    pub trace_state: Option<String>,
}

/// OTLP `Status`.
#[derive(Debug)]
pub struct SpanStatus {
    /// Status code (0=unset, 1=ok, 2=error).
    pub code: u32,
    /// Status message (only meaningful with an error status).
    pub message: String,
}

/// OTLP `ScopeSpans`.
#[derive(Debug)]
pub struct ScopeSpans {
    pub scope: Scope,
    pub spans: Vec<Span>,
}

/// OTLP `ResourceSpans`.
#[derive(Debug)]
pub struct ResourceSpans {
    pub resource: Resource,
    pub scope_spans: Vec<ScopeSpans>,
}

/// OTLP `ExportTraceServiceRequest`.
#[derive(Debug)]
pub struct ExportTraceServiceRequest {
    pub resource_spans: Vec<ResourceSpans>,
}

/// Whether a count is zero; zero counts and flags are left out of the JSON.
pub fn is_zero(v: &u32) -> (r: bool)
    ensures
        r == (*v == 0),
{
    *v == 0
}

} // verus!
