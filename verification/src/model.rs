//! The OpenTelemetry data that the exporters read, held as plain values.
//!
//! Each type here stands for the `opentelemetry` / `opentelemetry_sdk` value of
//! the same name: identifiers as integers, timestamps as seconds and
//! nanoseconds since the Unix epoch, attribute doubles as their IEEE 754 bits
//! and their JSON number text (log doubles as the text alone), and a trace
//! state as its W3C `tracestate` header text.

use vstd::prelude::*;

verus! {

/// A double attribute value: its IEEE 754 bits, by which it is compared,
/// and its JSON number text, by which it is written.
#[derive(Debug)]
pub struct Double {
    pub bits: u64,
    pub json: String,
}

impl View for Double {
    type V = (u64, Seq<char>);

    open spec fn view(&self) -> (u64, Seq<char>) {
        (self.bits, self.json@)
    }
}

/// The contents of a list of doubles.
pub open spec fn doubles_view(ds: Seq<Double>) -> Seq<(u64, Seq<char>)> {
    ds.map_values(|d: Double| d@)
}

/// A homogeneous array attribute value.
#[derive(Debug)]
pub enum Array {
    Bool(Vec<bool>),
    I64(Vec<i64>),
    F64(Vec<Double>),
    String(Vec<String>),
}

/// A resource, scope or span attribute value.
#[derive(Debug)]
pub enum Value {
    Bool(bool),
    I64(i64),
    F64(Double),
    String(String),
    Array(Array),
}

/// An attribute: a key and its value.
#[derive(Debug)]
pub struct KeyValue {
    pub key: String,
    pub value: Value,
}

/// A log record value, arbitrarily nested.
#[derive(Debug)]
pub enum AnyValue {
    Int(i64),
    /// A double, held as its JSON number text.
    Double(String),
    String(String),
    Boolean(bool),
    Bytes(Vec<u8>),
    ListAny(Vec<AnyValue>),
    /// A map, as its entries in the order in which the map yields them.
    KeyValues(Vec<(String, AnyValue)>),
}

/// The content of a `Value`.
pub enum ValueView {
    Bool(bool),
    I64(i64),
    /// The bits and the JSON text of a double.
    F64((u64, Seq<char>)),
    Str(Seq<char>),
    BoolArray(Seq<bool>),
    I64Array(Seq<i64>),
    F64Array(Seq<(u64, Seq<char>)>),
    StrArray(Seq<Seq<char>>),
}

impl View for Value {
    type V = ValueView;

    open spec fn view(&self) -> ValueView {
        match self {
            Value::Bool(b) => ValueView::Bool(*b),
            Value::I64(i) => ValueView::I64(*i),
            Value::F64(d) => ValueView::F64(d@),
            Value::String(s) => ValueView::Str(s@),
            Value::Array(Array::Bool(v)) => ValueView::BoolArray(v@),
            Value::Array(Array::I64(v)) => ValueView::I64Array(v@),
            Value::Array(Array::F64(v)) => ValueView::F64Array(doubles_view(v@)),
            Value::Array(Array::String(v)) => ValueView::StrArray(v.deep_view()),
        }
    }
}

impl View for KeyValue {
    type V = (Seq<char>, ValueView);

    open spec fn view(&self) -> (Seq<char>, ValueView) {
        (self.key@, self.value@)
    }
}

/// The content of a list of attributes.
pub open spec fn attributes_view(kvs: Seq<KeyValue>) -> Seq<(Seq<char>, ValueView)> {
    kvs.map_values(|kv: KeyValue| kv@)
}

/// An instrumentation scope: the library that produced the telemetry.
#[derive(Debug)]
pub struct InstrumentationScope {
    pub name: String,
    pub version: Option<String>,
    pub schema_url: Option<String>,
    pub attributes: Vec<KeyValue>,
}

/// The content of an `InstrumentationScope`.
pub struct ScopeView {
    pub name: Seq<char>,
    pub version: Option<Seq<char>>,
    pub schema_url: Option<Seq<char>>,
    pub attributes: Seq<(Seq<char>, ValueView)>,
}

impl View for InstrumentationScope {
    type V = ScopeView;

    open spec fn view(&self) -> ScopeView {
        ScopeView {
            name: self.name@,
            version: self.version.deep_view(),
            schema_url: self.schema_url.deep_view(),
            attributes: attributes_view(self.attributes@),
        }
    }
}

/// The bits of a NaN: all exponent bits set and a fraction that is not zero.
pub open spec fn is_nan_bits(b: u64) -> bool {
    (b >> 52u64) & 0x7ffu64 == 0x7ffu64 && b & 0xf_ffff_ffff_ffffu64 != 0
}

/// The bits by which a double that is not a NaN compares: negative zero
/// compares as zero, every other double as its own bits.
pub open spec fn compared_bits(b: u64) -> u64 {
    if b == 0x8000_0000_0000_0000u64 {
        0
    } else {
        b
    }
}

/// The value holds a NaN, which equals nothing, not even itself.
pub open spec fn value_has_nan(v: ValueView) -> bool {
    match v {
        ValueView::F64(d) => is_nan_bits(d.0),
        ValueView::F64Array(ds) => exists|i: int| 0 <= i < ds.len() && is_nan_bits(#[trigger] ds[i].0),
        _ => false,
    }
}

/// What an attribute value is compared by. Two values that hold no NaN are
/// equal, as the SDK compares them (doubles as numbers), exactly when their
/// keys are equal.
pub enum ValueKey {
    Bool(bool),
    I64(i64),
    F64(u64),
    Str(Seq<char>),
    BoolArray(Seq<bool>),
    I64Array(Seq<i64>),
    F64Array(Seq<u64>),
    StrArray(Seq<Seq<char>>),
}

/// The key an attribute value is compared by.
pub open spec fn value_key(v: ValueView) -> ValueKey {
    match v {
        ValueView::Bool(b) => ValueKey::Bool(b),
        ValueView::I64(i) => ValueKey::I64(i),
        ValueView::F64(d) => ValueKey::F64(compared_bits(d.0)),
        ValueView::Str(s) => ValueKey::Str(s),
        ValueView::BoolArray(bs) => ValueKey::BoolArray(bs),
        ValueView::I64Array(is) => ValueKey::I64Array(is),
        ValueView::F64Array(ds) => ValueKey::F64Array(ds.map_values(|d: (u64, Seq<char>)| compared_bits(d.0))),
        ValueView::StrArray(ss) => ValueKey::StrArray(ss),
    }
}

/// The keys of the values given to the attribute key `k`, in list order.
pub open spec fn values_of_key(attrs: Seq<(Seq<char>, ValueView)>, k: Seq<char>) -> Seq<ValueKey>
    decreases attrs.len(),
{
    if attrs.len() == 0 {
        seq![]
    } else {
        let rest = values_of_key(attrs.drop_last(), k);
        if attrs.last().0 == k {
            rest.push(value_key(attrs.last().1))
        } else {
            rest
        }
    }
}

/// Some attribute of the scope holds a NaN.
pub open spec fn scope_has_nan(s: ScopeView) -> bool {
    exists|i: int| 0 <= i < s.attributes.len() && value_has_nan(#[trigger] s.attributes[i].1)
}

/// What a scope without NaN attributes is compared by: its name, version and
/// schema URL, and for each key the values that its attributes give that
/// key. The order of attributes with different keys does not matter: the
/// SDK compares the attribute lists after sorting them by key.
pub struct ScopeKey {
    pub name: Seq<char>,
    pub version: Option<Seq<char>>,
    pub schema_url: Option<Seq<char>>,
    pub attributes: Map<Seq<char>, Seq<ValueKey>>,
}

/// The key a scope without NaN attributes is compared by.
pub open spec fn scope_key(s: ScopeView) -> ScopeKey {
    ScopeKey {
        name: s.name,
        version: s.version,
        schema_url: s.schema_url,
        attributes: Map::new(|k: Seq<char>| true, |k: Seq<char>| values_of_key(s.attributes, k)),
    }
}

/// The SDK's equality of two scopes: neither holds a NaN attribute, and
/// their keys are equal.
pub open spec fn same_scope(a: ScopeView, b: ScopeView) -> bool {
    !scope_has_nan(a) && !scope_has_nan(b) && scope_key(a) == scope_key(b)
}

/// The scope of the item at a position of a batch, as grouping sees it.
pub enum ScopeId {
    /// A scope without NaN attributes, by its key.
    Key(ScopeKey),
    /// A scope with a NaN attribute, which equals no other scope: the
    /// position of its item.
    Unequal(int),
}

/// The scope identity of the item at position `j` whose scope is `s`: two
/// items at different positions have equal identities exactly when their
/// scopes are the same scope (`same_scope`).
pub open spec fn scope_id(s: ScopeView, j: int) -> ScopeId {
    if scope_has_nan(s) {
        ScopeId::Unequal(j)
    } else {
        ScopeId::Key(scope_key(s))
    }
}

/// A point in time, as the duration since the Unix epoch (zero for earlier times).
#[derive(Debug)]
pub struct UnixTime {
    pub secs: u64,
    /// Always below one billion.
    pub subsec_nanos: u32,
}

impl UnixTime {
    /// The nanoseconds part is below one second.
    pub open spec fn wf(&self) -> bool {
        self.subsec_nanos < 1_000_000_000
    }

    /// The number of nanoseconds since the epoch.
    pub open spec fn nanos(&self) -> nat {
        (self.secs * 1_000_000_000 + self.subsec_nanos) as nat
    }
}

/// The kind of a span.
#[derive(Debug)]
pub enum SpanKind {
    Client,
    Server,
    Producer,
    Consumer,
    Internal,
}

/// The status of a span.
#[derive(Debug)]
pub enum Status {
    Unset,
    Success,
    Error { description: String },
}

/// The propagated part of a span's identity.
#[derive(Debug)]
pub struct SpanContext {
    /// The 16-byte trace id.
    pub trace_id: u128,
    /// The 8-byte span id.
    pub span_id: u64,
    /// The W3C trace flags.
    pub trace_flags: u8,
    pub is_remote: bool,
    /// The W3C `tracestate` header text (empty when there is no state).
    pub trace_state: String,
}

/// A timed event within a span.
#[derive(Debug)]
pub struct Event {
    pub name: String,
    pub timestamp: UnixTime,
    pub attributes: Vec<KeyValue>,
    pub dropped_attributes_count: u32,
}

/// A link from a span to another span.
#[derive(Debug)]
pub struct Link {
    pub span_context: SpanContext,
    pub attributes: Vec<KeyValue>,
    pub dropped_attributes_count: u32,
}

/// A finished span, as the SDK hands it to an exporter.
#[derive(Debug)]
pub struct SpanData {
    pub span_context: SpanContext,
    /// The parent span id; zero (the invalid id) for a root span.
    pub parent_span_id: u64,
    pub span_kind: SpanKind,
    pub name: String,
    pub start_time: UnixTime,
    pub end_time: UnixTime,
    pub attributes: Vec<KeyValue>,
    pub dropped_attributes_count: u32,
    pub events: Vec<Event>,
    pub dropped_events_count: u32,
    pub links: Vec<Link>,
    pub dropped_links_count: u32,
    pub status: Status,
    pub instrumentation_scope: InstrumentationScope,
}

/// The trace context attached to a log record.
#[derive(Debug)]
pub struct TraceContext {
    pub trace_id: u128,
    pub span_id: u64,
    pub trace_flags: Option<u8>,
}

/// A log record, as the SDK hands it to an exporter.
#[derive(Debug)]
pub struct LogRecordData {
    pub timestamp: Option<UnixTime>,
    pub observed_timestamp: Option<UnixTime>,
    /// The severity as its OTLP number.
    pub severity_number: Option<u32>,
    pub severity_text: Option<String>,
    pub body: Option<AnyValue>,
    pub attributes: Vec<(String, AnyValue)>,
    pub trace_context: Option<TraceContext>,
}

/// A log record together with the scope that emitted it.
#[derive(Debug)]
pub struct LogBatchEntry {
    pub record: LogRecordData,
    pub scope: InstrumentationScope,
}

} // verus!
