//! Conversions from OpenTelemetry data to the OTLP data model.

use std::time::SystemTime;
use vstd::prelude::*;

use crate::model::{
    attributes_view, doubles_view, AnyValue, Array, Event, InstrumentationScope, KeyValue, Link, LogRecordData,
    ScopeView, SpanContext, SpanData, SpanKind, Status, UnixTime, Value, ValueView,
};
use crate::otlp::{
    key_values_view, value_view, values_view, OtlpAnyValue, OtlpArrayValue, OtlpKeyValue,
    OtlpKeyValueList, OtlpValueView, Resource, Scope, Span, SpanEvent, SpanLink, SpanStatus,
    LogRecord,
};
use crate::json::{
    join_commas, json_bool, attributes_members, json_object, json_value, nonzero_members, opt_string_members, string_member,
};
use crate::text::{
    all_lower_hex, base64_encode, base64_standard, decimal, hex_digits, i64_to_decimal,
    json_string, lemma_hex_digits, lemma_plain_needs_no_escape, lemma_signed_decimal_plain,
    lower_hex_fixed, signed_decimal, u128_to_decimal,
};

verus! {

#[verifier::external_type_specification]
#[verifier::external_body]
pub struct ExSystemTime(SystemTime);

/// The time elapsed from the Unix epoch to `t`, as whole seconds and the
/// nanoseconds past them; `None` for a time before the epoch.
pub uninterp spec fn since_epoch(t: SystemTime) -> Option<(u64, u32)>;

/// Calls `SystemTime::duration_since(UNIX_EPOCH)` and splits the duration
/// with `Duration::as_secs` and `Duration::subsec_nanos`. The contract
/// claims that the result depends on `t` alone (`since_epoch`), that it is
/// `None` exactly when `duration_since` fails (a time before the epoch), and
/// what std documents of `subsec_nanos`: it is below one billion.
#[verifier::external_body]
fn duration_parts_since_epoch(t: &SystemTime) -> (r: Option<(u64, u32)>)
    ensures
        r == since_epoch(*t),
        r matches Some(p) ==> p.1 < 1_000_000_000,
{
    match t.duration_since(SystemTime::UNIX_EPOCH) {
        Ok(d) => Some((d.as_secs(), d.subsec_nanos())),
        Err(_) => None,
    }
}

/// The time since the Unix epoch as a `UnixTime`: zero for a time before the epoch.
pub open spec fn unix_time_spec(t: SystemTime) -> UnixTime {
    match since_epoch(t) {
        Some(p) => UnixTime { secs: p.0, subsec_nanos: p.1 },
        None => UnixTime { secs: 0, subsec_nanos: 0 },
    }
}

/// The time since the Unix epoch; zero for a time before the epoch.
pub fn unix_time_of(t: &SystemTime) -> (u: UnixTime)
    ensures
        u == unix_time_spec(*t),
        u.wf(),
{
    match duration_parts_since_epoch(t) {
        Some(p) => UnixTime { secs: p.0, subsec_nanos: p.1 },
        None => UnixTime { secs: 0, subsec_nanos: 0 },
    }
}

/// Nanoseconds since the epoch as a decimal string.
pub fn nanos_text(t: &UnixTime) -> (r: String)
    ensures
        r@ == decimal(t.nanos()),
{
    let n: u128 = (t.secs as u128) * 1_000_000_000 + (t.subsec_nanos as u128);
    u128_to_decimal(n)
}

/// Convert a `SystemTime` to nanoseconds-since-epoch as a decimal string:
/// `"0"` for a time before the epoch, otherwise the decimal of
/// `secs * 1_000_000_000 + subsec_nanos` of the time since the epoch.
pub fn system_time_to_nanos(t: SystemTime) -> (r: String)
    ensures
        r@ == decimal(unix_time_spec(t).nanos()),
        since_epoch(t) is None ==> r@ == seq!['0'],
        since_epoch(t) matches Some(p) ==> r@ == decimal((p.0 * 1_000_000_000 + p.1) as nat),
{
    let u = unix_time_of(&t);
    nanos_text(&u)
}

/// The lowercase 32-digit hex form of a trace id.
pub open spec fn trace_id_text(id: u128) -> Seq<char> {
    hex_digits(id as nat, 32)
}

/// The lowercase 16-digit hex form of a span id.
pub open spec fn span_id_text(id: u64) -> Seq<char> {
    hex_digits(id as nat, 16)
}

/// Hex text of a trace id, as its `Display` writes it.
pub fn trace_id_to_hex(id: u128) -> (r: String)
    ensures
        r@ == trace_id_text(id),
{
    lower_hex_fixed(id, 32)
}

/// Hex text of a span id, as its `Display` writes it.
pub fn span_id_to_hex(id: u64) -> (r: String)
    ensures
        r@ == span_id_text(id),
{
    lower_hex_fixed(id as u128, 16)
}

/// The OTLP content of a resource or span attribute value: int64 as decimal
/// text, arrays element by element.
pub open spec fn otlp_of_value(v: ValueView) -> OtlpValueView {
    match v {
        ValueView::Bool(b) => OtlpValueView::BoolValue(b),
        ValueView::I64(i) => OtlpValueView::IntValue(signed_decimal(i as int)),
        ValueView::F64(d) => OtlpValueView::DoubleValue(d.1),
        ValueView::Str(s) => OtlpValueView::StringValue(s),
        ValueView::BoolArray(bs) => OtlpValueView::ArrayValue(
            bs.map_values(|b: bool| OtlpValueView::BoolValue(b)),
        ),
        ValueView::I64Array(is) => OtlpValueView::ArrayValue(
            is.map_values(|i: i64| OtlpValueView::IntValue(signed_decimal(i as int))),
        ),
        ValueView::F64Array(ts) => OtlpValueView::ArrayValue(
            ts.map_values(|d: (u64, Seq<char>)| OtlpValueView::DoubleValue(d.1)),
        ),
        ValueView::StrArray(ss) => OtlpValueView::ArrayValue(
            ss.map_values(|s: Seq<char>| OtlpValueView::StringValue(s)),
        ),
    }
}

/// The OTLP content of a list of attributes.
pub open spec fn otlp_of_attributes(kvs: Seq<(Seq<char>, ValueView)>) -> Seq<(Seq<char>, OtlpValueView)> {
    kvs.map_values(|kv: (Seq<char>, ValueView)| (kv.0, otlp_of_value(kv.1)))
}

proof fn lemma_values_view_push(s: Seq<OtlpAnyValue>, x: OtlpAnyValue)
    ensures
        values_view(s.push(x)) == values_view(s).push(value_view(x)),
{
    assert(s.push(x).drop_last() =~= s);
}

proof fn lemma_key_values_view_push(s: Seq<OtlpKeyValue>, x: OtlpKeyValue)
    ensures
        key_values_view(s.push(x)) == key_values_view(s).push((x.key@, value_view(x.value))),
{
    assert(s.push(x).drop_last() =~= s);
}

/// Convert an OTel resource/span `Value` to an OTLP JSON `AnyValue`.
pub fn value_to_otlp(v: &Value) -> (r: OtlpAnyValue)
    ensures
        value_view(r) == otlp_of_value(v@),
        *v matches Value::Bool(b) ==> r == OtlpAnyValue::BoolValue(b),
        *v matches Value::I64(i) ==> (r matches OtlpAnyValue::IntValue(t) && t@ == signed_decimal(i as int)),
        *v matches Value::String(x) ==> (r matches OtlpAnyValue::StringValue(t) && t@ == x@),
        *v matches Value::F64(d) ==> (r matches OtlpAnyValue::DoubleValue(t) && t@ == d.json@),
{
    match v {
        Value::Bool(b) => OtlpAnyValue::BoolValue(*b),
        Value::I64(i) => OtlpAnyValue::IntValue(i64_to_decimal(*i)),
        Value::F64(d) => OtlpAnyValue::DoubleValue(d.json.clone()),
        Value::String(s) => OtlpAnyValue::StringValue(s.clone()),
        Value::Array(arr) => {
            let mut values: Vec<OtlpAnyValue> = Vec::new();
            match arr {
                Array::Bool(bs) => {
                    let mut i: usize = 0;
                    while i < bs.len()
                        invariant
                            i <= bs@.len(),
                            values_view(values@) == bs@.take(i as int).map_values(
                                |b: bool| OtlpValueView::BoolValue(b),
                            ),
                        decreases bs@.len() - i,
                    {
                        let x = OtlpAnyValue::BoolValue(bs[i]);
                        proof { lemma_values_view_push(values@, x); }
                        values.push(x);
                        proof {
                            assert(bs@.take(i + 1) =~= bs@.take(i as int).push(bs@[i as int]));
                        }
                        i = i + 1;
                    }
                    proof { assert(bs@.take(bs@.len() as int) =~= bs@); }
                },
                Array::I64(is) => {
                    let mut i: usize = 0;
                    while i < is.len()
                        invariant
                            i <= is@.len(),
                            values_view(values@) == is@.take(i as int).map_values(
                                |n: i64| OtlpValueView::IntValue(signed_decimal(n as int)),
                            ),
                        decreases is@.len() - i,
                    {
                        let x = OtlpAnyValue::IntValue(i64_to_decimal(is[i]));
                        proof { lemma_values_view_push(values@, x); }
                        values.push(x);
                        proof {
                            assert(is@.take(i + 1) =~= is@.take(i as int).push(is@[i as int]));
                        }
                        i = i + 1;
                    }
                    proof { assert(is@.take(is@.len() as int) =~= is@); }
                },
                Array::F64(ts) => {
                    let mut i: usize = 0;
                    while i < ts.len()
                        invariant
                            i <= ts@.len(),
                            values_view(values@) == doubles_view(ts@).take(i as int).map_values(
                                |d: (u64, Seq<char>)| OtlpValueView::DoubleValue(d.1),
                            ),
                        decreases ts@.len() - i,
                    {
                        let x = OtlpAnyValue::DoubleValue(ts[i].json.clone());
                        proof { lemma_values_view_push(values@, x); }
                        values.push(x);
                        proof {
                            assert(doubles_view(ts@).take(i + 1) =~= doubles_view(ts@).take(i as int).push(
                                ts@[i as int]@,
                            ));
                        }
                        i = i + 1;
                    }
                    proof { assert(doubles_view(ts@).take(ts@.len() as int) =~= doubles_view(ts@)); }
                },
                Array::String(ss) => {
                    let mut i: usize = 0;
                    while i < ss.len()
                        invariant
                            i <= ss@.len(),
                            values_view(values@) == ss.deep_view().take(i as int).map_values(
                                |s: Seq<char>| OtlpValueView::StringValue(s),
                            ),
                        decreases ss@.len() - i,
                    {
                        let x = OtlpAnyValue::StringValue(ss[i].clone());
                        proof { lemma_values_view_push(values@, x); }
                        values.push(x);
                        proof {
                            assert(ss.deep_view().take(i + 1) =~= ss.deep_view().take(i as int).push(
                                ss@[i as int]@,
                            ));
                        }
                        i = i + 1;
                    }
                    proof { assert(ss.deep_view().take(ss@.len() as int) =~= ss.deep_view()); }
                },
            }
            OtlpAnyValue::ArrayValue(OtlpArrayValue { values })
        },
    }
}

/// The OTLP content of a log value: int64 as decimal text, bytes as base64,
/// lists and maps element by element.
pub open spec fn otlp_of_any(v: AnyValue) -> OtlpValueView
    decreases v,
{
    match v {
        AnyValue::Int(i) => OtlpValueView::IntValue(signed_decimal(i as int)),
        AnyValue::Double(t) => OtlpValueView::DoubleValue(t@),
        AnyValue::String(s) => OtlpValueView::StringValue(s@),
        AnyValue::Boolean(b) => OtlpValueView::BoolValue(b),
        AnyValue::Bytes(b) => OtlpValueView::BytesValue(base64_standard(b@)),
        AnyValue::ListAny(l) => OtlpValueView::ArrayValue(otlp_of_any_list(l@)),
        AnyValue::KeyValues(m) => OtlpValueView::KvlistValue(otlp_of_entries(m@)),
    }
}

/// The OTLP contents of a list of log values.
pub open spec fn otlp_of_any_list(s: Seq<AnyValue>) -> Seq<OtlpValueView>
    decreases s,
{
    if s.len() == 0 {
        seq![]
    } else {
        otlp_of_any_list(s.drop_last()).push(otlp_of_any(s.last()))
    }
}

/// The OTLP contents of a list of keyed log values.
pub open spec fn otlp_of_entries(s: Seq<(String, AnyValue)>) -> Seq<(Seq<char>, OtlpValueView)>
    decreases s,
{
    if s.len() == 0 {
        seq![]
    } else {
        otlp_of_entries(s.drop_last()).push((s.last().0@, otlp_of_any(s.last().1)))
    }
}

/// Convert an OTel log `AnyValue` to an OTLP JSON `AnyValue`.
pub fn any_value_to_otlp(v: &AnyValue) -> (r: OtlpAnyValue)
    ensures
        value_view(r) == otlp_of_any(*v),
        *v matches AnyValue::Boolean(b) ==> r == OtlpAnyValue::BoolValue(b),
        *v matches AnyValue::Int(i) ==> (r matches OtlpAnyValue::IntValue(t) && t@ == signed_decimal(i as int)),
        *v matches AnyValue::String(x) ==> (r matches OtlpAnyValue::StringValue(t) && t@ == x@),
        *v matches AnyValue::Double(x) ==> (r matches OtlpAnyValue::DoubleValue(t) && t@ == x@),
        *v matches AnyValue::Bytes(x) ==> (r matches OtlpAnyValue::BytesValue(t) && t@ == base64_standard(x@)),
    decreases v,
{
    match v {
        AnyValue::Int(i) => OtlpAnyValue::IntValue(i64_to_decimal(*i)),
        AnyValue::Double(t) => OtlpAnyValue::DoubleValue(t.clone()),
        AnyValue::String(s) => OtlpAnyValue::StringValue(s.clone()),
        AnyValue::Boolean(b) => OtlpAnyValue::BoolValue(*b),
        AnyValue::Bytes(bytes) => OtlpAnyValue::BytesValue(base64_encode(bytes.as_slice())),
        AnyValue::ListAny(list) => {
            let mut values: Vec<OtlpAnyValue> = Vec::new();
            let n = list.len();
            let mut i: usize = 0;
            while i < n
                invariant
                    n == list@.len(),
                    i <= n,
                    *v == AnyValue::ListAny(*list),
                    values_view(values@) == otlp_of_any_list(list@.take(i as int)),
                decreases n - i,
            {
                proof {
                    let w = *v;
                    assert(decreases_to!(w => w->ListAny_0));
                    assert(decreases_to!(w->ListAny_0 => w->ListAny_0@));
                    assert(decreases_to!(w->ListAny_0@ => w->ListAny_0@[i as int]));
                }
                let x = any_value_to_otlp(&list[i]);
                proof {
                    lemma_values_view_push(values@, x);
                    assert(list@.take(i + 1).drop_last() =~= list@.take(i as int));
                }
                values.push(x);
                i = i + 1;
            }
            proof { assert(list@.take(n as int) =~= list@); }
            OtlpAnyValue::ArrayValue(OtlpArrayValue { values })
        },
        AnyValue::KeyValues(map) => {
            let mut values: Vec<OtlpKeyValue> = Vec::new();
            let n = map.len();
            let mut i: usize = 0;
            while i < n
                invariant
                    n == map@.len(),
                    i <= n,
                    *v == AnyValue::KeyValues(*map),
                    key_values_view(values@) == otlp_of_entries(map@.take(i as int)),
                decreases n - i,
            {
                proof {
                    let w = *v;
                    assert(decreases_to!(w => w->KeyValues_0));
                    assert(decreases_to!(w->KeyValues_0 => w->KeyValues_0@));
                    assert(decreases_to!(w->KeyValues_0@ => w->KeyValues_0@[i as int]));
                    assert(decreases_to!(w->KeyValues_0@[i as int] => w->KeyValues_0@[i as int].1));
                }
                let value = any_value_to_otlp(&map[i].1);
                let x = OtlpKeyValue { key: map[i].0.clone(), value };
                proof {
                    lemma_key_values_view_push(values@, x);
                    assert(map@.take(i + 1).drop_last() =~= map@.take(i as int));
                }
                values.push(x);
                i = i + 1;
            }
            proof { assert(map@.take(n as int) =~= map@); }
            OtlpAnyValue::KvlistValue(OtlpKeyValueList { values })
        },
    }
}

/// Convert an OTel log attribute `(Key, AnyValue)` pair to an OTLP KeyValue.
pub fn log_attribute_to_otlp(key: &String, value: &AnyValue) -> (r: OtlpKeyValue)
    ensures
        r.key@ == key@,
        value_view(r.value) == otlp_of_any(*value),
{
    OtlpKeyValue { key: key.clone(), value: any_value_to_otlp(value) }
}

/// Convert an OTel resource attribute `(&Key, &Value)` pair to an OTLP KeyValue.
pub fn resource_attribute_to_otlp(key: &String, value: &Value) -> (r: OtlpKeyValue)
    ensures
        r.key@ == key@,
        value_view(r.value) == otlp_of_value(value@),
{
    OtlpKeyValue { key: key.clone(), value: value_to_otlp(value) }
}

/// Convert a list of attributes to OTLP key-values, in order.
pub fn attributes_to_otlp(kvs: &Vec<KeyValue>) -> (r: Vec<OtlpKeyValue>)
    ensures
        key_values_view(r@) == otlp_of_attributes(attributes_view(kvs@)),
{
    let mut out: Vec<OtlpKeyValue> = Vec::new();
    let n = kvs.len();
    let mut i: usize = 0;
    while i < n
        invariant
            n == kvs@.len(),
            i <= n,
            key_values_view(out@) == otlp_of_attributes(attributes_view(kvs@.take(i as int))),
        decreases n - i,
    {
        let x = resource_attribute_to_otlp(&kvs[i].key, &kvs[i].value);
        proof {
            lemma_key_values_view_push(out@, x);
            assert(attributes_view(kvs@.take(i + 1)) =~= attributes_view(kvs@.take(i as int)).push(
                kvs@[i as int]@,
            ));
        }
        out.push(x);
        i = i + 1;
    }
    proof { assert(kvs@.take(n as int) =~= kvs@); }
    out
}

/// Convert a list of log attributes to OTLP key-values, in order.
pub fn log_attributes_to_otlp(kvs: &Vec<(String, AnyValue)>) -> (r: Vec<OtlpKeyValue>)
    ensures
        key_values_view(r@) == otlp_of_entries(kvs@),
{
    let mut out: Vec<OtlpKeyValue> = Vec::new();
    let n = kvs.len();
    let mut i: usize = 0;
    while i < n
        invariant
            n == kvs@.len(),
            i <= n,
            key_values_view(out@) == otlp_of_entries(kvs@.take(i as int)),
        decreases n - i,
    {
        let x = log_attribute_to_otlp(&kvs[i].0, &kvs[i].1);
        proof {
            lemma_key_values_view_push(out@, x);
            assert(kvs@.take(i + 1).drop_last() =~= kvs@.take(i as int));
        }
        out.push(x);
        i = i + 1;
    }
    proof { assert(kvs@.take(n as int) =~= kvs@); }
    out
}

/// `r` is the OTLP form of the scope `s`.
pub open spec fn scope_is_otlp_of(r: Scope, s: ScopeView) -> bool {
    &&& r.name@ == s.name
    &&& r.version.deep_view() == s.version
    &&& r.schema_url.deep_view() == s.schema_url
    &&& key_values_view(r.attributes@) == otlp_of_attributes(s.attributes)
}

fn copy_opt_string(o: &Option<String>) -> (r: Option<String>)
    ensures
        r.deep_view() == o.deep_view(),
{
    match o {
        Some(s) => Some(s.clone()),
        None => None,
    }
}

/// Convert an `InstrumentationScope` to an OTLP `Scope`.
pub fn scope_to_otlp(scope: &InstrumentationScope) -> (r: Scope)
    ensures
        scope_is_otlp_of(r, scope@),
{
    Scope {
        name: scope.name.clone(),
        version: copy_opt_string(&scope.version),
        schema_url: copy_opt_string(&scope.schema_url),
        attributes: attributes_to_otlp(&scope.attributes),
    }
}

/// Convert a resource (its attributes) to an OTLP Resource.
pub fn resource_to_otlp(resource: &Vec<KeyValue>) -> (r: Resource)
    ensures
        key_values_view(r.attributes@) == otlp_of_attributes(attributes_view(resource@)),
{
    Resource { attributes: attributes_to_otlp(resource) }
}

/// The OTLP number of a span kind: 1=internal, 2=server, 3=client,
/// 4=producer, 5=consumer (0, unspecified, is never produced).
pub open spec fn kind_number(kind: SpanKind) -> u32 {
    match kind {
        SpanKind::Internal => 1,
        SpanKind::Server => 2,
        SpanKind::Client => 3,
        SpanKind::Producer => 4,
        SpanKind::Consumer => 5,
    }
}

/// Convert `SpanKind` to the OTLP integer representation.
pub fn span_kind_to_otlp(kind: &SpanKind) -> (r: u32)
    ensures
        r == kind_number(*kind),
{
    match kind {
        SpanKind::Internal => 1,
        SpanKind::Server => 2,
        SpanKind::Client => 3,
        SpanKind::Producer => 4,
        SpanKind::Consumer => 5,
    }
}

/// `r` is the OTLP form of the status `s`: code 0 (unset), 1 (ok) or
/// 2 (error); only the error carries a message, its description.
pub open spec fn status_is_otlp_of(r: SpanStatus, s: Status) -> bool {
    match s {
        Status::Unset => r.code == 0 && r.message@.len() == 0,
        Status::Success => r.code == 1 && r.message@.len() == 0,
        Status::Error { description } => r.code == 2 && r.message@ == description@,
    }
}

/// Convert `Status` to an OTLP `SpanStatus`.
pub fn status_to_otlp(status: &Status) -> (r: SpanStatus)
    ensures
        status_is_otlp_of(r, *status),
{
    match status {
        Status::Unset => SpanStatus { code: 0, message: String::new() },
        Status::Success => SpanStatus { code: 1, message: String::new() },
        Status::Error { description } => SpanStatus { code: 2, message: description.clone() },
    }
}

/// `r` is the OTLP form of the event `e`.
pub open spec fn event_is_otlp_of(r: SpanEvent, e: Event) -> bool {
    &&& r.time_unix_nano@ == decimal(e.timestamp.nanos())
    &&& r.name@ == e.name@
    &&& key_values_view(r.attributes@) == otlp_of_attributes(attributes_view(e.attributes@))
    &&& r.dropped_attributes_count == e.dropped_attributes_count
}

/// Convert an OTel `Event` to an OTLP `SpanEvent`.
pub fn event_to_otlp(event: &Event) -> (r: SpanEvent)
    ensures
        event_is_otlp_of(r, *event),
{
    SpanEvent {
        time_unix_nano: nanos_text(&event.timestamp),
        name: event.name.clone(),
        attributes: attributes_to_otlp(&event.attributes),
        dropped_attributes_count: event.dropped_attributes_count,
    }
}

/// The OTLP trace state: absent when the header is empty.
pub open spec fn trace_state_text(header: Seq<char>) -> Option<Seq<char>> {
    if header.len() == 0 {
        None
    } else {
        Some(header)
    }
}

/// Convert a trace state header to an `Option<String>`, returning `None` if empty.
pub fn trace_state_to_otlp(header: &String) -> (r: Option<String>)
    ensures
        r.deep_view() == trace_state_text(header@),
{
    if header.as_str().is_empty() {
        None
    } else {
        Some(header.clone())
    }
}

/// `r` is the OTLP form of the link `l`.
pub open spec fn link_is_otlp_of(r: SpanLink, l: Link) -> bool {
    &&& r.trace_id@ == trace_id_text(l.span_context.trace_id)
    &&& r.span_id@ == span_id_text(l.span_context.span_id)
    &&& key_values_view(r.attributes@) == otlp_of_attributes(attributes_view(l.attributes@))
    &&& r.dropped_attributes_count == l.dropped_attributes_count
    &&& r.flags == l.span_context.trace_flags as u32
    &&& r.trace_state.deep_view() == trace_state_text(l.span_context.trace_state@)
}

/// Convert an OTel `Link` to an OTLP `SpanLink`.
pub fn link_to_otlp(link: &Link) -> (r: SpanLink)
    ensures
        link_is_otlp_of(r, *link),
{
    SpanLink {
        trace_id: trace_id_to_hex(link.span_context.trace_id),
        span_id: span_id_to_hex(link.span_context.span_id),
        attributes: attributes_to_otlp(&link.attributes),
        dropped_attributes_count: link.dropped_attributes_count,
        flags: link.span_context.trace_flags as u32,
        trace_state: trace_state_to_otlp(&link.span_context.trace_state),
    }
}

/// `r` is the OTLP form of the span `s`: hex ids (the parent only when it is
/// not the invalid id zero), the kind number, decimal nanosecond times,
/// attributes, events and links in order, the dropped counts, the status,
/// the trace flags and the trace state (only when not empty).
pub open spec fn span_is_otlp_of(r: Span, s: SpanData) -> bool {
    &&& r.trace_id@ == trace_id_text(s.span_context.trace_id)
    &&& r.span_id@ == span_id_text(s.span_context.span_id)
    &&& r.parent_span_id.deep_view() == (if s.parent_span_id == 0 {
        None
    } else {
        Some(span_id_text(s.parent_span_id))
    })
    &&& r.name@ == s.name@
    &&& r.kind == kind_number(s.span_kind)
    &&& r.start_time_unix_nano@ == decimal(s.start_time.nanos())
    &&& r.end_time_unix_nano@ == decimal(s.end_time.nanos())
    &&& key_values_view(r.attributes@) == otlp_of_attributes(attributes_view(s.attributes@))
    &&& r.dropped_attributes_count == s.dropped_attributes_count
    &&& r.events@.len() == s.events@.len()
    &&& forall|i: int| 0 <= i < s.events@.len() ==> event_is_otlp_of(#[trigger] r.events@[i], s.events@[i])
    &&& r.dropped_events_count == s.dropped_events_count
    &&& r.links@.len() == s.links@.len()
    &&& forall|i: int| 0 <= i < s.links@.len() ==> link_is_otlp_of(#[trigger] r.links@[i], s.links@[i])
    &&& r.dropped_links_count == s.dropped_links_count
    &&& status_is_otlp_of(r.status, s.status)
    &&& r.flags == s.span_context.trace_flags as u32
    &&& r.trace_state.deep_view() == trace_state_text(s.span_context.trace_state@)
}

fn events_to_otlp(events: &Vec<Event>) -> (r: Vec<SpanEvent>)
    ensures
        r@.len() == events@.len(),
        forall|i: int| 0 <= i < events@.len() ==> event_is_otlp_of(#[trigger] r@[i], events@[i]),
{
    let mut out: Vec<SpanEvent> = Vec::new();
    let n = events.len();
    let mut i: usize = 0;
    while i < n
        invariant
            n == events@.len(),
            i <= n,
            out@.len() == i,
            forall|k: int| 0 <= k < i ==> event_is_otlp_of(#[trigger] out@[k], events@[k]),
        decreases n - i,
    {
        out.push(event_to_otlp(&events[i]));
        i = i + 1;
    }
    out
}

fn links_to_otlp(links: &Vec<Link>) -> (r: Vec<SpanLink>)
    ensures
        r@.len() == links@.len(),
        forall|i: int| 0 <= i < links@.len() ==> link_is_otlp_of(#[trigger] r@[i], links@[i]),
{
    let mut out: Vec<SpanLink> = Vec::new();
    let n = links.len();
    let mut i: usize = 0;
    while i < n
        invariant
            n == links@.len(),
            i <= n,
            out@.len() == i,
            forall|k: int| 0 <= k < i ==> link_is_otlp_of(#[trigger] out@[k], links@[k]),
        decreases n - i,
    {
        out.push(link_to_otlp(&links[i]));
        i = i + 1;
    }
    out
}

/// Convert a `SpanData` to an OTLP `Span`.
pub fn span_data_to_otlp(span: &SpanData) -> (r: Span)
    ensures
        span_is_otlp_of(r, *span),
{
    let parent_span_id = if span.parent_span_id == 0 {
        None
    } else {
        Some(span_id_to_hex(span.parent_span_id))
    };
    Span {
        trace_id: trace_id_to_hex(span.span_context.trace_id),
        span_id: span_id_to_hex(span.span_context.span_id),
        parent_span_id,
        name: span.name.clone(),
        kind: span_kind_to_otlp(&span.span_kind),
        start_time_unix_nano: nanos_text(&span.start_time),
        end_time_unix_nano: nanos_text(&span.end_time),
        attributes: attributes_to_otlp(&span.attributes),
        dropped_attributes_count: span.dropped_attributes_count,
        events: events_to_otlp(&span.events),
        dropped_events_count: span.dropped_events_count,
        links: links_to_otlp(&span.links),
        dropped_links_count: span.dropped_links_count,
        status: status_to_otlp(&span.status),
        flags: span.span_context.trace_flags as u32,
        trace_state: trace_state_to_otlp(&span.span_context.trace_state),
    }
}

/// The decimal nanosecond text of an optional timestamp.
pub open spec fn opt_nanos_text(t: Option<UnixTime>) -> Option<Seq<char>> {
    match t {
        Some(u) => Some(decimal(u.nanos())),
        None => None,
    }
}

/// `r` is the OTLP form of the log record `l`: the ids and flags come from
/// its trace context when it has one.
pub open spec fn log_record_is_otlp_of(r: LogRecord, l: LogRecordData) -> bool {
    &&& r.time_unix_nano.deep_view() == opt_nanos_text(l.timestamp)
    &&& r.observed_time_unix_nano.deep_view() == opt_nanos_text(l.observed_timestamp)
    &&& r.severity_number == l.severity_number
    &&& r.severity_text.deep_view() == l.severity_text.deep_view()
    &&& (match l.body {
        Some(b) => r.body is Some && value_view(r.body->0) == otlp_of_any(b),
        None => r.body is None,
    })
    &&& key_values_view(r.attributes@) == otlp_of_entries(l.attributes@)
    &&& (match l.trace_context {
        Some(tc) => {
            &&& r.trace_id.deep_view() == Some(trace_id_text(tc.trace_id))
            &&& r.span_id.deep_view() == Some(span_id_text(tc.span_id))
            &&& r.flags == (match tc.trace_flags {
                Some(f) => Some(f as u32),
                None => None,
            })
        },
        None => r.trace_id is None && r.span_id is None && r.flags is None,
    })
}

fn opt_nanos(t: &Option<UnixTime>) -> (r: Option<String>)
    ensures
        r.deep_view() == opt_nanos_text(*t),
{
    match t {
        Some(u) => Some(nanos_text(u)),
        None => None,
    }
}

/// Convert a log record to an OTLP `LogRecord`.
pub fn log_record_to_otlp(record: &LogRecordData) -> (r: LogRecord)
    ensures
        log_record_is_otlp_of(r, *record),
{
    let body = match &record.body {
        Some(b) => Some(any_value_to_otlp(b)),
        None => None,
    };
    let (trace_id, span_id, flags) = match &record.trace_context {
        Some(tc) => {
            let f = match tc.trace_flags {
                Some(f) => Some(f as u32),
                None => None,
            };
            (Some(trace_id_to_hex(tc.trace_id)), Some(span_id_to_hex(tc.span_id)), f)
        },
        None => (None, None, None),
    };
    LogRecord {
        time_unix_nano: opt_nanos(&record.timestamp),
        observed_time_unix_nano: opt_nanos(&record.observed_timestamp),
        severity_number: record.severity_number,
        severity_text: copy_opt_string(&record.severity_text),
        body,
        attributes: log_attributes_to_otlp(&record.attributes),
        trace_id,
        span_id,
        flags,
    }
}

/// A log value that is a boolean, an integer or a string converts to the
/// same OTLP value as the attribute value of that kind and content; a
/// boolean keeps its truth value and is written `{"boolValue":true}` or
/// `{"boolValue":false}`.
pub proof fn lemma_log_scalars_convert_as_attributes(b: bool, i: i64, s: String)
    ensures
        otlp_of_any(AnyValue::Boolean(b)) == OtlpValueView::BoolValue(b),
        otlp_of_any(AnyValue::Boolean(b)) == otlp_of_value(ValueView::Bool(b)),
        otlp_of_any(AnyValue::Boolean(true)) != otlp_of_any(AnyValue::Boolean(false)),
        json_value(otlp_of_any(AnyValue::Boolean(b))) == seq!['{'] + "\"boolValue\":"@ + (if b {
            seq!['t', 'r', 'u', 'e']
        } else {
            seq!['f', 'a', 'l', 's', 'e']
        }) + seq!['}'],
        otlp_of_any(AnyValue::Int(i)) == otlp_of_value(ValueView::I64(i)),
        otlp_of_any(AnyValue::String(s)) == otlp_of_value(ValueView::Str(s@)),
{
    let m = "\"boolValue\":"@ + json_bool(b);
    assert(json_object(seq![m]) =~= seq!['{'] + m + seq!['}']) by {
        assert(join_commas(seq![m]) == m);
    }
    assert(seq!['{'] + m + seq!['}'] =~= seq!['{'] + "\"boolValue\":"@ + json_bool(b) + seq!['}']);
}

/// An array attribute converts element by element: its OTLP array has one
/// value per element, in order, each the OTLP value of the attribute value
/// of that element's kind.
pub proof fn lemma_arrays_convert_elementwise(v: ValueView)
    ensures
        v is BoolArray ==> (otlp_of_value(v) matches OtlpValueView::ArrayValue(vs) && vs.len() == v->BoolArray_0.len()
            && forall|i: int| 0 <= i < vs.len() ==> vs[i] == otlp_of_value(ValueView::Bool(#[trigger] v->BoolArray_0[i]))),
        v is I64Array ==> (otlp_of_value(v) matches OtlpValueView::ArrayValue(vs) && vs.len() == v->I64Array_0.len()
            && forall|i: int| 0 <= i < vs.len() ==> vs[i] == otlp_of_value(ValueView::I64(#[trigger] v->I64Array_0[i]))),
        v is F64Array ==> (otlp_of_value(v) matches OtlpValueView::ArrayValue(vs) && vs.len() == v->F64Array_0.len()
            && forall|i: int| 0 <= i < vs.len() ==> vs[i] == otlp_of_value(ValueView::F64(#[trigger] v->F64Array_0[i]))),
        v is StrArray ==> (otlp_of_value(v) matches OtlpValueView::ArrayValue(vs) && vs.len() == v->StrArray_0.len()
            && forall|i: int| 0 <= i < vs.len() ==> vs[i] == otlp_of_value(ValueView::Str(#[trigger] v->StrArray_0[i]))),
{
}

proof fn lemma_any_list_elementwise(l: Seq<AnyValue>)
    ensures
        otlp_of_any_list(l).len() == l.len(),
        forall|i: int| 0 <= i < l.len() ==> otlp_of_any_list(l)[i] == otlp_of_any(#[trigger] l[i]),
    decreases l.len(),
{
    if l.len() > 0 {
        lemma_any_list_elementwise(l.drop_last());
        assert forall|i: int| 0 <= i < l.len() implies otlp_of_any_list(l)[i] == otlp_of_any(#[trigger] l[i]) by {
            if i < l.len() - 1 {
                assert(l.drop_last()[i] == l[i]);
            }
        }
    }
}

proof fn lemma_entries_elementwise(m: Seq<(String, AnyValue)>)
    ensures
        otlp_of_entries(m).len() == m.len(),
        forall|i: int| 0 <= i < m.len() ==> otlp_of_entries(m)[i] == ((#[trigger] m[i]).0@, otlp_of_any(m[i].1)),
    decreases m.len(),
{
    if m.len() > 0 {
        lemma_entries_elementwise(m.drop_last());
        assert forall|i: int| 0 <= i < m.len() implies otlp_of_entries(m)[i] == ((#[trigger] m[i]).0@, otlp_of_any(
            m[i].1,
        )) by {
            if i < m.len() - 1 {
                assert(m.drop_last()[i] == m[i]);
            }
        }
    }
}

/// Nested log values convert element by element: a list becomes an OTLP
/// array with one value per element, in order; a map becomes an OTLP
/// key-value list with one entry per map entry, in order, keeping each key.
pub proof fn lemma_log_lists_convert_elementwise(v: AnyValue)
    ensures
        v is ListAny ==> (otlp_of_any(v) matches OtlpValueView::ArrayValue(vs) && vs.len() == v->ListAny_0@.len()
            && forall|i: int| 0 <= i < vs.len() ==> vs[i] == otlp_of_any(#[trigger] v->ListAny_0@[i])),
        v is KeyValues ==> (otlp_of_any(v) matches OtlpValueView::KvlistValue(kvs) && kvs.len() == v->KeyValues_0@.len()
            && forall|i: int| 0 <= i < kvs.len() ==> kvs[i] == ((#[trigger] v->KeyValues_0@[i]).0@, otlp_of_any(
                v->KeyValues_0@[i].1,
            ))),
{
    match v {
        AnyValue::ListAny(l) => lemma_any_list_elementwise(l@),
        AnyValue::KeyValues(m) => lemma_entries_elementwise(m@),
        _ => {},
    }
}

/// An int64 attribute value is written as a JSON string holding its decimal
/// digits, never as a JSON number: `{"intValue":"<decimal>"}`.
pub proof fn lemma_int64_written_as_string(i: i64)
    ensures
        json_value(otlp_of_value(ValueView::I64(i))) == json_object(
            seq!["\"intValue\":"@ + seq!['"'] + signed_decimal(i as int) + seq!['"']],
        ),
        json_value(otlp_of_any(AnyValue::Int(i))) == json_value(otlp_of_value(ValueView::I64(i))),
{
    lemma_signed_decimal_plain(i as int);
    lemma_plain_needs_no_escape(signed_decimal(i as int));
}

/// Trace and span ids are written as JSON strings of exactly 32 and 16
/// lowercase hex digits.
pub proof fn lemma_ids_written_as_hex(trace_id: u128, span_id: u64)
    ensures
        trace_id_text(trace_id).len() == 32,
        all_lower_hex(trace_id_text(trace_id)),
        json_string(trace_id_text(trace_id)) == seq!['"'] + trace_id_text(trace_id) + seq!['"'],
        span_id_text(span_id).len() == 16,
        all_lower_hex(span_id_text(span_id)),
        json_string(span_id_text(span_id)) == seq!['"'] + span_id_text(span_id) + seq!['"'],
{
    lemma_hex_digits(trace_id as nat, 32);
    lemma_plain_needs_no_escape(trace_id_text(trace_id));
    lemma_hex_digits(span_id as nat, 16);
    lemma_plain_needs_no_escape(span_id_text(span_id));
}

/// What the JSON of an exported span leaves out: the parent span id exactly
/// for a root span; the attributes, events and links exactly when there are
/// none; each dropped count and the trace flags exactly when zero; the trace
/// state exactly when its header is empty.
pub proof fn lemma_span_omissions(r: Span, s: SpanData)
    requires
        span_is_otlp_of(r, s),
    ensures
        (opt_string_members("\"parentSpanId\":"@, r.parent_span_id).len() == 0) == (s.parent_span_id == 0),
        s.parent_span_id != 0 ==> opt_string_members("\"parentSpanId\":"@, r.parent_span_id) == seq![
            "\"parentSpanId\":"@ + json_string(span_id_text(s.parent_span_id)),
        ],
        (attributes_members("\"attributes\":"@, r.attributes@).len() == 0) == (s.attributes@.len() == 0),
        (r.events@.len() == 0) == (s.events@.len() == 0),
        (r.links@.len() == 0) == (s.links@.len() == 0),
        (nonzero_members("\"droppedAttributesCount\":"@, r.dropped_attributes_count).len() == 0) == (
        s.dropped_attributes_count == 0),
        (nonzero_members("\"droppedEventsCount\":"@, r.dropped_events_count).len() == 0) == (
        s.dropped_events_count == 0),
        (nonzero_members("\"droppedLinksCount\":"@, r.dropped_links_count).len() == 0) == (
        s.dropped_links_count == 0),
        (nonzero_members("\"flags\":"@, r.flags).len() == 0) == (s.span_context.trace_flags == 0),
        (opt_string_members("\"traceState\":"@, r.trace_state).len() == 0) == (
        s.span_context.trace_state@.len() == 0),
{
    if s.parent_span_id != 0 {
        assert(r.parent_span_id is Some);
        assert(r.parent_span_id->0@ == span_id_text(s.parent_span_id));
    }
    if r.parent_span_id is Some {
        assert(r.parent_span_id.deep_view() is Some);
    }
    let kvs = attributes_view(s.attributes@);
    assert(key_values_view(r.attributes@).len() == kvs.len());
    lemma_key_values_view_len(r.attributes@);
    if r.trace_state is Some {
        assert(r.trace_state.deep_view() is Some);
    }
}

pub(crate) proof fn lemma_key_values_view_len(s: Seq<OtlpKeyValue>)
    ensures
        key_values_view(s).len() == s.len(),
    decreases s.len(),
{
    if s.len() > 0 {
        lemma_key_values_view_len(s.drop_last());
    }
}

} // verus!
