//! Line framing of the exports: the JSON text of an export request holds no
//! line break, so the line written for a batch ends at its only line break.
//!
//! The one text that the library does not write itself is the JSON number of
//! a double; the statements here hold for requests whose double texts hold
//! no line break.

use vstd::prelude::*;

use crate::convert::{
    event_is_otlp_of, link_is_otlp_of, log_record_is_otlp_of, otlp_of_any, otlp_of_any_list,
    otlp_of_attributes, otlp_of_entries, otlp_of_value, scope_is_otlp_of, span_is_otlp_of,
};
use crate::export::{
    entry_scopes, json_line, lemma_scope_leaders, lemma_scope_members, logs_request_is_otlp_of,
    scope_leaders, span_scopes, trace_request_is_otlp_of,
};
use crate::json::{
    attributes_members, join_commas, json_array, json_attributes, json_bool, json_key_value,
    json_key_values, json_log_record, json_log_records, json_logs_request, json_object,
    json_resource, json_resource_logs, json_resource_logs_list, json_resource_spans,
    json_resource_spans_list, json_scope, json_scope_logs, json_scope_logs_list, json_scope_spans,
    json_scope_spans_list, json_span, json_span_event, json_span_events, json_span_link,
    json_span_links, json_span_status, json_spans, json_trace_request, json_value, json_values,
    log_record_members, nonzero_members, opt_number_members, opt_string_members, span_body_members,
    span_event_members, span_head_members, span_link_members, span_members, span_status_members,
    span_tail_members, string_member,
};
use crate::model::{attributes_view, AnyValue, KeyValue, LogBatchEntry, SpanData, ValueView};
use crate::otlp::{
    key_values_view, value_view, ExportLogsServiceRequest, ExportTraceServiceRequest, LogRecord,
    OtlpKeyValue, OtlpValueView, Resource, ResourceLogs, ResourceSpans, Scope, ScopeLogs, ScopeSpans,
    Span, SpanEvent, SpanLink, SpanStatus,
};
use crate::text::{
    decimal, hex_char, json_escape, json_escape_char, json_string, lemma_decimal_digits,
    signed_decimal,
};

verus! {

/// The text holds no line break.
pub open spec fn no_line_break(s: Seq<char>) -> bool {
    forall|i: int| 0 <= i < s.len() ==> s[i] != '\n'
}

/// None of the texts holds a line break.
pub open spec fn none_with_line_break(items: Seq<Seq<char>>) -> bool {
    forall|k: int| 0 <= k < items.len() ==> no_line_break(#[trigger] items[k])
}

broadcast proof fn lemma_concat(a: Seq<char>, b: Seq<char>)
    requires
        no_line_break(a),
        no_line_break(b),
    ensures
        #[trigger] no_line_break(a + b),
{
    assert forall|i: int| 0 <= i < (a + b).len() implies (a + b)[i] != '\n' by {
        if i < a.len() {
            assert((a + b)[i] == a[i]);
        } else {
            assert((a + b)[i] == b[i - a.len()]);
        }
    }
}

broadcast proof fn lemma_items_concat(x: Seq<Seq<char>>, y: Seq<Seq<char>>)
    requires
        none_with_line_break(x),
        none_with_line_break(y),
    ensures
        #[trigger] none_with_line_break(x + y),
{
    assert forall|k: int| 0 <= k < (x + y).len() implies no_line_break(#[trigger] (x + y)[k]) by {
        if k < x.len() {
            assert((x + y)[k] == x[k]);
        } else {
            assert((x + y)[k] == y[k - x.len()]);
        }
    }
}

proof fn lemma_join(items: Seq<Seq<char>>)
    requires
        none_with_line_break(items),
    ensures
        no_line_break(join_commas(items)),
        no_line_break(json_object(items)),
        no_line_break(json_array(items)),
    decreases items.len(),
{
    broadcast use lemma_concat;

    if items.len() == 1 {
        assert(no_line_break(items[0]));
    } else if items.len() > 1 {
        let p = items.drop_last();
        assert forall|k: int| 0 <= k < p.len() implies no_line_break(#[trigger] p[k]) by {
            assert(p[k] == items[k]);
        }
        lemma_join(p);
        assert(no_line_break(items[items.len() - 1]));
        assert(no_line_break(seq![',']));
    }
    assert(no_line_break(seq!['{']));
    assert(no_line_break(seq!['}']));
    assert(no_line_break(seq!['[']));
    assert(no_line_break(seq![']']));
}

proof fn lemma_escape_char(c: char)
    ensures
        no_line_break(json_escape_char(c)),
{
    let u = c as u32;
    assert('\n' as u32 == 10);
    if u < 32 && u != 8 && u != 9 && u != 10 && u != 12 && u != 13 {
        let hi = (u / 16) as nat;
        let lo = (u % 16) as nat;
        assert(hex_char(hi) != '\n');
        assert(hex_char(lo) != '\n');
    }
}

proof fn lemma_escape(s: Seq<char>)
    ensures
        no_line_break(json_escape(s)),
        no_line_break(json_string(s)),
    decreases s.len(),
{
    broadcast use lemma_concat;

    if s.len() > 0 {
        lemma_escape(s.drop_last());
        lemma_escape_char(s.last());
    }
    assert(no_line_break(seq!['"']));
}

proof fn lemma_decimal(n: nat)
    ensures
        no_line_break(decimal(n)),
{
    lemma_decimal_digits(n);
    assert forall|i: int| 0 <= i < decimal(n).len() implies decimal(n)[i] != '\n' by {
        assert('0' <= decimal(n)[i] <= '9');
    }
}

/// The double texts in an OTLP value hold no line break.
pub open spec fn value_doubles_unbroken(v: OtlpValueView) -> bool
    decreases v,
{
    match v {
        OtlpValueView::DoubleValue(t) => no_line_break(t),
        OtlpValueView::ArrayValue(vs) => values_doubles_unbroken(vs),
        OtlpValueView::KvlistValue(kvs) => key_values_doubles_unbroken(kvs),
        _ => true,
    }
}

/// The double texts in a sequence of OTLP values hold no line break.
pub open spec fn values_doubles_unbroken(vs: Seq<OtlpValueView>) -> bool
    decreases vs,
{
    if vs.len() == 0 {
        true
    } else {
        values_doubles_unbroken(vs.drop_last()) && value_doubles_unbroken(vs.last())
    }
}

/// The double texts in a sequence of OTLP key-values hold no line break.
pub open spec fn key_values_doubles_unbroken(kvs: Seq<(Seq<char>, OtlpValueView)>) -> bool
    decreases kvs,
{
    if kvs.len() == 0 {
        true
    } else {
        key_values_doubles_unbroken(kvs.drop_last()) && value_doubles_unbroken(kvs.last().1)
    }
}

proof fn lemma_single(x: Seq<char>)
    requires
        no_line_break(x),
    ensures
        none_with_line_break(seq![x]),
{
    assert(seq![x][0] == x);
}

proof fn lemma_value(v: OtlpValueView)
    requires
        value_doubles_unbroken(v),
    ensures
        no_line_break(json_value(v)),
    decreases v,
{
    broadcast use lemma_concat;

    reveal_strlit("\"stringValue\":");
    reveal_strlit("\"boolValue\":");
    reveal_strlit("\"intValue\":");
    reveal_strlit("\"doubleValue\":");
    reveal_strlit("\"arrayValue\":");
    reveal_strlit("\"kvlistValue\":");
    reveal_strlit("\"bytesValue\":");
    reveal_strlit("\"values\":");
    match v {
        OtlpValueView::StringValue(s) => {
            lemma_escape(s);
            lemma_single("\"stringValue\":"@ + json_string(s));
        },
        OtlpValueView::BoolValue(b) => {
            assert(no_line_break(json_bool(b)));
            lemma_single("\"boolValue\":"@ + json_bool(b));
        },
        OtlpValueView::IntValue(s) => {
            lemma_escape(s);
            lemma_single("\"intValue\":"@ + json_string(s));
        },
        OtlpValueView::DoubleValue(t) => {
            lemma_single("\"doubleValue\":"@ + t);
        },
        OtlpValueView::ArrayValue(vs) => {
            lemma_values(vs);
            lemma_join(json_values(vs));
            lemma_single("\"values\":"@ + json_array(json_values(vs)));
            let inner = json_object(seq!["\"values\":"@ + json_array(json_values(vs))]);
            lemma_join(seq!["\"values\":"@ + json_array(json_values(vs))]);
            lemma_single("\"arrayValue\":"@ + inner);
        },
        OtlpValueView::KvlistValue(kvs) => {
            lemma_key_values(kvs);
            lemma_join(json_key_values(kvs));
            lemma_single("\"values\":"@ + json_array(json_key_values(kvs)));
            let inner = json_object(seq!["\"values\":"@ + json_array(json_key_values(kvs))]);
            lemma_join(seq!["\"values\":"@ + json_array(json_key_values(kvs))]);
            lemma_single("\"kvlistValue\":"@ + inner);
        },
        OtlpValueView::BytesValue(s) => {
            lemma_escape(s);
            lemma_single("\"bytesValue\":"@ + json_string(s));
        },
    }
}

proof fn lemma_values(vs: Seq<OtlpValueView>)
    requires
        values_doubles_unbroken(vs),
    ensures
        none_with_line_break(json_values(vs)),
    decreases vs,
{
    if vs.len() > 0 {
        lemma_values(vs.drop_last());
        lemma_value(vs.last());
        let p = json_values(vs.drop_last());
        assert forall|k: int| 0 <= k < json_values(vs).len() implies no_line_break(#[trigger] json_values(vs)[k]) by {
            if k < p.len() {
                assert(json_values(vs)[k] == p[k]);
            }
        }
    }
}

proof fn lemma_key_values(kvs: Seq<(Seq<char>, OtlpValueView)>)
    requires
        key_values_doubles_unbroken(kvs),
    ensures
        none_with_line_break(json_key_values(kvs)),
    decreases kvs,
{
    broadcast use lemma_concat;

    if kvs.len() > 0 {
        lemma_key_values(kvs.drop_last());
        let kv = kvs.last();
        lemma_value(kv.1);
        lemma_escape(kv.0);
        reveal_strlit("\"key\":");
        reveal_strlit("\"value\":");
        let members = seq!["\"key\":"@ + json_string(kv.0), "\"value\":"@ + json_value(kv.1)];
        assert(none_with_line_break(members)) by {
            assert(members[0] == "\"key\":"@ + json_string(kv.0));
            assert(members[1] == "\"value\":"@ + json_value(kv.1));
        }
        lemma_join(members);
        assert(no_line_break(json_key_value(kv)));
        let p = json_key_values(kvs.drop_last());
        assert forall|k: int| 0 <= k < json_key_values(kvs).len() implies no_line_break(
            #[trigger] json_key_values(kvs)[k],
        ) by {
            if k < p.len() {
                assert(json_key_values(kvs)[k] == p[k]);
            }
        }
    }
}

/// The member names of the OTLP objects hold no line break.
proof fn lemma_names()
    ensures
        no_line_break("\"attributes\":"@),
        no_line_break("\"body\":"@),
        no_line_break("\"code\":"@),
        no_line_break("\"droppedAttributesCount\":"@),
        no_line_break("\"droppedEventsCount\":"@),
        no_line_break("\"droppedLinksCount\":"@),
        no_line_break("\"endTimeUnixNano\":"@),
        no_line_break("\"events\":"@),
        no_line_break("\"flags\":"@),
        no_line_break("\"kind\":"@),
        no_line_break("\"links\":"@),
        no_line_break("\"logRecords\":"@),
        no_line_break("\"message\":"@),
        no_line_break("\"name\":"@),
        no_line_break("\"observedTimeUnixNano\":"@),
        no_line_break("\"parentSpanId\":"@),
        no_line_break("\"resourceLogs\":"@),
        no_line_break("\"resourceSpans\":"@),
        no_line_break("\"resource\":"@),
        no_line_break("\"schemaUrl\":"@),
        no_line_break("\"scopeLogs\":"@),
        no_line_break("\"scopeSpans\":"@),
        no_line_break("\"scope\":"@),
        no_line_break("\"severityNumber\":"@),
        no_line_break("\"severityText\":"@),
        no_line_break("\"spanId\":"@),
        no_line_break("\"spans\":"@),
        no_line_break("\"startTimeUnixNano\":"@),
        no_line_break("\"status\":"@),
        no_line_break("\"timeUnixNano\":"@),
        no_line_break("\"traceId\":"@),
        no_line_break("\"traceState\":"@),
        no_line_break("\"version\":"@),
{
    reveal_strlit("\"attributes\":");
    reveal_strlit("\"body\":");
    reveal_strlit("\"code\":");
    reveal_strlit("\"droppedAttributesCount\":");
    reveal_strlit("\"droppedEventsCount\":");
    reveal_strlit("\"droppedLinksCount\":");
    reveal_strlit("\"endTimeUnixNano\":");
    reveal_strlit("\"events\":");
    reveal_strlit("\"flags\":");
    reveal_strlit("\"kind\":");
    reveal_strlit("\"links\":");
    reveal_strlit("\"logRecords\":");
    reveal_strlit("\"message\":");
    reveal_strlit("\"name\":");
    reveal_strlit("\"observedTimeUnixNano\":");
    reveal_strlit("\"parentSpanId\":");
    reveal_strlit("\"resourceLogs\":");
    reveal_strlit("\"resourceSpans\":");
    reveal_strlit("\"resource\":");
    reveal_strlit("\"schemaUrl\":");
    reveal_strlit("\"scopeLogs\":");
    reveal_strlit("\"scopeSpans\":");
    reveal_strlit("\"scope\":");
    reveal_strlit("\"severityNumber\":");
    reveal_strlit("\"severityText\":");
    reveal_strlit("\"spanId\":");
    reveal_strlit("\"spans\":");
    reveal_strlit("\"startTimeUnixNano\":");
    reveal_strlit("\"status\":");
    reveal_strlit("\"timeUnixNano\":");
    reveal_strlit("\"traceId\":");
    reveal_strlit("\"traceState\":");
    reveal_strlit("\"version\":");
}

/// The double texts in a list of OTLP key-values hold no line break.
pub open spec fn attributes_doubles_unbroken(kvs: Seq<OtlpKeyValue>) -> bool {
    key_values_doubles_unbroken(key_values_view(kvs))
}

proof fn lemma_string_member(name: Seq<char>, s: String)
    requires
        no_line_break(name),
    ensures
        no_line_break(string_member(name, s)),
        none_with_line_break(seq![string_member(name, s)]),
{
    broadcast use lemma_concat;

    lemma_escape(s@);
    lemma_single(string_member(name, s));
}

proof fn lemma_number_member(name: Seq<char>, n: nat)
    requires
        no_line_break(name),
    ensures
        no_line_break(name + decimal(n)),
        none_with_line_break(seq![name + decimal(n)]),
{
    broadcast use lemma_concat;

    lemma_decimal(n);
    lemma_single(name + decimal(n));
}

proof fn lemma_optional_members(name: Seq<char>, o: Option<String>, p: Option<u32>, n: u32)
    requires
        no_line_break(name),
    ensures
        none_with_line_break(opt_string_members(name, o)),
        none_with_line_break(opt_number_members(name, p)),
        none_with_line_break(nonzero_members(name, n)),
{
    if let Some(s) = o {
        lemma_string_member(name, s);
    }
    if let Some(m) = p {
        lemma_number_member(name, m as nat);
    }
    lemma_number_member(name, n as nat);
}

proof fn lemma_attributes(name: Seq<char>, kvs: Seq<OtlpKeyValue>)
    requires
        no_line_break(name),
        attributes_doubles_unbroken(kvs),
    ensures
        no_line_break(json_attributes(kvs)),
        none_with_line_break(attributes_members(name, kvs)),
        none_with_line_break(seq![name + json_attributes(kvs)]),
{
    broadcast use lemma_concat;

    lemma_key_values(key_values_view(kvs));
    lemma_join(json_key_values(key_values_view(kvs)));
    lemma_single(name + json_attributes(kvs));
}

proof fn lemma_resource(r: Resource)
    requires
        attributes_doubles_unbroken(r.attributes@),
    ensures
        no_line_break(json_resource(r)),
{
    lemma_names();
    lemma_attributes("\"attributes\":"@, r.attributes@);
    lemma_join(seq!["\"attributes\":"@ + json_attributes(r.attributes@)]);
}

proof fn lemma_scope(s: Scope)
    requires
        attributes_doubles_unbroken(s.attributes@),
    ensures
        no_line_break(json_scope(s)),
{
    broadcast use lemma_items_concat;

    lemma_names();
    lemma_string_member("\"name\":"@, s.name);
    lemma_optional_members("\"version\":"@, s.version, None, 0);
    lemma_optional_members("\"schemaUrl\":"@, s.schema_url, None, 0);
    lemma_attributes("\"attributes\":"@, s.attributes@);
    lemma_join(crate::json::scope_members(s));
}

proof fn lemma_status(s: SpanStatus)
    ensures
        no_line_break(json_span_status(s)),
{
    broadcast use lemma_items_concat;

    lemma_names();
    lemma_number_member("\"code\":"@, s.code as nat);
    lemma_string_member("\"message\":"@, s.message);
    assert(none_with_line_break(Seq::<Seq<char>>::empty()));
    lemma_join(span_status_members(s));
}

proof fn lemma_event(e: SpanEvent)
    requires
        attributes_doubles_unbroken(e.attributes@),
    ensures
        no_line_break(json_span_event(e)),
{
    broadcast use lemma_items_concat;

    lemma_names();
    lemma_string_member("\"timeUnixNano\":"@, e.time_unix_nano);
    lemma_string_member("\"name\":"@, e.name);
    let head = seq![string_member("\"timeUnixNano\":"@, e.time_unix_nano), string_member("\"name\":"@, e.name)];
    assert(none_with_line_break(head)) by {
        assert(head[0] == string_member("\"timeUnixNano\":"@, e.time_unix_nano));
        assert(head[1] == string_member("\"name\":"@, e.name));
    }
    lemma_attributes("\"attributes\":"@, e.attributes@);
    lemma_optional_members("\"droppedAttributesCount\":"@, None, None, e.dropped_attributes_count);
    lemma_join(span_event_members(e));
}

proof fn lemma_link(l: SpanLink)
    requires
        attributes_doubles_unbroken(l.attributes@),
    ensures
        no_line_break(json_span_link(l)),
{
    broadcast use lemma_items_concat;

    lemma_names();
    lemma_string_member("\"traceId\":"@, l.trace_id);
    lemma_string_member("\"spanId\":"@, l.span_id);
    let head = seq![string_member("\"traceId\":"@, l.trace_id), string_member("\"spanId\":"@, l.span_id)];
    assert(none_with_line_break(head)) by {
        assert(head[0] == string_member("\"traceId\":"@, l.trace_id));
        assert(head[1] == string_member("\"spanId\":"@, l.span_id));
    }
    lemma_attributes("\"attributes\":"@, l.attributes@);
    lemma_optional_members("\"droppedAttributesCount\":"@, None, None, l.dropped_attributes_count);
    lemma_optional_members("\"flags\":"@, None, None, l.flags);
    lemma_optional_members("\"traceState\":"@, l.trace_state, None, 0);
    lemma_join(span_link_members(l));
}

/// The double texts of a span (its attributes and those of its events and
/// links) hold no line break.
pub open spec fn span_doubles_unbroken(s: Span) -> bool {
    &&& attributes_doubles_unbroken(s.attributes@)
    &&& forall|k: int| 0 <= k < s.events@.len() ==> attributes_doubles_unbroken(#[trigger] s.events@[k].attributes@)
    &&& forall|k: int| 0 <= k < s.links@.len() ==> attributes_doubles_unbroken(#[trigger] s.links@[k].attributes@)
}

proof fn lemma_span(s: Span)
    requires
        span_doubles_unbroken(s),
    ensures
        no_line_break(json_span(s)),
{
    broadcast use lemma_concat, lemma_items_concat;

    lemma_names();
    // Identifying members.
    lemma_string_member("\"traceId\":"@, s.trace_id);
    lemma_string_member("\"spanId\":"@, s.span_id);
    lemma_optional_members("\"parentSpanId\":"@, s.parent_span_id, None, 0);
    lemma_string_member("\"name\":"@, s.name);
    lemma_number_member("\"kind\":"@, s.kind as nat);
    lemma_string_member("\"startTimeUnixNano\":"@, s.start_time_unix_nano);
    lemma_string_member("\"endTimeUnixNano\":"@, s.end_time_unix_nano);
    let ids = seq![string_member("\"traceId\":"@, s.trace_id), string_member("\"spanId\":"@, s.span_id)];
    assert(none_with_line_break(ids)) by {
        assert(ids[0] == string_member("\"traceId\":"@, s.trace_id));
        assert(ids[1] == string_member("\"spanId\":"@, s.span_id));
    }
    let rest = seq![
        string_member("\"name\":"@, s.name),
        "\"kind\":"@ + decimal(s.kind as nat),
        string_member("\"startTimeUnixNano\":"@, s.start_time_unix_nano),
        string_member("\"endTimeUnixNano\":"@, s.end_time_unix_nano),
    ];
    assert(none_with_line_break(rest)) by {
        assert(rest[0] == string_member("\"name\":"@, s.name));
        assert(rest[1] == "\"kind\":"@ + decimal(s.kind as nat));
        assert(rest[2] == string_member("\"startTimeUnixNano\":"@, s.start_time_unix_nano));
        assert(rest[3] == string_member("\"endTimeUnixNano\":"@, s.end_time_unix_nano));
    }
    assert(none_with_line_break(span_head_members(s)));
    // Attributes, events and links.
    lemma_attributes("\"attributes\":"@, s.attributes@);
    lemma_optional_members("\"droppedAttributesCount\":"@, None, None, s.dropped_attributes_count);
    lemma_optional_members("\"droppedEventsCount\":"@, None, None, s.dropped_events_count);
    lemma_optional_members("\"droppedLinksCount\":"@, None, None, s.dropped_links_count);
    let events = s.events@.map_values(|x: SpanEvent| json_span_event(x));
    assert forall|k: int| 0 <= k < events.len() implies no_line_break(#[trigger] events[k]) by {
        assert(attributes_doubles_unbroken(s.events@[k].attributes@));
        lemma_event(s.events@[k]);
    }
    lemma_join(events);
    let links = s.links@.map_values(|x: SpanLink| json_span_link(x));
    assert forall|k: int| 0 <= k < links.len() implies no_line_break(#[trigger] links[k]) by {
        assert(attributes_doubles_unbroken(s.links@[k].attributes@));
        lemma_link(s.links@[k]);
    }
    lemma_join(links);
    lemma_single("\"events\":"@ + json_span_events(s.events@));
    lemma_single("\"links\":"@ + json_span_links(s.links@));
    assert(none_with_line_break(Seq::<Seq<char>>::empty()));
    assert(none_with_line_break(span_body_members(s)));
    // Status, flags and trace state.
    lemma_status(s.status);
    lemma_single("\"status\":"@ + json_span_status(s.status));
    lemma_optional_members("\"flags\":"@, None, None, s.flags);
    lemma_optional_members("\"traceState\":"@, s.trace_state, None, 0);
    assert(none_with_line_break(span_tail_members(s)));
    lemma_join(span_members(s));
}

/// The double texts of a scope group of spans hold no line break.
pub open spec fn scope_spans_doubles_unbroken(g: ScopeSpans) -> bool {
    &&& attributes_doubles_unbroken(g.scope.attributes@)
    &&& forall|m: int| 0 <= m < g.spans@.len() ==> span_doubles_unbroken(#[trigger] g.spans@[m])
}

/// The double texts of a resource group of spans hold no line break.
pub open spec fn resource_spans_doubles_unbroken(r: ResourceSpans) -> bool {
    &&& attributes_doubles_unbroken(r.resource.attributes@)
    &&& forall|g: int| 0 <= g < r.scope_spans@.len() ==> scope_spans_doubles_unbroken(#[trigger] r.scope_spans@[g])
}

/// The double texts of a trace export request hold no line break.
pub open spec fn trace_request_doubles_unbroken(q: ExportTraceServiceRequest) -> bool {
    forall|r: int| 0 <= r < q.resource_spans@.len() ==> resource_spans_doubles_unbroken(#[trigger] q.resource_spans@[r])
}

proof fn lemma_scope_spans(g: ScopeSpans)
    requires
        scope_spans_doubles_unbroken(g),
    ensures
        no_line_break(json_scope_spans(g)),
{
    broadcast use lemma_concat;

    lemma_names();
    lemma_scope(g.scope);
    let spans = g.spans@.map_values(|x: Span| json_span(x));
    assert forall|k: int| 0 <= k < spans.len() implies no_line_break(#[trigger] spans[k]) by {
        assert(span_doubles_unbroken(g.spans@[k]));
        lemma_span(g.spans@[k]);
    }
    lemma_join(spans);
    let members = seq!["\"scope\":"@ + json_scope(g.scope), "\"spans\":"@ + json_spans(g.spans@)];
    assert(none_with_line_break(members)) by {
        assert(members[0] == "\"scope\":"@ + json_scope(g.scope));
        assert(members[1] == "\"spans\":"@ + json_spans(g.spans@));
    }
    lemma_join(members);
}

proof fn lemma_resource_spans(r: ResourceSpans)
    requires
        resource_spans_doubles_unbroken(r),
    ensures
        no_line_break(json_resource_spans(r)),
{
    broadcast use lemma_concat;

    lemma_names();
    lemma_resource(r.resource);
    let groups = r.scope_spans@.map_values(|x: ScopeSpans| json_scope_spans(x));
    assert forall|k: int| 0 <= k < groups.len() implies no_line_break(#[trigger] groups[k]) by {
        assert(scope_spans_doubles_unbroken(r.scope_spans@[k]));
        lemma_scope_spans(r.scope_spans@[k]);
    }
    lemma_join(groups);
    let members = seq![
        "\"resource\":"@ + json_resource(r.resource),
        "\"scopeSpans\":"@ + json_scope_spans_list(r.scope_spans@),
    ];
    assert(none_with_line_break(members)) by {
        assert(members[0] == "\"resource\":"@ + json_resource(r.resource));
        assert(members[1] == "\"scopeSpans\":"@ + json_scope_spans_list(r.scope_spans@));
    }
    lemma_join(members);
}

/// An exported span batch is written as exactly one line: the JSON text of
/// the export request holds no line break (where its double texts hold
/// none), so the line written for it holds one line break, at its end.
pub proof fn lemma_trace_request_one_line(q: ExportTraceServiceRequest)
    requires
        trace_request_doubles_unbroken(q),
    ensures
        no_line_break(json_trace_request(q)),
        forall|i: int|
            0 <= i < json_line(json_trace_request(q)).len() ==> (#[trigger] json_line(json_trace_request(q))[i]
                == '\n' <==> i == json_line(json_trace_request(q)).len() - 1),
{
    broadcast use lemma_concat;

    lemma_names();
    let groups = q.resource_spans@.map_values(|x: ResourceSpans| json_resource_spans(x));
    assert forall|k: int| 0 <= k < groups.len() implies no_line_break(#[trigger] groups[k]) by {
        assert(resource_spans_doubles_unbroken(q.resource_spans@[k]));
        lemma_resource_spans(q.resource_spans@[k]);
    }
    lemma_join(groups);
    lemma_single("\"resourceSpans\":"@ + json_resource_spans_list(q.resource_spans@));
    lemma_join(seq!["\"resourceSpans\":"@ + json_resource_spans_list(q.resource_spans@)]);
    let j = json_trace_request(q);
    assert forall|i: int| 0 <= i < json_line(j).len() implies (#[trigger] json_line(j)[i] == '\n' <==> i
        == json_line(j).len() - 1) by {
        if i < j.len() {
            assert(json_line(j)[i] == j[i]);
        }
    }
}

/// The double texts of a log record (its body and attributes) hold no line break.
pub open spec fn log_record_doubles_unbroken(r: LogRecord) -> bool {
    &&& (r.body matches Some(b) ==> value_doubles_unbroken(value_view(b)))
    &&& attributes_doubles_unbroken(r.attributes@)
}

/// The double texts of a scope group of log records hold no line break.
pub open spec fn scope_logs_doubles_unbroken(g: ScopeLogs) -> bool {
    &&& attributes_doubles_unbroken(g.scope.attributes@)
    &&& forall|m: int| 0 <= m < g.log_records@.len() ==> log_record_doubles_unbroken(#[trigger] g.log_records@[m])
}

/// The double texts of a resource group of log records hold no line break.
pub open spec fn resource_logs_doubles_unbroken(r: ResourceLogs) -> bool {
    &&& attributes_doubles_unbroken(r.resource.attributes@)
    &&& forall|g: int| 0 <= g < r.scope_logs@.len() ==> scope_logs_doubles_unbroken(#[trigger] r.scope_logs@[g])
}

/// The double texts of a logs export request hold no line break.
pub open spec fn logs_request_doubles_unbroken(q: ExportLogsServiceRequest) -> bool {
    forall|r: int| 0 <= r < q.resource_logs@.len() ==> resource_logs_doubles_unbroken(#[trigger] q.resource_logs@[r])
}

proof fn lemma_log_record(r: LogRecord)
    requires
        log_record_doubles_unbroken(r),
    ensures
        no_line_break(json_log_record(r)),
{
    broadcast use lemma_concat, lemma_items_concat;

    lemma_names();
    lemma_optional_members("\"timeUnixNano\":"@, r.time_unix_nano, r.severity_number, 0);
    lemma_optional_members("\"observedTimeUnixNano\":"@, r.observed_time_unix_nano, None, 0);
    lemma_optional_members("\"severityNumber\":"@, None, r.severity_number, 0);
    lemma_optional_members("\"severityText\":"@, r.severity_text, None, 0);
    if let Some(b) = r.body {
        lemma_value(value_view(b));
        lemma_single("\"body\":"@ + json_value(value_view(b)));
    }
    assert(none_with_line_break(Seq::<Seq<char>>::empty()));
    lemma_attributes("\"attributes\":"@, r.attributes@);
    lemma_optional_members("\"traceId\":"@, r.trace_id, None, 0);
    lemma_optional_members("\"spanId\":"@, r.span_id, None, 0);
    lemma_optional_members("\"flags\":"@, None, r.flags, 0);
    lemma_join(log_record_members(r));
}

proof fn lemma_scope_logs(g: ScopeLogs)
    requires
        scope_logs_doubles_unbroken(g),
    ensures
        no_line_break(json_scope_logs(g)),
{
    broadcast use lemma_concat;

    lemma_names();
    lemma_scope(g.scope);
    let records = g.log_records@.map_values(|x: LogRecord| json_log_record(x));
    assert forall|k: int| 0 <= k < records.len() implies no_line_break(#[trigger] records[k]) by {
        assert(log_record_doubles_unbroken(g.log_records@[k]));
        lemma_log_record(g.log_records@[k]);
    }
    lemma_join(records);
    let members = seq!["\"scope\":"@ + json_scope(g.scope), "\"logRecords\":"@ + json_log_records(g.log_records@)];
    assert(none_with_line_break(members)) by {
        assert(members[0] == "\"scope\":"@ + json_scope(g.scope));
        assert(members[1] == "\"logRecords\":"@ + json_log_records(g.log_records@));
    }
    lemma_join(members);
}

proof fn lemma_resource_logs(r: ResourceLogs)
    requires
        resource_logs_doubles_unbroken(r),
    ensures
        no_line_break(json_resource_logs(r)),
{
    broadcast use lemma_concat;

    lemma_names();
    lemma_resource(r.resource);
    let groups = r.scope_logs@.map_values(|x: ScopeLogs| json_scope_logs(x));
    assert forall|k: int| 0 <= k < groups.len() implies no_line_break(#[trigger] groups[k]) by {
        assert(scope_logs_doubles_unbroken(r.scope_logs@[k]));
        lemma_scope_logs(r.scope_logs@[k]);
    }
    lemma_join(groups);
    let members = seq![
        "\"resource\":"@ + json_resource(r.resource),
        "\"scopeLogs\":"@ + json_scope_logs_list(r.scope_logs@),
    ];
    assert(none_with_line_break(members)) by {
        assert(members[0] == "\"resource\":"@ + json_resource(r.resource));
        assert(members[1] == "\"scopeLogs\":"@ + json_scope_logs_list(r.scope_logs@));
    }
    lemma_join(members);
}

/// An exported log batch is written as exactly one line: the JSON text of
/// the export request holds no line break (where its double texts hold
/// none), so the line written for it holds one line break, at its end.
pub proof fn lemma_logs_request_one_line(q: ExportLogsServiceRequest)
    requires
        logs_request_doubles_unbroken(q),
    ensures
        no_line_break(json_logs_request(q)),
        forall|i: int|
            0 <= i < json_line(json_logs_request(q)).len() ==> (#[trigger] json_line(json_logs_request(q))[i]
                == '\n' <==> i == json_line(json_logs_request(q)).len() - 1),
{
    broadcast use lemma_concat;

    lemma_names();
    let groups = q.resource_logs@.map_values(|x: ResourceLogs| json_resource_logs(x));
    assert forall|k: int| 0 <= k < groups.len() implies no_line_break(#[trigger] groups[k]) by {
        assert(resource_logs_doubles_unbroken(q.resource_logs@[k]));
        lemma_resource_logs(q.resource_logs@[k]);
    }
    lemma_join(groups);
    lemma_single("\"resourceLogs\":"@ + json_resource_logs_list(q.resource_logs@));
    lemma_join(seq!["\"resourceLogs\":"@ + json_resource_logs_list(q.resource_logs@)]);
    let j = json_logs_request(q);
    assert forall|i: int| 0 <= i < json_line(j).len() implies (#[trigger] json_line(j)[i] == '\n' <==> i
        == json_line(j).len() - 1) by {
        if i < j.len() {
            assert(json_line(j)[i] == j[i]);
        }
    }
}

/// The double texts of an attribute value hold no line break.
pub open spec fn attribute_doubles_unbroken(v: ValueView) -> bool {
    match v {
        ValueView::F64(d) => no_line_break(d.1),
        ValueView::F64Array(ds) => forall|k: int| 0 <= k < ds.len() ==> no_line_break(#[trigger] ds[k].1),
        _ => true,
    }
}

/// The double texts of a list of attributes hold no line break.
pub open spec fn attribute_list_doubles_unbroken(kvs: Seq<(Seq<char>, ValueView)>) -> bool {
    forall|k: int| 0 <= k < kvs.len() ==> attribute_doubles_unbroken(#[trigger] kvs[k].1)
}

proof fn lemma_values_all(vs: Seq<OtlpValueView>)
    requires
        forall|k: int| 0 <= k < vs.len() ==> value_doubles_unbroken(#[trigger] vs[k]),
    ensures
        values_doubles_unbroken(vs),
    decreases vs.len(),
{
    if vs.len() > 0 {
        let p = vs.drop_last();
        assert forall|k: int| 0 <= k < p.len() implies value_doubles_unbroken(#[trigger] p[k]) by {
            assert(p[k] == vs[k]);
        }
        lemma_values_all(p);
        assert(value_doubles_unbroken(vs[vs.len() - 1]));
    }
}

proof fn lemma_key_values_all(kvs: Seq<(Seq<char>, OtlpValueView)>)
    requires
        forall|k: int| 0 <= k < kvs.len() ==> value_doubles_unbroken(#[trigger] kvs[k].1),
    ensures
        key_values_doubles_unbroken(kvs),
    decreases kvs.len(),
{
    if kvs.len() > 0 {
        let p = kvs.drop_last();
        assert forall|k: int| 0 <= k < p.len() implies value_doubles_unbroken(#[trigger] p[k].1) by {
            assert(p[k] == kvs[k]);
        }
        lemma_key_values_all(p);
        assert(value_doubles_unbroken(kvs[kvs.len() - 1].1));
    }
}

proof fn lemma_attribute_value(v: ValueView)
    requires
        attribute_doubles_unbroken(v),
    ensures
        value_doubles_unbroken(otlp_of_value(v)),
{
    match v {
        ValueView::BoolArray(bs) => {
            lemma_values_all(bs.map_values(|b: bool| OtlpValueView::BoolValue(b)));
        },
        ValueView::I64Array(is) => {
            lemma_values_all(is.map_values(|i: i64| OtlpValueView::IntValue(signed_decimal(i as int))));
        },
        ValueView::F64Array(ts) => {
            let vs = ts.map_values(|d: (u64, Seq<char>)| OtlpValueView::DoubleValue(d.1));
            assert forall|k: int| 0 <= k < vs.len() implies value_doubles_unbroken(#[trigger] vs[k]) by {
                assert(vs[k] == OtlpValueView::DoubleValue(ts[k].1));
                assert(no_line_break(ts[k].1));
            }
            lemma_values_all(vs);
        },
        ValueView::StrArray(ss) => {
            lemma_values_all(ss.map_values(|s: Seq<char>| OtlpValueView::StringValue(s)));
        },
        _ => {},
    }
}

proof fn lemma_attribute_list(kvs: Seq<(Seq<char>, ValueView)>)
    requires
        attribute_list_doubles_unbroken(kvs),
    ensures
        key_values_doubles_unbroken(otlp_of_attributes(kvs)),
{
    let o = otlp_of_attributes(kvs);
    assert forall|k: int| 0 <= k < o.len() implies value_doubles_unbroken(#[trigger] o[k].1) by {
        assert(o[k].1 == otlp_of_value(kvs[k].1));
        assert(attribute_doubles_unbroken(kvs[k].1));
        lemma_attribute_value(kvs[k].1);
    }
    lemma_key_values_all(o);
}

/// The double texts of a span as the SDK hands it over (its attributes,
/// those of its events, links and scope) hold no line break.
pub open spec fn span_data_doubles_unbroken(s: SpanData) -> bool {
    &&& attribute_list_doubles_unbroken(attributes_view(s.attributes@))
    &&& forall|k: int|
        0 <= k < s.events@.len() ==> attribute_list_doubles_unbroken(attributes_view(#[trigger] s.events@[k].attributes@))
    &&& forall|k: int|
        0 <= k < s.links@.len() ==> attribute_list_doubles_unbroken(attributes_view(#[trigger] s.links@[k].attributes@))
    &&& attribute_list_doubles_unbroken(s.instrumentation_scope@.attributes)
}

proof fn lemma_span_data(r: Span, s: SpanData)
    requires
        span_is_otlp_of(r, s),
        span_data_doubles_unbroken(s),
    ensures
        span_doubles_unbroken(r),
{
    lemma_attribute_list(attributes_view(s.attributes@));
    assert forall|k: int| 0 <= k < r.events@.len() implies attributes_doubles_unbroken(#[trigger] r.events@[k].attributes@) by {
        assert(event_is_otlp_of(r.events@[k], s.events@[k]));
        assert(attribute_list_doubles_unbroken(attributes_view(s.events@[k].attributes@)));
        lemma_attribute_list(attributes_view(s.events@[k].attributes@));
    }
    assert forall|k: int| 0 <= k < r.links@.len() implies attributes_doubles_unbroken(#[trigger] r.links@[k].attributes@) by {
        assert(link_is_otlp_of(r.links@[k], s.links@[k]));
        assert(attribute_list_doubles_unbroken(attributes_view(s.links@[k].attributes@)));
        lemma_attribute_list(attributes_view(s.links@[k].attributes@));
    }
}

/// The line a span exporter writes for a batch holds exactly one line
/// break, at its end: the batch is one line, whatever its spans and scopes
/// (where the double texts of the resource and the batch hold no line break).
pub proof fn lemma_trace_export_one_line(resource: Seq<KeyValue>, batch: Seq<SpanData>, q: ExportTraceServiceRequest)
    requires
        trace_request_is_otlp_of(q, resource, batch),
        attribute_list_doubles_unbroken(attributes_view(resource)),
        forall|j: int| 0 <= j < batch.len() ==> span_data_doubles_unbroken(#[trigger] batch[j]),
    ensures
        forall|i: int|
            0 <= i < json_line(json_trace_request(q)).len() ==> (#[trigger] json_line(json_trace_request(q))[i]
                == '\n' <==> i == json_line(json_trace_request(q)).len() - 1),
{
    reveal(trace_request_is_otlp_of);
    let sv = span_scopes(batch);
    let n = sv.len() as int;
    let leaders = scope_leaders(sv, n);
    lemma_scope_leaders(sv, n);
    let rs = q.resource_spans@[0];
    lemma_attribute_list(attributes_view(resource));
    assert forall|g: int| 0 <= g < rs.scope_spans@.len() implies scope_spans_doubles_unbroken(#[trigger] rs.scope_spans@[g]) by {
        let group = rs.scope_spans@[g];
        let l = leaders[g];
        let members = crate::export::scope_members(sv, sv[l], n);
        lemma_scope_members(sv, sv[l], n);
        assert(0 <= l < n);
        assert(span_data_doubles_unbroken(batch[l]));
        assert(scope_is_otlp_of(group.scope, batch[l].instrumentation_scope@));
        lemma_attribute_list(batch[l].instrumentation_scope@.attributes);
        assert forall|m: int| 0 <= m < group.spans@.len() implies span_doubles_unbroken(#[trigger] group.spans@[m]) by {
            let j = members[m];
            assert(0 <= j < n);
            assert(span_is_otlp_of(group.spans@[m], batch[j]));
            assert(span_data_doubles_unbroken(batch[j]));
            lemma_span_data(group.spans@[m], batch[j]);
        }
    }
    assert(trace_request_doubles_unbroken(q));
    lemma_trace_request_one_line(q);
}

/// The double texts of a log value hold no line break.
pub open spec fn any_doubles_unbroken(v: AnyValue) -> bool
    decreases v,
{
    match v {
        AnyValue::Double(t) => no_line_break(t@),
        AnyValue::ListAny(l) => any_list_doubles_unbroken(l@),
        AnyValue::KeyValues(m) => entries_doubles_unbroken(m@),
        _ => true,
    }
}

/// The double texts of a list of log values hold no line break.
pub open spec fn any_list_doubles_unbroken(s: Seq<AnyValue>) -> bool
    decreases s,
{
    if s.len() == 0 {
        true
    } else {
        any_list_doubles_unbroken(s.drop_last()) && any_doubles_unbroken(s.last())
    }
}

/// The double texts of a list of keyed log values hold no line break.
pub open spec fn entries_doubles_unbroken(s: Seq<(String, AnyValue)>) -> bool
    decreases s,
{
    if s.len() == 0 {
        true
    } else {
        entries_doubles_unbroken(s.drop_last()) && any_doubles_unbroken(s.last().1)
    }
}

proof fn lemma_any(v: AnyValue)
    requires
        any_doubles_unbroken(v),
    ensures
        value_doubles_unbroken(otlp_of_any(v)),
    decreases v,
{
    match v {
        AnyValue::ListAny(l) => {
            lemma_any_list(l@);
        },
        AnyValue::KeyValues(m) => {
            lemma_entries(m@);
        },
        _ => {},
    }
}

proof fn lemma_any_list(s: Seq<AnyValue>)
    requires
        any_list_doubles_unbroken(s),
    ensures
        values_doubles_unbroken(otlp_of_any_list(s)),
    decreases s,
{
    if s.len() > 0 {
        lemma_any_list(s.drop_last());
        lemma_any(s.last());
        assert(otlp_of_any_list(s).drop_last() =~= otlp_of_any_list(s.drop_last()));
    }
}

proof fn lemma_entries(s: Seq<(String, AnyValue)>)
    requires
        entries_doubles_unbroken(s),
    ensures
        key_values_doubles_unbroken(otlp_of_entries(s)),
    decreases s,
{
    if s.len() > 0 {
        lemma_entries(s.drop_last());
        lemma_any(s.last().1);
        assert(otlp_of_entries(s).drop_last() =~= otlp_of_entries(s.drop_last()));
    }
}

/// The double texts of a log batch entry (the record's body and attributes,
/// and its scope's attributes) hold no line break.
pub open spec fn log_entry_doubles_unbroken(e: LogBatchEntry) -> bool {
    &&& (e.record.body matches Some(b) ==> any_doubles_unbroken(b))
    &&& entries_doubles_unbroken(e.record.attributes@)
    &&& attribute_list_doubles_unbroken(e.scope@.attributes)
}

/// The line a log exporter writes for a batch holds exactly one line break,
/// at its end: the batch is one line, whatever its records and scopes
/// (where the double texts of the resource and the batch hold no line break).
pub proof fn lemma_logs_export_one_line(resource: Seq<KeyValue>, batch: Seq<LogBatchEntry>, q: ExportLogsServiceRequest)
    requires
        logs_request_is_otlp_of(q, resource, batch),
        attribute_list_doubles_unbroken(attributes_view(resource)),
        forall|j: int| 0 <= j < batch.len() ==> log_entry_doubles_unbroken(#[trigger] batch[j]),
    ensures
        forall|i: int|
            0 <= i < json_line(json_logs_request(q)).len() ==> (#[trigger] json_line(json_logs_request(q))[i]
                == '\n' <==> i == json_line(json_logs_request(q)).len() - 1),
{
    reveal(logs_request_is_otlp_of);
    let sv = entry_scopes(batch);
    let n = sv.len() as int;
    let leaders = scope_leaders(sv, n);
    lemma_scope_leaders(sv, n);
    let rl = q.resource_logs@[0];
    lemma_attribute_list(attributes_view(resource));
    assert forall|g: int| 0 <= g < rl.scope_logs@.len() implies scope_logs_doubles_unbroken(#[trigger] rl.scope_logs@[g]) by {
        let group = rl.scope_logs@[g];
        let l = leaders[g];
        let members = crate::export::scope_members(sv, sv[l], n);
        lemma_scope_members(sv, sv[l], n);
        assert(0 <= l < n);
        assert(log_entry_doubles_unbroken(batch[l]));
        assert(scope_is_otlp_of(group.scope, batch[l].scope@));
        lemma_attribute_list(batch[l].scope@.attributes);
        assert forall|m: int| 0 <= m < group.log_records@.len() implies log_record_doubles_unbroken(
            #[trigger] group.log_records@[m],
        ) by {
            let j = members[m];
            let r = group.log_records@[m];
            assert(0 <= j < n);
            assert(log_record_is_otlp_of(r, batch[j].record));
            assert(log_entry_doubles_unbroken(batch[j]));
            lemma_entries(batch[j].record.attributes@);
            if let Some(b) = batch[j].record.body {
                lemma_any(b);
            }
        }
    }
    assert(logs_request_doubles_unbroken(q));
    lemma_logs_request_one_line(q);
}

} // verus!
