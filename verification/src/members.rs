//! What the JSON objects of an export hold, member by member: each field of
//! the data is written under its name exactly when the encoding says it is
//! present, with the text that stands for its value.

use vstd::prelude::*;

use crate::convert::{
    event_is_otlp_of, kind_number, lemma_key_values_view_len, link_is_otlp_of, log_record_is_otlp_of,
    otlp_of_any, otlp_of_entries, scope_is_otlp_of, span_id_text, span_is_otlp_of, status_is_otlp_of,
    trace_id_text,
};
use crate::json::{
    json_attributes, json_log_record, json_object, json_scope, json_span, json_span_event,
    json_span_events, json_span_link, json_span_links, json_span_status, json_value, log_record_members, span_body_members, span_head_members, span_tail_members,
    scope_members, span_event_members, span_link_members, span_members, span_status_members,
};
use crate::model::{Event, Link, LogRecordData, ScopeView, SpanData, SpanKind, Status};
use crate::otlp::{value_view, LogRecord, Scope, Span, SpanEvent, SpanLink, SpanStatus};
use crate::text::{decimal, json_string};

verus! {

/// Some member of the object is `name` followed by `value`.
pub open spec fn has_member(members: Seq<Seq<char>>, name: Seq<char>, value: Seq<char>) -> bool {
    members.contains(name + value)
}

/// No member of the object is named `name`.
pub open spec fn lacks_member(members: Seq<Seq<char>>, name: Seq<char>) -> bool {
    forall|i: int| 0 <= i < members.len() ==> !name.is_prefix_of(#[trigger] members[i])
}

broadcast proof fn lemma_lacks_concat(x: Seq<Seq<char>>, y: Seq<Seq<char>>, name: Seq<char>)
    requires
        lacks_member(x, name),
        lacks_member(y, name),
    ensures
        #[trigger] lacks_member(x + y, name),
{
    assert forall|i: int| 0 <= i < (x + y).len() implies !name.is_prefix_of(#[trigger] (x + y)[i]) by {
        if i < x.len() {
            assert((x + y)[i] == x[i]);
        } else {
            assert((x + y)[i] == y[i - x.len()]);
        }
    }
}

broadcast proof fn lemma_has_concat(x: Seq<Seq<char>>, y: Seq<Seq<char>>, name: Seq<char>, value: Seq<char>)
    requires
        has_member(x, name, value) || has_member(y, name, value),
    ensures
        #[trigger] has_member(x + y, name, value),
{
    if has_member(x, name, value) {
        let i = choose|i: int| 0 <= i < x.len() && x[i] == name + value;
        assert((x + y)[i] == x[i]);
    } else {
        let i = choose|i: int| 0 <= i < y.len() && y[i] == name + value;
        assert((x + y)[x.len() + i] == y[i]);
    }
}

/// A member that starts with `a` is not named `name` when the two names
/// differ at some position within both.
proof fn lemma_named_otherwise(a: Seq<char>, rest: Seq<char>, name: Seq<char>, i: int)
    requires
        0 <= i < a.len(),
        i < name.len(),
        a[i] != name[i],
    ensures
        !name.is_prefix_of(a + rest),
        lacks_member(seq![a + rest], name),
{
    if name.is_prefix_of(a + rest) {
        assert((a + rest).subrange(0, name.len() as int)[i] == (a + rest)[i]);
        assert((a + rest)[i] == a[i]);
    }
    assert(seq![a + rest][0] == a + rest);
}

proof fn lemma_single_member(name: Seq<char>, value: Seq<char>)
    ensures
        has_member(seq![name + value], name, value),
{
    assert(seq![name + value][0] == name + value);
}

proof fn lemma_no_members(name: Seq<char>)
    ensures
        lacks_member(Seq::<Seq<char>>::empty(), name),
{
}


proof fn lemma_entries_len(s: Seq<(String, crate::model::AnyValue)>)
    ensures
        otlp_of_entries(s).len() == s.len(),
    decreases s.len(),
{
    if s.len() > 0 {
        lemma_entries_len(s.drop_last());
    }
}

proof fn lemma_span_head_members(r: Span)
    ensures
        has_member(span_head_members(r), "\"traceId\":"@, json_string(r.trace_id@)),
        has_member(span_head_members(r), "\"spanId\":"@, json_string(r.span_id@)),
        r.parent_span_id matches Some(x) ==> has_member(span_head_members(r), "\"parentSpanId\":"@, json_string(x@)),
        has_member(span_head_members(r), "\"name\":"@, json_string(r.name@)),
        has_member(span_head_members(r), "\"kind\":"@, decimal(r.kind as nat)),
        has_member(span_head_members(r), "\"startTimeUnixNano\":"@, json_string(r.start_time_unix_nano@)),
        has_member(span_head_members(r), "\"endTimeUnixNano\":"@, json_string(r.end_time_unix_nano@)),
        r.parent_span_id is None ==> lacks_member(span_head_members(r), "\"parentSpanId\":"@),
        lacks_member(span_head_members(r), "\"attributes\":"@),
        lacks_member(span_head_members(r), "\"droppedAttributesCount\":"@),
        lacks_member(span_head_members(r), "\"events\":"@),
        lacks_member(span_head_members(r), "\"droppedEventsCount\":"@),
        lacks_member(span_head_members(r), "\"links\":"@),
        lacks_member(span_head_members(r), "\"droppedLinksCount\":"@),
        lacks_member(span_head_members(r), "\"flags\":"@),
        lacks_member(span_head_members(r), "\"traceState\":"@),
{
    broadcast use lemma_lacks_concat, lemma_has_concat;

    reveal_strlit("\"spanId\":");
    reveal_strlit("\"endTimeUnixNano\":");
    reveal_strlit("\"attributes\":");
    reveal_strlit("\"droppedLinksCount\":");
    reveal_strlit("\"parentSpanId\":");
    reveal_strlit("\"status\":");
    reveal_strlit("\"droppedAttributesCount\":");
    reveal_strlit("\"traceId\":");
    reveal_strlit("\"events\":");
    reveal_strlit("\"name\":");
    reveal_strlit("\"kind\":");
    reveal_strlit("\"droppedEventsCount\":");
    reveal_strlit("\"startTimeUnixNano\":");
    reveal_strlit("\"traceState\":");
    reveal_strlit("\"flags\":");
    reveal_strlit("\"links\":");
    lemma_no_members("\"parentSpanId\":"@);
    lemma_no_members("\"attributes\":"@);
    lemma_no_members("\"droppedAttributesCount\":"@);
    lemma_no_members("\"events\":"@);
    lemma_no_members("\"droppedEventsCount\":"@);
    lemma_no_members("\"links\":"@);
    lemma_no_members("\"droppedLinksCount\":"@);
    lemma_no_members("\"flags\":"@);
    lemma_no_members("\"traceState\":"@);
    lemma_no_members("\"traceId\":"@);
    lemma_no_members("\"spanId\":"@);
    lemma_no_members("\"parentSpanId\":"@);
    lemma_no_members("\"name\":"@);
    lemma_no_members("\"kind\":"@);
    lemma_no_members("\"startTimeUnixNano\":"@);
    lemma_no_members("\"endTimeUnixNano\":"@);
    let tid = "\"traceId\":"@ + json_string(r.trace_id@);
    let sid = "\"spanId\":"@ + json_string(r.span_id@);
    assert(seq![tid, sid] =~= seq![tid] + seq![sid]);
    let a = "\"name\":"@ + json_string(r.name@);
    let b = "\"kind\":"@ + decimal(r.kind as nat);
    let c = "\"startTimeUnixNano\":"@ + json_string(r.start_time_unix_nano@);
    let d = "\"endTimeUnixNano\":"@ + json_string(r.end_time_unix_nano@);
    assert(seq![a, b, c, d] =~= seq![a] + seq![b] + seq![c] + seq![d]);
    lemma_single_member("\"traceId\":"@, json_string(r.trace_id@));
    lemma_named_otherwise("\"traceId\":"@, json_string(r.trace_id@), "\"parentSpanId\":"@, 1);
    lemma_named_otherwise("\"traceId\":"@, json_string(r.trace_id@), "\"attributes\":"@, 1);
    lemma_named_otherwise("\"traceId\":"@, json_string(r.trace_id@), "\"droppedAttributesCount\":"@, 1);
    lemma_named_otherwise("\"traceId\":"@, json_string(r.trace_id@), "\"events\":"@, 1);
    lemma_named_otherwise("\"traceId\":"@, json_string(r.trace_id@), "\"droppedEventsCount\":"@, 1);
    lemma_named_otherwise("\"traceId\":"@, json_string(r.trace_id@), "\"links\":"@, 1);
    lemma_named_otherwise("\"traceId\":"@, json_string(r.trace_id@), "\"droppedLinksCount\":"@, 1);
    lemma_named_otherwise("\"traceId\":"@, json_string(r.trace_id@), "\"flags\":"@, 1);
    lemma_named_otherwise("\"traceId\":"@, json_string(r.trace_id@), "\"traceState\":"@, 6);
    lemma_single_member("\"spanId\":"@, json_string(r.span_id@));
    lemma_named_otherwise("\"spanId\":"@, json_string(r.span_id@), "\"parentSpanId\":"@, 1);
    lemma_named_otherwise("\"spanId\":"@, json_string(r.span_id@), "\"attributes\":"@, 1);
    lemma_named_otherwise("\"spanId\":"@, json_string(r.span_id@), "\"droppedAttributesCount\":"@, 1);
    lemma_named_otherwise("\"spanId\":"@, json_string(r.span_id@), "\"events\":"@, 1);
    lemma_named_otherwise("\"spanId\":"@, json_string(r.span_id@), "\"droppedEventsCount\":"@, 1);
    lemma_named_otherwise("\"spanId\":"@, json_string(r.span_id@), "\"links\":"@, 1);
    lemma_named_otherwise("\"spanId\":"@, json_string(r.span_id@), "\"droppedLinksCount\":"@, 1);
    lemma_named_otherwise("\"spanId\":"@, json_string(r.span_id@), "\"flags\":"@, 1);
    lemma_named_otherwise("\"spanId\":"@, json_string(r.span_id@), "\"traceState\":"@, 1);
    if let Some(x) = r.parent_span_id {
        lemma_single_member("\"parentSpanId\":"@, json_string(x@));
        lemma_named_otherwise("\"parentSpanId\":"@, json_string(x@), "\"attributes\":"@, 1);
        lemma_named_otherwise("\"parentSpanId\":"@, json_string(x@), "\"droppedAttributesCount\":"@, 1);
        lemma_named_otherwise("\"parentSpanId\":"@, json_string(x@), "\"events\":"@, 1);
        lemma_named_otherwise("\"parentSpanId\":"@, json_string(x@), "\"droppedEventsCount\":"@, 1);
        lemma_named_otherwise("\"parentSpanId\":"@, json_string(x@), "\"links\":"@, 1);
        lemma_named_otherwise("\"parentSpanId\":"@, json_string(x@), "\"droppedLinksCount\":"@, 1);
        lemma_named_otherwise("\"parentSpanId\":"@, json_string(x@), "\"flags\":"@, 1);
        lemma_named_otherwise("\"parentSpanId\":"@, json_string(x@), "\"traceState\":"@, 1);
    }
    lemma_single_member("\"name\":"@, json_string(r.name@));
    lemma_named_otherwise("\"name\":"@, json_string(r.name@), "\"parentSpanId\":"@, 1);
    lemma_named_otherwise("\"name\":"@, json_string(r.name@), "\"attributes\":"@, 1);
    lemma_named_otherwise("\"name\":"@, json_string(r.name@), "\"droppedAttributesCount\":"@, 1);
    lemma_named_otherwise("\"name\":"@, json_string(r.name@), "\"events\":"@, 1);
    lemma_named_otherwise("\"name\":"@, json_string(r.name@), "\"droppedEventsCount\":"@, 1);
    lemma_named_otherwise("\"name\":"@, json_string(r.name@), "\"links\":"@, 1);
    lemma_named_otherwise("\"name\":"@, json_string(r.name@), "\"droppedLinksCount\":"@, 1);
    lemma_named_otherwise("\"name\":"@, json_string(r.name@), "\"flags\":"@, 1);
    lemma_named_otherwise("\"name\":"@, json_string(r.name@), "\"traceState\":"@, 1);
    lemma_single_member("\"kind\":"@, decimal(r.kind as nat));
    lemma_named_otherwise("\"kind\":"@, decimal(r.kind as nat), "\"parentSpanId\":"@, 1);
    lemma_named_otherwise("\"kind\":"@, decimal(r.kind as nat), "\"attributes\":"@, 1);
    lemma_named_otherwise("\"kind\":"@, decimal(r.kind as nat), "\"droppedAttributesCount\":"@, 1);
    lemma_named_otherwise("\"kind\":"@, decimal(r.kind as nat), "\"events\":"@, 1);
    lemma_named_otherwise("\"kind\":"@, decimal(r.kind as nat), "\"droppedEventsCount\":"@, 1);
    lemma_named_otherwise("\"kind\":"@, decimal(r.kind as nat), "\"links\":"@, 1);
    lemma_named_otherwise("\"kind\":"@, decimal(r.kind as nat), "\"droppedLinksCount\":"@, 1);
    lemma_named_otherwise("\"kind\":"@, decimal(r.kind as nat), "\"flags\":"@, 1);
    lemma_named_otherwise("\"kind\":"@, decimal(r.kind as nat), "\"traceState\":"@, 1);
    lemma_single_member("\"startTimeUnixNano\":"@, json_string(r.start_time_unix_nano@));
    lemma_named_otherwise("\"startTimeUnixNano\":"@, json_string(r.start_time_unix_nano@), "\"parentSpanId\":"@, 1);
    lemma_named_otherwise("\"startTimeUnixNano\":"@, json_string(r.start_time_unix_nano@), "\"attributes\":"@, 1);
    lemma_named_otherwise("\"startTimeUnixNano\":"@, json_string(r.start_time_unix_nano@), "\"droppedAttributesCount\":"@, 1);
    lemma_named_otherwise("\"startTimeUnixNano\":"@, json_string(r.start_time_unix_nano@), "\"events\":"@, 1);
    lemma_named_otherwise("\"startTimeUnixNano\":"@, json_string(r.start_time_unix_nano@), "\"droppedEventsCount\":"@, 1);
    lemma_named_otherwise("\"startTimeUnixNano\":"@, json_string(r.start_time_unix_nano@), "\"links\":"@, 1);
    lemma_named_otherwise("\"startTimeUnixNano\":"@, json_string(r.start_time_unix_nano@), "\"droppedLinksCount\":"@, 1);
    lemma_named_otherwise("\"startTimeUnixNano\":"@, json_string(r.start_time_unix_nano@), "\"flags\":"@, 1);
    lemma_named_otherwise("\"startTimeUnixNano\":"@, json_string(r.start_time_unix_nano@), "\"traceState\":"@, 1);
    lemma_single_member("\"endTimeUnixNano\":"@, json_string(r.end_time_unix_nano@));
    lemma_named_otherwise("\"endTimeUnixNano\":"@, json_string(r.end_time_unix_nano@), "\"parentSpanId\":"@, 1);
    lemma_named_otherwise("\"endTimeUnixNano\":"@, json_string(r.end_time_unix_nano@), "\"attributes\":"@, 1);
    lemma_named_otherwise("\"endTimeUnixNano\":"@, json_string(r.end_time_unix_nano@), "\"droppedAttributesCount\":"@, 1);
    lemma_named_otherwise("\"endTimeUnixNano\":"@, json_string(r.end_time_unix_nano@), "\"events\":"@, 2);
    lemma_named_otherwise("\"endTimeUnixNano\":"@, json_string(r.end_time_unix_nano@), "\"droppedEventsCount\":"@, 1);
    lemma_named_otherwise("\"endTimeUnixNano\":"@, json_string(r.end_time_unix_nano@), "\"links\":"@, 1);
    lemma_named_otherwise("\"endTimeUnixNano\":"@, json_string(r.end_time_unix_nano@), "\"droppedLinksCount\":"@, 1);
    lemma_named_otherwise("\"endTimeUnixNano\":"@, json_string(r.end_time_unix_nano@), "\"flags\":"@, 1);
    lemma_named_otherwise("\"endTimeUnixNano\":"@, json_string(r.end_time_unix_nano@), "\"traceState\":"@, 1);
}

proof fn lemma_span_body_members(r: Span)
    ensures
        r.attributes@.len() > 0 ==> has_member(span_body_members(r), "\"attributes\":"@, json_attributes(r.attributes@)),
        r.dropped_attributes_count != 0 ==> has_member(span_body_members(r), "\"droppedAttributesCount\":"@, decimal(r.dropped_attributes_count as nat)),
        r.events@.len() > 0 ==> has_member(span_body_members(r), "\"events\":"@, json_span_events(r.events@)),
        r.dropped_events_count != 0 ==> has_member(span_body_members(r), "\"droppedEventsCount\":"@, decimal(r.dropped_events_count as nat)),
        r.links@.len() > 0 ==> has_member(span_body_members(r), "\"links\":"@, json_span_links(r.links@)),
        r.dropped_links_count != 0 ==> has_member(span_body_members(r), "\"droppedLinksCount\":"@, decimal(r.dropped_links_count as nat)),
        lacks_member(span_body_members(r), "\"parentSpanId\":"@),
        r.attributes@.len() == 0 ==> lacks_member(span_body_members(r), "\"attributes\":"@),
        r.dropped_attributes_count == 0 ==> lacks_member(span_body_members(r), "\"droppedAttributesCount\":"@),
        r.events@.len() == 0 ==> lacks_member(span_body_members(r), "\"events\":"@),
        r.dropped_events_count == 0 ==> lacks_member(span_body_members(r), "\"droppedEventsCount\":"@),
        r.links@.len() == 0 ==> lacks_member(span_body_members(r), "\"links\":"@),
        r.dropped_links_count == 0 ==> lacks_member(span_body_members(r), "\"droppedLinksCount\":"@),
        lacks_member(span_body_members(r), "\"flags\":"@),
        lacks_member(span_body_members(r), "\"traceState\":"@),
{
    broadcast use lemma_lacks_concat, lemma_has_concat;

    reveal_strlit("\"spanId\":");
    reveal_strlit("\"endTimeUnixNano\":");
    reveal_strlit("\"attributes\":");
    reveal_strlit("\"droppedLinksCount\":");
    reveal_strlit("\"parentSpanId\":");
    reveal_strlit("\"status\":");
    reveal_strlit("\"droppedAttributesCount\":");
    reveal_strlit("\"traceId\":");
    reveal_strlit("\"events\":");
    reveal_strlit("\"name\":");
    reveal_strlit("\"kind\":");
    reveal_strlit("\"droppedEventsCount\":");
    reveal_strlit("\"startTimeUnixNano\":");
    reveal_strlit("\"traceState\":");
    reveal_strlit("\"flags\":");
    reveal_strlit("\"links\":");
    lemma_no_members("\"parentSpanId\":"@);
    lemma_no_members("\"attributes\":"@);
    lemma_no_members("\"droppedAttributesCount\":"@);
    lemma_no_members("\"events\":"@);
    lemma_no_members("\"droppedEventsCount\":"@);
    lemma_no_members("\"links\":"@);
    lemma_no_members("\"droppedLinksCount\":"@);
    lemma_no_members("\"flags\":"@);
    lemma_no_members("\"traceState\":"@);
    lemma_no_members("\"attributes\":"@);
    lemma_no_members("\"droppedAttributesCount\":"@);
    lemma_no_members("\"events\":"@);
    lemma_no_members("\"droppedEventsCount\":"@);
    lemma_no_members("\"links\":"@);
    lemma_no_members("\"droppedLinksCount\":"@);
    if r.attributes@.len() > 0 {
        lemma_single_member("\"attributes\":"@, json_attributes(r.attributes@));
        lemma_named_otherwise("\"attributes\":"@, json_attributes(r.attributes@), "\"parentSpanId\":"@, 1);
        lemma_named_otherwise("\"attributes\":"@, json_attributes(r.attributes@), "\"droppedAttributesCount\":"@, 1);
        lemma_named_otherwise("\"attributes\":"@, json_attributes(r.attributes@), "\"events\":"@, 1);
        lemma_named_otherwise("\"attributes\":"@, json_attributes(r.attributes@), "\"droppedEventsCount\":"@, 1);
        lemma_named_otherwise("\"attributes\":"@, json_attributes(r.attributes@), "\"links\":"@, 1);
        lemma_named_otherwise("\"attributes\":"@, json_attributes(r.attributes@), "\"droppedLinksCount\":"@, 1);
        lemma_named_otherwise("\"attributes\":"@, json_attributes(r.attributes@), "\"flags\":"@, 1);
        lemma_named_otherwise("\"attributes\":"@, json_attributes(r.attributes@), "\"traceState\":"@, 1);
    }
    if r.dropped_attributes_count != 0 {
        lemma_single_member("\"droppedAttributesCount\":"@, decimal(r.dropped_attributes_count as nat));
        lemma_named_otherwise("\"droppedAttributesCount\":"@, decimal(r.dropped_attributes_count as nat), "\"parentSpanId\":"@, 1);
        lemma_named_otherwise("\"droppedAttributesCount\":"@, decimal(r.dropped_attributes_count as nat), "\"attributes\":"@, 1);
        lemma_named_otherwise("\"droppedAttributesCount\":"@, decimal(r.dropped_attributes_count as nat), "\"events\":"@, 1);
        lemma_named_otherwise("\"droppedAttributesCount\":"@, decimal(r.dropped_attributes_count as nat), "\"droppedEventsCount\":"@, 8);
        lemma_named_otherwise("\"droppedAttributesCount\":"@, decimal(r.dropped_attributes_count as nat), "\"links\":"@, 1);
        lemma_named_otherwise("\"droppedAttributesCount\":"@, decimal(r.dropped_attributes_count as nat), "\"droppedLinksCount\":"@, 8);
        lemma_named_otherwise("\"droppedAttributesCount\":"@, decimal(r.dropped_attributes_count as nat), "\"flags\":"@, 1);
        lemma_named_otherwise("\"droppedAttributesCount\":"@, decimal(r.dropped_attributes_count as nat), "\"traceState\":"@, 1);
    }
    if r.events@.len() > 0 {
        lemma_single_member("\"events\":"@, json_span_events(r.events@));
        lemma_named_otherwise("\"events\":"@, json_span_events(r.events@), "\"parentSpanId\":"@, 1);
        lemma_named_otherwise("\"events\":"@, json_span_events(r.events@), "\"attributes\":"@, 1);
        lemma_named_otherwise("\"events\":"@, json_span_events(r.events@), "\"droppedAttributesCount\":"@, 1);
        lemma_named_otherwise("\"events\":"@, json_span_events(r.events@), "\"droppedEventsCount\":"@, 1);
        lemma_named_otherwise("\"events\":"@, json_span_events(r.events@), "\"links\":"@, 1);
        lemma_named_otherwise("\"events\":"@, json_span_events(r.events@), "\"droppedLinksCount\":"@, 1);
        lemma_named_otherwise("\"events\":"@, json_span_events(r.events@), "\"flags\":"@, 1);
        lemma_named_otherwise("\"events\":"@, json_span_events(r.events@), "\"traceState\":"@, 1);
    }
    if r.dropped_events_count != 0 {
        lemma_single_member("\"droppedEventsCount\":"@, decimal(r.dropped_events_count as nat));
        lemma_named_otherwise("\"droppedEventsCount\":"@, decimal(r.dropped_events_count as nat), "\"parentSpanId\":"@, 1);
        lemma_named_otherwise("\"droppedEventsCount\":"@, decimal(r.dropped_events_count as nat), "\"attributes\":"@, 1);
        lemma_named_otherwise("\"droppedEventsCount\":"@, decimal(r.dropped_events_count as nat), "\"droppedAttributesCount\":"@, 8);
        lemma_named_otherwise("\"droppedEventsCount\":"@, decimal(r.dropped_events_count as nat), "\"events\":"@, 1);
        lemma_named_otherwise("\"droppedEventsCount\":"@, decimal(r.dropped_events_count as nat), "\"links\":"@, 1);
        lemma_named_otherwise("\"droppedEventsCount\":"@, decimal(r.dropped_events_count as nat), "\"droppedLinksCount\":"@, 8);
        lemma_named_otherwise("\"droppedEventsCount\":"@, decimal(r.dropped_events_count as nat), "\"flags\":"@, 1);
        lemma_named_otherwise("\"droppedEventsCount\":"@, decimal(r.dropped_events_count as nat), "\"traceState\":"@, 1);
    }
    if r.links@.len() > 0 {
        lemma_single_member("\"links\":"@, json_span_links(r.links@));
        lemma_named_otherwise("\"links\":"@, json_span_links(r.links@), "\"parentSpanId\":"@, 1);
        lemma_named_otherwise("\"links\":"@, json_span_links(r.links@), "\"attributes\":"@, 1);
        lemma_named_otherwise("\"links\":"@, json_span_links(r.links@), "\"droppedAttributesCount\":"@, 1);
        lemma_named_otherwise("\"links\":"@, json_span_links(r.links@), "\"events\":"@, 1);
        lemma_named_otherwise("\"links\":"@, json_span_links(r.links@), "\"droppedEventsCount\":"@, 1);
        lemma_named_otherwise("\"links\":"@, json_span_links(r.links@), "\"droppedLinksCount\":"@, 1);
        lemma_named_otherwise("\"links\":"@, json_span_links(r.links@), "\"flags\":"@, 1);
        lemma_named_otherwise("\"links\":"@, json_span_links(r.links@), "\"traceState\":"@, 1);
    }
    if r.dropped_links_count != 0 {
        lemma_single_member("\"droppedLinksCount\":"@, decimal(r.dropped_links_count as nat));
        lemma_named_otherwise("\"droppedLinksCount\":"@, decimal(r.dropped_links_count as nat), "\"parentSpanId\":"@, 1);
        lemma_named_otherwise("\"droppedLinksCount\":"@, decimal(r.dropped_links_count as nat), "\"attributes\":"@, 1);
        lemma_named_otherwise("\"droppedLinksCount\":"@, decimal(r.dropped_links_count as nat), "\"droppedAttributesCount\":"@, 8);
        lemma_named_otherwise("\"droppedLinksCount\":"@, decimal(r.dropped_links_count as nat), "\"events\":"@, 1);
        lemma_named_otherwise("\"droppedLinksCount\":"@, decimal(r.dropped_links_count as nat), "\"droppedEventsCount\":"@, 8);
        lemma_named_otherwise("\"droppedLinksCount\":"@, decimal(r.dropped_links_count as nat), "\"links\":"@, 1);
        lemma_named_otherwise("\"droppedLinksCount\":"@, decimal(r.dropped_links_count as nat), "\"flags\":"@, 1);
        lemma_named_otherwise("\"droppedLinksCount\":"@, decimal(r.dropped_links_count as nat), "\"traceState\":"@, 1);
    }
}

proof fn lemma_span_tail_members(r: Span)
    ensures
        has_member(span_tail_members(r), "\"status\":"@, json_span_status(r.status)),
        r.flags != 0 ==> has_member(span_tail_members(r), "\"flags\":"@, decimal(r.flags as nat)),
        r.trace_state matches Some(x) ==> has_member(span_tail_members(r), "\"traceState\":"@, json_string(x@)),
        lacks_member(span_tail_members(r), "\"parentSpanId\":"@),
        lacks_member(span_tail_members(r), "\"attributes\":"@),
        lacks_member(span_tail_members(r), "\"droppedAttributesCount\":"@),
        lacks_member(span_tail_members(r), "\"events\":"@),
        lacks_member(span_tail_members(r), "\"droppedEventsCount\":"@),
        lacks_member(span_tail_members(r), "\"links\":"@),
        lacks_member(span_tail_members(r), "\"droppedLinksCount\":"@),
        r.flags == 0 ==> lacks_member(span_tail_members(r), "\"flags\":"@),
        r.trace_state is None ==> lacks_member(span_tail_members(r), "\"traceState\":"@),
{
    broadcast use lemma_lacks_concat, lemma_has_concat;

    reveal_strlit("\"spanId\":");
    reveal_strlit("\"endTimeUnixNano\":");
    reveal_strlit("\"attributes\":");
    reveal_strlit("\"droppedLinksCount\":");
    reveal_strlit("\"parentSpanId\":");
    reveal_strlit("\"status\":");
    reveal_strlit("\"droppedAttributesCount\":");
    reveal_strlit("\"traceId\":");
    reveal_strlit("\"events\":");
    reveal_strlit("\"name\":");
    reveal_strlit("\"kind\":");
    reveal_strlit("\"droppedEventsCount\":");
    reveal_strlit("\"startTimeUnixNano\":");
    reveal_strlit("\"traceState\":");
    reveal_strlit("\"flags\":");
    reveal_strlit("\"links\":");
    lemma_no_members("\"parentSpanId\":"@);
    lemma_no_members("\"attributes\":"@);
    lemma_no_members("\"droppedAttributesCount\":"@);
    lemma_no_members("\"events\":"@);
    lemma_no_members("\"droppedEventsCount\":"@);
    lemma_no_members("\"links\":"@);
    lemma_no_members("\"droppedLinksCount\":"@);
    lemma_no_members("\"flags\":"@);
    lemma_no_members("\"traceState\":"@);
    lemma_no_members("\"status\":"@);
    lemma_no_members("\"flags\":"@);
    lemma_no_members("\"traceState\":"@);
    lemma_single_member("\"status\":"@, json_span_status(r.status));
    lemma_named_otherwise("\"status\":"@, json_span_status(r.status), "\"parentSpanId\":"@, 1);
    lemma_named_otherwise("\"status\":"@, json_span_status(r.status), "\"attributes\":"@, 1);
    lemma_named_otherwise("\"status\":"@, json_span_status(r.status), "\"droppedAttributesCount\":"@, 1);
    lemma_named_otherwise("\"status\":"@, json_span_status(r.status), "\"events\":"@, 1);
    lemma_named_otherwise("\"status\":"@, json_span_status(r.status), "\"droppedEventsCount\":"@, 1);
    lemma_named_otherwise("\"status\":"@, json_span_status(r.status), "\"links\":"@, 1);
    lemma_named_otherwise("\"status\":"@, json_span_status(r.status), "\"droppedLinksCount\":"@, 1);
    lemma_named_otherwise("\"status\":"@, json_span_status(r.status), "\"flags\":"@, 1);
    lemma_named_otherwise("\"status\":"@, json_span_status(r.status), "\"traceState\":"@, 1);
    if r.flags != 0 {
        lemma_single_member("\"flags\":"@, decimal(r.flags as nat));
        lemma_named_otherwise("\"flags\":"@, decimal(r.flags as nat), "\"parentSpanId\":"@, 1);
        lemma_named_otherwise("\"flags\":"@, decimal(r.flags as nat), "\"attributes\":"@, 1);
        lemma_named_otherwise("\"flags\":"@, decimal(r.flags as nat), "\"droppedAttributesCount\":"@, 1);
        lemma_named_otherwise("\"flags\":"@, decimal(r.flags as nat), "\"events\":"@, 1);
        lemma_named_otherwise("\"flags\":"@, decimal(r.flags as nat), "\"droppedEventsCount\":"@, 1);
        lemma_named_otherwise("\"flags\":"@, decimal(r.flags as nat), "\"links\":"@, 1);
        lemma_named_otherwise("\"flags\":"@, decimal(r.flags as nat), "\"droppedLinksCount\":"@, 1);
        lemma_named_otherwise("\"flags\":"@, decimal(r.flags as nat), "\"traceState\":"@, 1);
    }
    if let Some(x) = r.trace_state {
        lemma_single_member("\"traceState\":"@, json_string(x@));
        lemma_named_otherwise("\"traceState\":"@, json_string(x@), "\"parentSpanId\":"@, 1);
        lemma_named_otherwise("\"traceState\":"@, json_string(x@), "\"attributes\":"@, 1);
        lemma_named_otherwise("\"traceState\":"@, json_string(x@), "\"droppedAttributesCount\":"@, 1);
        lemma_named_otherwise("\"traceState\":"@, json_string(x@), "\"events\":"@, 1);
        lemma_named_otherwise("\"traceState\":"@, json_string(x@), "\"droppedEventsCount\":"@, 1);
        lemma_named_otherwise("\"traceState\":"@, json_string(x@), "\"links\":"@, 1);
        lemma_named_otherwise("\"traceState\":"@, json_string(x@), "\"droppedLinksCount\":"@, 1);
        lemma_named_otherwise("\"traceState\":"@, json_string(x@), "\"flags\":"@, 1);
    }
}

/// A span is written with its identity and its times always (hex ids,
/// name, kind number, decimal nanosecond times, status), with its parent
/// span id exactly when it has a parent, its attributes, events and links
/// exactly when there are any, each dropped count and the trace flags
/// exactly when they are not zero, and its trace state exactly when the
/// header is not empty.
pub proof fn lemma_span_members(r: Span, s: SpanData)
    requires
        span_is_otlp_of(r, s),
    ensures
        json_span(r) == json_object(span_members(r)),
        has_member(span_members(r), "\"traceId\":"@, json_string(trace_id_text(s.span_context.trace_id))),
        has_member(span_members(r), "\"spanId\":"@, json_string(span_id_text(s.span_context.span_id))),
        s.parent_span_id != 0 ==> has_member(span_members(r), "\"parentSpanId\":"@, json_string(span_id_text(s.parent_span_id))),
        s.parent_span_id == 0 ==> lacks_member(span_members(r), "\"parentSpanId\":"@),
        has_member(span_members(r), "\"name\":"@, json_string(s.name@)),
        has_member(span_members(r), "\"kind\":"@, decimal(kind_number(s.span_kind) as nat)),
        has_member(span_members(r), "\"startTimeUnixNano\":"@, json_string(decimal(s.start_time.nanos()))),
        has_member(span_members(r), "\"endTimeUnixNano\":"@, json_string(decimal(s.end_time.nanos()))),
        r.attributes@.len() == s.attributes@.len(),
        s.attributes@.len() > 0 ==> has_member(span_members(r), "\"attributes\":"@, json_attributes(r.attributes@)),
        s.attributes@.len() == 0 ==> lacks_member(span_members(r), "\"attributes\":"@),
        s.dropped_attributes_count != 0 ==> has_member(span_members(r), "\"droppedAttributesCount\":"@, decimal(s.dropped_attributes_count as nat)),
        s.dropped_attributes_count == 0 ==> lacks_member(span_members(r), "\"droppedAttributesCount\":"@),
        s.events@.len() > 0 ==> has_member(span_members(r), "\"events\":"@, json_span_events(r.events@)),
        s.events@.len() == 0 ==> lacks_member(span_members(r), "\"events\":"@),
        s.dropped_events_count != 0 ==> has_member(span_members(r), "\"droppedEventsCount\":"@, decimal(s.dropped_events_count as nat)),
        s.dropped_events_count == 0 ==> lacks_member(span_members(r), "\"droppedEventsCount\":"@),
        s.links@.len() > 0 ==> has_member(span_members(r), "\"links\":"@, json_span_links(r.links@)),
        s.links@.len() == 0 ==> lacks_member(span_members(r), "\"links\":"@),
        s.dropped_links_count != 0 ==> has_member(span_members(r), "\"droppedLinksCount\":"@, decimal(s.dropped_links_count as nat)),
        s.dropped_links_count == 0 ==> lacks_member(span_members(r), "\"droppedLinksCount\":"@),
        has_member(span_members(r), "\"status\":"@, json_span_status(r.status)),
        s.span_context.trace_flags != 0 ==> has_member(span_members(r), "\"flags\":"@, decimal(s.span_context.trace_flags as nat)),
        s.span_context.trace_flags == 0 ==> lacks_member(span_members(r), "\"flags\":"@),
        s.span_context.trace_state@.len() > 0 ==> has_member(span_members(r), "\"traceState\":"@, json_string(s.span_context.trace_state@)),
        s.span_context.trace_state@.len() == 0 ==> lacks_member(span_members(r), "\"traceState\":"@),
{
    lemma_key_values_view_len(r.attributes@);
    if s.parent_span_id != 0 {
        assert(r.parent_span_id is Some);
    }
    if r.parent_span_id is Some {
        assert(r.parent_span_id.deep_view() is Some);
    }
    if r.trace_state is Some {
        assert(r.trace_state.deep_view() is Some);
    }
    if s.span_context.trace_state@.len() > 0 {
        assert(r.trace_state is Some);
    }
    broadcast use lemma_lacks_concat, lemma_has_concat;

    lemma_span_head_members(r);
    lemma_span_body_members(r);
    lemma_span_tail_members(r);
    assert(span_members(r) == span_head_members(r) + span_body_members(r) + span_tail_members(r));
}

/// A log record is written with each of its fields exactly when it has it:
/// the timestamp and observed timestamp as decimal nanosecond strings, the
/// severity number and text, the body, the attributes when there are any,
/// and the trace id, span id and (when set) trace flags of its trace
/// context.
pub proof fn lemma_log_record_members(r: LogRecord, l: LogRecordData)
    requires
        log_record_is_otlp_of(r, l),
    ensures
        json_log_record(r) == json_object(log_record_members(r)),
        l.timestamp matches Some(u) ==> has_member(log_record_members(r), "\"timeUnixNano\":"@, json_string(decimal(u.nanos()))),
        l.timestamp is None ==> lacks_member(log_record_members(r), "\"timeUnixNano\":"@),
        l.observed_timestamp matches Some(u) ==> has_member(log_record_members(r), "\"observedTimeUnixNano\":"@, json_string(decimal(u.nanos()))),
        l.observed_timestamp is None ==> lacks_member(log_record_members(r), "\"observedTimeUnixNano\":"@),
        l.severity_number matches Some(n) ==> has_member(log_record_members(r), "\"severityNumber\":"@, decimal(n as nat)),
        l.severity_number is None ==> lacks_member(log_record_members(r), "\"severityNumber\":"@),
        l.severity_text matches Some(t) ==> has_member(log_record_members(r), "\"severityText\":"@, json_string(t@)),
        l.severity_text is None ==> lacks_member(log_record_members(r), "\"severityText\":"@),
        l.body matches Some(b) ==> has_member(log_record_members(r), "\"body\":"@, json_value(otlp_of_any(b))),
        l.body is None ==> lacks_member(log_record_members(r), "\"body\":"@),
        r.attributes@.len() == l.attributes@.len(),
        l.attributes@.len() > 0 ==> has_member(log_record_members(r), "\"attributes\":"@, json_attributes(r.attributes@)),
        l.attributes@.len() == 0 ==> lacks_member(log_record_members(r), "\"attributes\":"@),
        l.trace_context matches Some(tc) ==> has_member(log_record_members(r), "\"traceId\":"@, json_string(trace_id_text(tc.trace_id)))
            && has_member(log_record_members(r), "\"spanId\":"@, json_string(span_id_text(tc.span_id)))
            && (tc.trace_flags matches Some(f) ==> has_member(log_record_members(r), "\"flags\":"@, decimal(f as nat)))
            && (tc.trace_flags is None ==> lacks_member(log_record_members(r), "\"flags\":"@)),
        l.trace_context is None ==> lacks_member(log_record_members(r), "\"traceId\":"@) && lacks_member(log_record_members(r), "\"spanId\":"@)
            && lacks_member(log_record_members(r), "\"flags\":"@),
{
    lemma_key_values_view_len(r.attributes@);
    lemma_entries_len(l.attributes@);
    if r.time_unix_nano is Some {
        assert(r.time_unix_nano.deep_view() is Some);
    }
    if r.observed_time_unix_nano is Some {
        assert(r.observed_time_unix_nano.deep_view() is Some);
    }
    if r.severity_text is Some {
        assert(r.severity_text.deep_view() is Some);
    }
    if r.trace_id is Some {
        assert(r.trace_id.deep_view() is Some);
    }
    if r.span_id is Some {
        assert(r.span_id.deep_view() is Some);
    }
    if l.timestamp is Some {
        assert(r.time_unix_nano.deep_view() is Some);
    }
    if l.observed_timestamp is Some {
        assert(r.observed_time_unix_nano.deep_view() is Some);
    }
    if l.severity_text is Some {
        assert(r.severity_text.deep_view() is Some);
    }
    if l.trace_context is Some {
        assert(r.trace_id.deep_view() is Some);
        assert(r.span_id.deep_view() is Some);
    }
    broadcast use lemma_lacks_concat, lemma_has_concat;

    reveal_strlit("\"timeUnixNano\":");
    reveal_strlit("\"observedTimeUnixNano\":");
    reveal_strlit("\"severityNumber\":");
    reveal_strlit("\"severityText\":");
    reveal_strlit("\"body\":");
    reveal_strlit("\"attributes\":");
    reveal_strlit("\"traceId\":");
    reveal_strlit("\"spanId\":");
    reveal_strlit("\"flags\":");
    lemma_no_members("\"timeUnixNano\":"@);
    lemma_no_members("\"observedTimeUnixNano\":"@);
    lemma_no_members("\"severityNumber\":"@);
    lemma_no_members("\"severityText\":"@);
    lemma_no_members("\"body\":"@);
    lemma_no_members("\"attributes\":"@);
    lemma_no_members("\"traceId\":"@);
    lemma_no_members("\"spanId\":"@);
    lemma_no_members("\"flags\":"@);
    if let Some(x) = r.time_unix_nano {
        lemma_single_member("\"timeUnixNano\":"@, json_string(x@));
        lemma_named_otherwise("\"timeUnixNano\":"@, json_string(x@), "\"observedTimeUnixNano\":"@, 1);
        lemma_named_otherwise("\"timeUnixNano\":"@, json_string(x@), "\"severityNumber\":"@, 1);
        lemma_named_otherwise("\"timeUnixNano\":"@, json_string(x@), "\"severityText\":"@, 1);
        lemma_named_otherwise("\"timeUnixNano\":"@, json_string(x@), "\"body\":"@, 1);
        lemma_named_otherwise("\"timeUnixNano\":"@, json_string(x@), "\"attributes\":"@, 1);
        lemma_named_otherwise("\"timeUnixNano\":"@, json_string(x@), "\"traceId\":"@, 2);
        lemma_named_otherwise("\"timeUnixNano\":"@, json_string(x@), "\"spanId\":"@, 1);
        lemma_named_otherwise("\"timeUnixNano\":"@, json_string(x@), "\"flags\":"@, 1);
    }
    if let Some(x) = r.observed_time_unix_nano {
        lemma_single_member("\"observedTimeUnixNano\":"@, json_string(x@));
        lemma_named_otherwise("\"observedTimeUnixNano\":"@, json_string(x@), "\"timeUnixNano\":"@, 1);
        lemma_named_otherwise("\"observedTimeUnixNano\":"@, json_string(x@), "\"severityNumber\":"@, 1);
        lemma_named_otherwise("\"observedTimeUnixNano\":"@, json_string(x@), "\"severityText\":"@, 1);
        lemma_named_otherwise("\"observedTimeUnixNano\":"@, json_string(x@), "\"body\":"@, 1);
        lemma_named_otherwise("\"observedTimeUnixNano\":"@, json_string(x@), "\"attributes\":"@, 1);
        lemma_named_otherwise("\"observedTimeUnixNano\":"@, json_string(x@), "\"traceId\":"@, 1);
        lemma_named_otherwise("\"observedTimeUnixNano\":"@, json_string(x@), "\"spanId\":"@, 1);
        lemma_named_otherwise("\"observedTimeUnixNano\":"@, json_string(x@), "\"flags\":"@, 1);
    }
    if let Some(x) = r.severity_number {
        lemma_single_member("\"severityNumber\":"@, decimal(x as nat));
        lemma_named_otherwise("\"severityNumber\":"@, decimal(x as nat), "\"timeUnixNano\":"@, 1);
        lemma_named_otherwise("\"severityNumber\":"@, decimal(x as nat), "\"observedTimeUnixNano\":"@, 1);
        lemma_named_otherwise("\"severityNumber\":"@, decimal(x as nat), "\"severityText\":"@, 9);
        lemma_named_otherwise("\"severityNumber\":"@, decimal(x as nat), "\"body\":"@, 1);
        lemma_named_otherwise("\"severityNumber\":"@, decimal(x as nat), "\"attributes\":"@, 1);
        lemma_named_otherwise("\"severityNumber\":"@, decimal(x as nat), "\"traceId\":"@, 1);
        lemma_named_otherwise("\"severityNumber\":"@, decimal(x as nat), "\"spanId\":"@, 2);
        lemma_named_otherwise("\"severityNumber\":"@, decimal(x as nat), "\"flags\":"@, 1);
    }
    if let Some(x) = r.severity_text {
        lemma_single_member("\"severityText\":"@, json_string(x@));
        lemma_named_otherwise("\"severityText\":"@, json_string(x@), "\"timeUnixNano\":"@, 1);
        lemma_named_otherwise("\"severityText\":"@, json_string(x@), "\"observedTimeUnixNano\":"@, 1);
        lemma_named_otherwise("\"severityText\":"@, json_string(x@), "\"severityNumber\":"@, 9);
        lemma_named_otherwise("\"severityText\":"@, json_string(x@), "\"body\":"@, 1);
        lemma_named_otherwise("\"severityText\":"@, json_string(x@), "\"attributes\":"@, 1);
        lemma_named_otherwise("\"severityText\":"@, json_string(x@), "\"traceId\":"@, 1);
        lemma_named_otherwise("\"severityText\":"@, json_string(x@), "\"spanId\":"@, 2);
        lemma_named_otherwise("\"severityText\":"@, json_string(x@), "\"flags\":"@, 1);
    }
    if let Some(x) = r.body {
        lemma_single_member("\"body\":"@, json_value(value_view(x)));
        lemma_named_otherwise("\"body\":"@, json_value(value_view(x)), "\"timeUnixNano\":"@, 1);
        lemma_named_otherwise("\"body\":"@, json_value(value_view(x)), "\"observedTimeUnixNano\":"@, 1);
        lemma_named_otherwise("\"body\":"@, json_value(value_view(x)), "\"severityNumber\":"@, 1);
        lemma_named_otherwise("\"body\":"@, json_value(value_view(x)), "\"severityText\":"@, 1);
        lemma_named_otherwise("\"body\":"@, json_value(value_view(x)), "\"attributes\":"@, 1);
        lemma_named_otherwise("\"body\":"@, json_value(value_view(x)), "\"traceId\":"@, 1);
        lemma_named_otherwise("\"body\":"@, json_value(value_view(x)), "\"spanId\":"@, 1);
        lemma_named_otherwise("\"body\":"@, json_value(value_view(x)), "\"flags\":"@, 1);
    }
    if r.attributes@.len() > 0 {
        lemma_single_member("\"attributes\":"@, json_attributes(r.attributes@));
        lemma_named_otherwise("\"attributes\":"@, json_attributes(r.attributes@), "\"timeUnixNano\":"@, 1);
        lemma_named_otherwise("\"attributes\":"@, json_attributes(r.attributes@), "\"observedTimeUnixNano\":"@, 1);
        lemma_named_otherwise("\"attributes\":"@, json_attributes(r.attributes@), "\"severityNumber\":"@, 1);
        lemma_named_otherwise("\"attributes\":"@, json_attributes(r.attributes@), "\"severityText\":"@, 1);
        lemma_named_otherwise("\"attributes\":"@, json_attributes(r.attributes@), "\"body\":"@, 1);
        lemma_named_otherwise("\"attributes\":"@, json_attributes(r.attributes@), "\"traceId\":"@, 1);
        lemma_named_otherwise("\"attributes\":"@, json_attributes(r.attributes@), "\"spanId\":"@, 1);
        lemma_named_otherwise("\"attributes\":"@, json_attributes(r.attributes@), "\"flags\":"@, 1);
    }
    if let Some(x) = r.trace_id {
        lemma_single_member("\"traceId\":"@, json_string(x@));
        lemma_named_otherwise("\"traceId\":"@, json_string(x@), "\"timeUnixNano\":"@, 2);
        lemma_named_otherwise("\"traceId\":"@, json_string(x@), "\"observedTimeUnixNano\":"@, 1);
        lemma_named_otherwise("\"traceId\":"@, json_string(x@), "\"severityNumber\":"@, 1);
        lemma_named_otherwise("\"traceId\":"@, json_string(x@), "\"severityText\":"@, 1);
        lemma_named_otherwise("\"traceId\":"@, json_string(x@), "\"body\":"@, 1);
        lemma_named_otherwise("\"traceId\":"@, json_string(x@), "\"attributes\":"@, 1);
        lemma_named_otherwise("\"traceId\":"@, json_string(x@), "\"spanId\":"@, 1);
        lemma_named_otherwise("\"traceId\":"@, json_string(x@), "\"flags\":"@, 1);
    }
    if let Some(x) = r.span_id {
        lemma_single_member("\"spanId\":"@, json_string(x@));
        lemma_named_otherwise("\"spanId\":"@, json_string(x@), "\"timeUnixNano\":"@, 1);
        lemma_named_otherwise("\"spanId\":"@, json_string(x@), "\"observedTimeUnixNano\":"@, 1);
        lemma_named_otherwise("\"spanId\":"@, json_string(x@), "\"severityNumber\":"@, 2);
        lemma_named_otherwise("\"spanId\":"@, json_string(x@), "\"severityText\":"@, 2);
        lemma_named_otherwise("\"spanId\":"@, json_string(x@), "\"body\":"@, 1);
        lemma_named_otherwise("\"spanId\":"@, json_string(x@), "\"attributes\":"@, 1);
        lemma_named_otherwise("\"spanId\":"@, json_string(x@), "\"traceId\":"@, 1);
        lemma_named_otherwise("\"spanId\":"@, json_string(x@), "\"flags\":"@, 1);
    }
    if let Some(x) = r.flags {
        lemma_single_member("\"flags\":"@, decimal(x as nat));
        lemma_named_otherwise("\"flags\":"@, decimal(x as nat), "\"timeUnixNano\":"@, 1);
        lemma_named_otherwise("\"flags\":"@, decimal(x as nat), "\"observedTimeUnixNano\":"@, 1);
        lemma_named_otherwise("\"flags\":"@, decimal(x as nat), "\"severityNumber\":"@, 1);
        lemma_named_otherwise("\"flags\":"@, decimal(x as nat), "\"severityText\":"@, 1);
        lemma_named_otherwise("\"flags\":"@, decimal(x as nat), "\"body\":"@, 1);
        lemma_named_otherwise("\"flags\":"@, decimal(x as nat), "\"attributes\":"@, 1);
        lemma_named_otherwise("\"flags\":"@, decimal(x as nat), "\"traceId\":"@, 1);
        lemma_named_otherwise("\"flags\":"@, decimal(x as nat), "\"spanId\":"@, 1);
    }
}

/// A scope is written with its name always, its version and schema URL
/// exactly when it has them, and its attributes exactly when there are any.
pub proof fn lemma_scope_members(r: Scope, s: ScopeView)
    requires
        scope_is_otlp_of(r, s),
    ensures
        json_scope(r) == json_object(scope_members(r)),
        has_member(scope_members(r), "\"name\":"@, json_string(s.name)),
        s.version matches Some(v) ==> has_member(scope_members(r), "\"version\":"@, json_string(v)),
        s.version is None ==> lacks_member(scope_members(r), "\"version\":"@),
        s.schema_url matches Some(v) ==> has_member(scope_members(r), "\"schemaUrl\":"@, json_string(v)),
        s.schema_url is None ==> lacks_member(scope_members(r), "\"schemaUrl\":"@),
        r.attributes@.len() == s.attributes.len(),
        s.attributes.len() > 0 ==> has_member(scope_members(r), "\"attributes\":"@, json_attributes(r.attributes@)),
        s.attributes.len() == 0 ==> lacks_member(scope_members(r), "\"attributes\":"@),
{
    lemma_key_values_view_len(r.attributes@);
    if r.version is Some {
        assert(r.version.deep_view() is Some);
    }
    if r.schema_url is Some {
        assert(r.schema_url.deep_view() is Some);
    }
    if s.version is Some {
        assert(r.version.deep_view() is Some);
    }
    if s.schema_url is Some {
        assert(r.schema_url.deep_view() is Some);
    }
    broadcast use lemma_lacks_concat, lemma_has_concat;

    reveal_strlit("\"name\":");
    reveal_strlit("\"version\":");
    reveal_strlit("\"schemaUrl\":");
    reveal_strlit("\"attributes\":");
    lemma_no_members("\"name\":"@);
    lemma_no_members("\"version\":"@);
    lemma_no_members("\"schemaUrl\":"@);
    lemma_no_members("\"attributes\":"@);
    {
        lemma_single_member("\"name\":"@, json_string(r.name@));
        lemma_named_otherwise("\"name\":"@, json_string(r.name@), "\"version\":"@, 1);
        lemma_named_otherwise("\"name\":"@, json_string(r.name@), "\"schemaUrl\":"@, 1);
        lemma_named_otherwise("\"name\":"@, json_string(r.name@), "\"attributes\":"@, 1);
    }
    if let Some(x) = r.version {
        lemma_single_member("\"version\":"@, json_string(x@));
        lemma_named_otherwise("\"version\":"@, json_string(x@), "\"name\":"@, 1);
        lemma_named_otherwise("\"version\":"@, json_string(x@), "\"schemaUrl\":"@, 1);
        lemma_named_otherwise("\"version\":"@, json_string(x@), "\"attributes\":"@, 1);
    }
    if let Some(x) = r.schema_url {
        lemma_single_member("\"schemaUrl\":"@, json_string(x@));
        lemma_named_otherwise("\"schemaUrl\":"@, json_string(x@), "\"name\":"@, 1);
        lemma_named_otherwise("\"schemaUrl\":"@, json_string(x@), "\"version\":"@, 1);
        lemma_named_otherwise("\"schemaUrl\":"@, json_string(x@), "\"attributes\":"@, 1);
    }
    if r.attributes@.len() > 0 {
        lemma_single_member("\"attributes\":"@, json_attributes(r.attributes@));
        lemma_named_otherwise("\"attributes\":"@, json_attributes(r.attributes@), "\"name\":"@, 1);
        lemma_named_otherwise("\"attributes\":"@, json_attributes(r.attributes@), "\"version\":"@, 1);
        lemma_named_otherwise("\"attributes\":"@, json_attributes(r.attributes@), "\"schemaUrl\":"@, 1);
    }
}

/// An event is written with its decimal nanosecond time and its name
/// always, its attributes exactly when there are any, and its dropped
/// attribute count exactly when it is not zero.
pub proof fn lemma_event_members(r: SpanEvent, e: Event)
    requires
        event_is_otlp_of(r, e),
    ensures
        json_span_event(r) == json_object(span_event_members(r)),
        has_member(span_event_members(r), "\"timeUnixNano\":"@, json_string(decimal(e.timestamp.nanos()))),
        has_member(span_event_members(r), "\"name\":"@, json_string(e.name@)),
        r.attributes@.len() == e.attributes@.len(),
        e.attributes@.len() > 0 ==> has_member(span_event_members(r), "\"attributes\":"@, json_attributes(r.attributes@)),
        e.attributes@.len() == 0 ==> lacks_member(span_event_members(r), "\"attributes\":"@),
        e.dropped_attributes_count != 0 ==> has_member(span_event_members(r), "\"droppedAttributesCount\":"@, decimal(e.dropped_attributes_count as nat)),
        e.dropped_attributes_count == 0 ==> lacks_member(span_event_members(r), "\"droppedAttributesCount\":"@),
{
    lemma_key_values_view_len(r.attributes@);
    broadcast use lemma_lacks_concat, lemma_has_concat;

    reveal_strlit("\"timeUnixNano\":");
    reveal_strlit("\"name\":");
    reveal_strlit("\"attributes\":");
    reveal_strlit("\"droppedAttributesCount\":");
    lemma_no_members("\"timeUnixNano\":"@);
    lemma_no_members("\"name\":"@);
    lemma_no_members("\"attributes\":"@);
    lemma_no_members("\"droppedAttributesCount\":"@);
    {
        lemma_single_member("\"timeUnixNano\":"@, json_string(r.time_unix_nano@));
        lemma_named_otherwise("\"timeUnixNano\":"@, json_string(r.time_unix_nano@), "\"name\":"@, 1);
        lemma_named_otherwise("\"timeUnixNano\":"@, json_string(r.time_unix_nano@), "\"attributes\":"@, 1);
        lemma_named_otherwise("\"timeUnixNano\":"@, json_string(r.time_unix_nano@), "\"droppedAttributesCount\":"@, 1);
    }
    {
        lemma_single_member("\"name\":"@, json_string(r.name@));
        lemma_named_otherwise("\"name\":"@, json_string(r.name@), "\"timeUnixNano\":"@, 1);
        lemma_named_otherwise("\"name\":"@, json_string(r.name@), "\"attributes\":"@, 1);
        lemma_named_otherwise("\"name\":"@, json_string(r.name@), "\"droppedAttributesCount\":"@, 1);
    }
    if r.attributes@.len() > 0 {
        lemma_single_member("\"attributes\":"@, json_attributes(r.attributes@));
        lemma_named_otherwise("\"attributes\":"@, json_attributes(r.attributes@), "\"timeUnixNano\":"@, 1);
        lemma_named_otherwise("\"attributes\":"@, json_attributes(r.attributes@), "\"name\":"@, 1);
        lemma_named_otherwise("\"attributes\":"@, json_attributes(r.attributes@), "\"droppedAttributesCount\":"@, 1);
    }
    if r.dropped_attributes_count != 0 {
        lemma_single_member("\"droppedAttributesCount\":"@, decimal(r.dropped_attributes_count as nat));
        lemma_named_otherwise("\"droppedAttributesCount\":"@, decimal(r.dropped_attributes_count as nat), "\"timeUnixNano\":"@, 1);
        lemma_named_otherwise("\"droppedAttributesCount\":"@, decimal(r.dropped_attributes_count as nat), "\"name\":"@, 1);
        lemma_named_otherwise("\"droppedAttributesCount\":"@, decimal(r.dropped_attributes_count as nat), "\"attributes\":"@, 1);
    }
}

/// A link is written with the trace id and span id of the linked span as
/// hex strings, its attributes exactly when there are any, its dropped
/// attribute count exactly when it is not zero, a `flags` member holding
/// the linked span's decimal trace flags exactly when they are not zero, and
/// its trace state exactly when the header is not empty.
pub proof fn lemma_link_members(r: SpanLink, l: Link)
    requires
        link_is_otlp_of(r, l),
    ensures
        json_span_link(r) == json_object(span_link_members(r)),
        has_member(span_link_members(r), "\"traceId\":"@, json_string(trace_id_text(l.span_context.trace_id))),
        has_member(span_link_members(r), "\"spanId\":"@, json_string(span_id_text(l.span_context.span_id))),
        r.attributes@.len() == l.attributes@.len(),
        l.attributes@.len() > 0 ==> has_member(span_link_members(r), "\"attributes\":"@, json_attributes(r.attributes@)),
        l.attributes@.len() == 0 ==> lacks_member(span_link_members(r), "\"attributes\":"@),
        l.dropped_attributes_count != 0 ==> has_member(span_link_members(r), "\"droppedAttributesCount\":"@, decimal(l.dropped_attributes_count as nat)),
        l.dropped_attributes_count == 0 ==> lacks_member(span_link_members(r), "\"droppedAttributesCount\":"@),
        l.span_context.trace_flags != 0 ==> has_member(span_link_members(r), "\"flags\":"@, decimal(l.span_context.trace_flags as nat)),
        l.span_context.trace_flags == 0 ==> lacks_member(span_link_members(r), "\"flags\":"@),
        l.span_context.trace_state@.len() > 0 ==> has_member(span_link_members(r), "\"traceState\":"@, json_string(l.span_context.trace_state@)),
        l.span_context.trace_state@.len() == 0 ==> lacks_member(span_link_members(r), "\"traceState\":"@),
{
    lemma_key_values_view_len(r.attributes@);
    if r.trace_state is Some {
        assert(r.trace_state.deep_view() is Some);
    }
    if l.span_context.trace_state@.len() > 0 {
        assert(r.trace_state.deep_view() is Some);
    }
    broadcast use lemma_lacks_concat, lemma_has_concat;

    reveal_strlit("\"traceId\":");
    reveal_strlit("\"spanId\":");
    reveal_strlit("\"attributes\":");
    reveal_strlit("\"droppedAttributesCount\":");
    reveal_strlit("\"flags\":");
    reveal_strlit("\"traceState\":");
    lemma_no_members("\"traceId\":"@);
    lemma_no_members("\"spanId\":"@);
    lemma_no_members("\"attributes\":"@);
    lemma_no_members("\"droppedAttributesCount\":"@);
    lemma_no_members("\"flags\":"@);
    lemma_no_members("\"traceState\":"@);
    {
        lemma_single_member("\"traceId\":"@, json_string(r.trace_id@));
        lemma_named_otherwise("\"traceId\":"@, json_string(r.trace_id@), "\"spanId\":"@, 1);
        lemma_named_otherwise("\"traceId\":"@, json_string(r.trace_id@), "\"attributes\":"@, 1);
        lemma_named_otherwise("\"traceId\":"@, json_string(r.trace_id@), "\"droppedAttributesCount\":"@, 1);
        lemma_named_otherwise("\"traceId\":"@, json_string(r.trace_id@), "\"flags\":"@, 1);
        lemma_named_otherwise("\"traceId\":"@, json_string(r.trace_id@), "\"traceState\":"@, 6);
    }
    {
        lemma_single_member("\"spanId\":"@, json_string(r.span_id@));
        lemma_named_otherwise("\"spanId\":"@, json_string(r.span_id@), "\"traceId\":"@, 1);
        lemma_named_otherwise("\"spanId\":"@, json_string(r.span_id@), "\"attributes\":"@, 1);
        lemma_named_otherwise("\"spanId\":"@, json_string(r.span_id@), "\"droppedAttributesCount\":"@, 1);
        lemma_named_otherwise("\"spanId\":"@, json_string(r.span_id@), "\"flags\":"@, 1);
        lemma_named_otherwise("\"spanId\":"@, json_string(r.span_id@), "\"traceState\":"@, 1);
    }
    if r.attributes@.len() > 0 {
        lemma_single_member("\"attributes\":"@, json_attributes(r.attributes@));
        lemma_named_otherwise("\"attributes\":"@, json_attributes(r.attributes@), "\"traceId\":"@, 1);
        lemma_named_otherwise("\"attributes\":"@, json_attributes(r.attributes@), "\"spanId\":"@, 1);
        lemma_named_otherwise("\"attributes\":"@, json_attributes(r.attributes@), "\"droppedAttributesCount\":"@, 1);
        lemma_named_otherwise("\"attributes\":"@, json_attributes(r.attributes@), "\"flags\":"@, 1);
        lemma_named_otherwise("\"attributes\":"@, json_attributes(r.attributes@), "\"traceState\":"@, 1);
    }
    if r.dropped_attributes_count != 0 {
        lemma_single_member("\"droppedAttributesCount\":"@, decimal(r.dropped_attributes_count as nat));
        lemma_named_otherwise("\"droppedAttributesCount\":"@, decimal(r.dropped_attributes_count as nat), "\"traceId\":"@, 1);
        lemma_named_otherwise("\"droppedAttributesCount\":"@, decimal(r.dropped_attributes_count as nat), "\"spanId\":"@, 1);
        lemma_named_otherwise("\"droppedAttributesCount\":"@, decimal(r.dropped_attributes_count as nat), "\"attributes\":"@, 1);
        lemma_named_otherwise("\"droppedAttributesCount\":"@, decimal(r.dropped_attributes_count as nat), "\"flags\":"@, 1);
        lemma_named_otherwise("\"droppedAttributesCount\":"@, decimal(r.dropped_attributes_count as nat), "\"traceState\":"@, 1);
    }
    if r.flags != 0 {
        lemma_single_member("\"flags\":"@, decimal(r.flags as nat));
        lemma_named_otherwise("\"flags\":"@, decimal(r.flags as nat), "\"traceId\":"@, 1);
        lemma_named_otherwise("\"flags\":"@, decimal(r.flags as nat), "\"spanId\":"@, 1);
        lemma_named_otherwise("\"flags\":"@, decimal(r.flags as nat), "\"attributes\":"@, 1);
        lemma_named_otherwise("\"flags\":"@, decimal(r.flags as nat), "\"droppedAttributesCount\":"@, 1);
        lemma_named_otherwise("\"flags\":"@, decimal(r.flags as nat), "\"traceState\":"@, 1);
    }
    if let Some(x) = r.trace_state {
        lemma_single_member("\"traceState\":"@, json_string(x@));
        lemma_named_otherwise("\"traceState\":"@, json_string(x@), "\"traceId\":"@, 6);
        lemma_named_otherwise("\"traceState\":"@, json_string(x@), "\"spanId\":"@, 1);
        lemma_named_otherwise("\"traceState\":"@, json_string(x@), "\"attributes\":"@, 1);
        lemma_named_otherwise("\"traceState\":"@, json_string(x@), "\"droppedAttributesCount\":"@, 1);
        lemma_named_otherwise("\"traceState\":"@, json_string(x@), "\"flags\":"@, 1);
    }
}

/// The status is written with its OTLP code (0 unset, 1 ok, 2 error)
/// always, and with a message, the error's description, exactly when it is
/// an error with a description that is not empty.
pub proof fn lemma_status_members(r: SpanStatus, s: Status)
    requires
        status_is_otlp_of(r, s),
    ensures
        json_span_status(r) == json_object(span_status_members(r)),
        has_member(span_status_members(r), "\"code\":"@, decimal(match s {
            Status::Unset => 0nat,
            Status::Success => 1nat,
            Status::Error { .. } => 2nat,
        })),
        s is Error && s->description@.len() > 0 ==> has_member(
            span_status_members(r),
            "\"message\":"@,
            json_string(s->description@),
        ),
        !(s is Error && s->description@.len() > 0) ==> lacks_member(
            span_status_members(r),
            "\"message\":"@,
        ),
{
    broadcast use lemma_lacks_concat, lemma_has_concat;

    reveal_strlit("\"code\":");
    reveal_strlit("\"message\":");
    lemma_no_members("\"code\":"@);
    lemma_no_members("\"message\":"@);
    {
        lemma_single_member("\"code\":"@, decimal(r.code as nat));
        lemma_named_otherwise("\"code\":"@, decimal(r.code as nat), "\"message\":"@, 1);
    }
    if r.message@.len() > 0 {
        lemma_single_member("\"message\":"@, json_string(r.message@));
        lemma_named_otherwise("\"message\":"@, json_string(r.message@), "\"code\":"@, 1);
    }
}

/// Each span kind has its own OTLP number: internal 1, server 2, client 3,
/// producer 4, consumer 5 (0, unspecified, is never written).
pub proof fn lemma_kind_numbers(a: SpanKind, b: SpanKind)
    ensures
        1 <= kind_number(a) <= 5,
        kind_number(a) == kind_number(b) <==> a == b,
        kind_number(SpanKind::Internal) == 1,
        kind_number(SpanKind::Server) == 2,
        kind_number(SpanKind::Client) == 3,
        kind_number(SpanKind::Producer) == 4,
        kind_number(SpanKind::Consumer) == 5,
{
}

} // verus!
