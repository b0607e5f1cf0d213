//! OTLP JSON encoding.
//!
//! Objects list their present fields in schema order, separated by commas;
//! optional fields that are absent (and, where the encoding says so, empty
//! lists, zero counts and empty strings) are left out. Enum values are
//! externally tagged: `{"stringValue":"..."}`.

use vstd::prelude::*;

use crate::otlp::{
    key_values_view, value_view, values_view, OtlpAnyValue, OtlpKeyValue, OtlpValueView, Resource,
    ExportLogsServiceRequest, ExportTraceServiceRequest, LogRecord, ResourceLogs, ResourceSpans,
    Scope, ScopeLogs, ScopeSpans, Span, SpanEvent, SpanLink, SpanStatus,
};
use crate::text::{decimal, json_quote, json_string, u128_to_decimal};

verus! {

/// The items joined with `,` between consecutive items.
pub open spec fn join_commas(items: Seq<Seq<char>>) -> Seq<char>
    decreases items.len(),
{
    if items.len() == 0 {
        seq![]
    } else if items.len() == 1 {
        items[0]
    } else {
        join_commas(items.drop_last()) + seq![','] + items.last()
    }
}

/// A JSON object whose members are the given `"name":value` texts.
pub open spec fn json_object(members: Seq<Seq<char>>) -> Seq<char> {
    seq!['{'] + join_commas(members) + seq!['}']
}

/// A JSON array of the given element texts.
pub open spec fn json_array(elements: Seq<Seq<char>>) -> Seq<char> {
    seq!['['] + join_commas(elements) + seq![']']
}

/// The JSON text of a boolean.
pub open spec fn json_bool(b: bool) -> Seq<char> {
    if b {
        seq!['t', 'r', 'u', 'e']
    } else {
        seq!['f', 'a', 'l', 's', 'e']
    }
}

/// The JSON text of an OTLP `AnyValue`.
pub open spec fn json_value(v: OtlpValueView) -> Seq<char>
    decreases v,
{
    match v {
        OtlpValueView::StringValue(s) => json_object(seq!["\"stringValue\":"@ + json_string(s)]),
        OtlpValueView::BoolValue(b) => json_object(seq!["\"boolValue\":"@ + json_bool(b)]),
        OtlpValueView::IntValue(s) => json_object(seq!["\"intValue\":"@ + json_string(s)]),
        OtlpValueView::DoubleValue(t) => json_object(seq!["\"doubleValue\":"@ + t]),
        OtlpValueView::ArrayValue(vs) => json_object(
            seq!["\"arrayValue\":"@ + json_object(seq!["\"values\":"@ + json_array(json_values(vs))])],
        ),
        OtlpValueView::KvlistValue(kvs) => json_object(
            seq!["\"kvlistValue\":"@ + json_object(seq!["\"values\":"@ + json_array(json_key_values(kvs))])],
        ),
        OtlpValueView::BytesValue(s) => json_object(seq!["\"bytesValue\":"@ + json_string(s)]),
    }
}

/// The JSON texts of a sequence of values.
pub open spec fn json_values(vs: Seq<OtlpValueView>) -> Seq<Seq<char>>
    decreases vs,
{
    if vs.len() == 0 {
        seq![]
    } else {
        json_values(vs.drop_last()).push(json_value(vs.last()))
    }
}

/// The JSON text of an OTLP `KeyValue`.
pub open spec fn json_key_value(kv: (Seq<char>, OtlpValueView)) -> Seq<char>
    decreases kv,
{
    json_object(seq!["\"key\":"@ + json_string(kv.0), "\"value\":"@ + json_value(kv.1)])
}

/// The JSON texts of a sequence of key-values.
pub open spec fn json_key_values(kvs: Seq<(Seq<char>, OtlpValueView)>) -> Seq<Seq<char>>
    decreases kvs,
{
    if kvs.len() == 0 {
        seq![]
    } else {
        json_key_values(kvs.drop_last()).push(json_key_value(kvs.last()))
    }
}

/// Accumulates comma-separated items.
pub struct Joiner {
    buf: String,
    empty: bool,
    items: Ghost<Seq<Seq<char>>>,
}

impl Joiner {
    pub closed spec fn items(&self) -> Seq<Seq<char>> {
        self.items@
    }

    pub closed spec fn wf(&self) -> bool {
        &&& self.buf@ == join_commas(self.items@)
        &&& self.empty == (self.items@.len() == 0)
    }

    pub fn new() -> (j: Joiner)
        ensures
            j.wf(),
            j.items() == Seq::<Seq<char>>::empty(),
    {
        Joiner { buf: String::new(), empty: true, items: Ghost(Seq::empty()) }
    }

    /// Appends the concatenation of `a` and `b` as one item.
    pub fn push2(&mut self, a: &str, b: &str)
        requires
            old(self).wf(),
        ensures
            final(self).wf(),
            final(self).items() == old(self).items().push(a@ + b@),
    {
        let ghost old_items = self.items@;
        let ghost old_buf = self.buf@;
        if !self.empty {
            proof { reveal_strlit(","); }
            self.buf.append(",");
        }
        self.buf.append(a);
        self.buf.append(b);
        proof {
            let new_items = old_items.push(a@ + b@);
            assert(new_items.drop_last() =~= old_items);
            assert(new_items.last() == a@ + b@);
            if old_items.len() == 0 {
                assert(self.buf@ =~= a@ + b@);
            } else {
                assert(self.buf@ =~= old_buf + seq![','] + (a@ + b@));
            }
        }
        self.empty = false;
        proof {
            let new_items = old_items.push(a@ + b@);
            assert(new_items.drop_last() =~= old_items);
            self.items = Ghost(new_items);
        }
    }

    /// Appends one item.
    pub fn push(&mut self, item: &str)
        requires
            old(self).wf(),
        ensures
            final(self).wf(),
            final(self).items() == old(self).items().push(item@),
    {
        proof { reveal_strlit(""); }
        self.push2(item, "");
        proof { assert(item@ + ""@ =~= item@); }
    }

    /// The JSON object whose members are the items.
    pub fn into_object(self) -> (r: String)
        requires
            self.wf(),
        ensures
            r@ == json_object(self.items()),
    {
        let mut r = String::new();
        proof { reveal_strlit("{"); reveal_strlit("}"); }
        r.append("{");
        r.append(self.buf.as_str());
        r.append("}");
        r
    }

    /// The JSON array whose elements are the items.
    pub fn into_array(self) -> (r: String)
        requires
            self.wf(),
        ensures
            r@ == json_array(self.items()),
    {
        let mut r = String::new();
        proof { reveal_strlit("["); reveal_strlit("]"); }
        r.append("[");
        r.append(self.buf.as_str());
        r.append("]");
        r
    }
}

/// The JSON object with the single member `name` + `value`.
fn single_member_object(name: &str, value: &str) -> (r: String)
    ensures
        r@ == json_object(seq![name@ + value@]),
{
    let mut j = Joiner::new();
    j.push2(name, value);
    proof { assert(j.items() =~= seq![name@ + value@]); }
    j.into_object()
}

/// Writes the JSON text of an OTLP `AnyValue`.
pub fn encode_value(v: &OtlpAnyValue) -> (r: String)
    ensures
        r@ == json_value(value_view(*v)),
    decreases v,
{
    match v {
        OtlpAnyValue::StringValue(s) => {
            let q = json_quote(s.as_str());
            single_member_object("\"stringValue\":", q.as_str())
        },
        OtlpAnyValue::BoolValue(b) => {
            if *b {
                proof { reveal_strlit("true"); }
                single_member_object("\"boolValue\":", "true")
            } else {
                proof { reveal_strlit("false"); }
                single_member_object("\"boolValue\":", "false")
            }
        },
        OtlpAnyValue::IntValue(s) => {
            let q = json_quote(s.as_str());
            single_member_object("\"intValue\":", q.as_str())
        },
        OtlpAnyValue::DoubleValue(t) => single_member_object("\"doubleValue\":", t.as_str()),
        OtlpAnyValue::ArrayValue(a) => {
            let mut items = Joiner::new();
            let n = a.values.len();
            let mut i: usize = 0;
            while i < n
                invariant
                    n == a.values@.len(),
                    i <= n,
                    *v == OtlpAnyValue::ArrayValue(*a),
                    items.wf(),
                    items.items() == json_values(values_view(a.values@.take(i as int))),
                decreases n - i,
            {
                proof {
                    let w = *v;
                    assert(decreases_to!(w => w->ArrayValue_0));
                    assert(decreases_to!(w->ArrayValue_0 => w->ArrayValue_0.values));
                    assert(decreases_to!(w->ArrayValue_0.values => w->ArrayValue_0.values@));
                    assert(decreases_to!(w->ArrayValue_0.values@ => w->ArrayValue_0.values@[i as int]));
                }
                let e = encode_value(&a.values[i]);
                items.push(e.as_str());
                proof {
                    let t = a.values@.take(i + 1);
                    assert(t.drop_last() =~= a.values@.take(i as int));
                    assert(values_view(t).drop_last() =~= values_view(a.values@.take(i as int)));
                }
                i = i + 1;
            }
            proof { assert(a.values@.take(n as int) =~= a.values@); }
            let arr = items.into_array();
            let inner = single_member_object("\"values\":", arr.as_str());
            single_member_object("\"arrayValue\":", inner.as_str())
        },
        OtlpAnyValue::KvlistValue(l) => {
            let mut items = Joiner::new();
            let n = l.values.len();
            let mut i: usize = 0;
            while i < n
                invariant
                    n == l.values@.len(),
                    i <= n,
                    *v == OtlpAnyValue::KvlistValue(*l),
                    items.wf(),
                    items.items() == json_key_values(key_values_view(l.values@.take(i as int))),
                decreases n - i,
            {
                let kv = &l.values[i];
                let key = json_quote(kv.key.as_str());
                proof {
                    let w = *v;
                    assert(decreases_to!(w => w->KvlistValue_0));
                    assert(decreases_to!(w->KvlistValue_0 => w->KvlistValue_0.values));
                    assert(decreases_to!(w->KvlistValue_0.values => w->KvlistValue_0.values@));
                    assert(decreases_to!(w->KvlistValue_0.values@ => w->KvlistValue_0.values@[i as int]));
                    assert(decreases_to!(w->KvlistValue_0.values@[i as int] => w->KvlistValue_0.values@[i as int].value));
                }
                let value = encode_value(&kv.value);
                let mut members = Joiner::new();
                members.push2("\"key\":", key.as_str());
                members.push2("\"value\":", value.as_str());
                proof {
                    assert(members.items() =~= seq!["\"key\":"@ + key@, "\"value\":"@ + value@]);
                }
                let obj = members.into_object();
                items.push(obj.as_str());
                proof {
                    let t = l.values@.take(i + 1);
                    assert(t.drop_last() =~= l.values@.take(i as int));
                    assert(key_values_view(t).drop_last() =~= key_values_view(l.values@.take(i as int)));
                    assert(obj@ == json_key_value((kv.key@, value_view(kv.value))));
                }
                i = i + 1;
            }
            proof { assert(l.values@.take(n as int) =~= l.values@); }
            let arr = items.into_array();
            let inner = single_member_object("\"values\":", arr.as_str());
            single_member_object("\"kvlistValue\":", inner.as_str())
        },
        OtlpAnyValue::BytesValue(s) => {
            let q = json_quote(s.as_str());
            single_member_object("\"bytesValue\":", q.as_str())
        },
    }
}

/// The member `name` with a string value.
pub open spec fn string_member(name: Seq<char>, s: String) -> Seq<char> {
    name + json_string(s@)
}

/// The member `name` with a string value, present only for `Some`.
pub open spec fn opt_string_members(name: Seq<char>, o: Option<String>) -> Seq<Seq<char>> {
    match o {
        Some(s) => seq![string_member(name, s)],
        None => seq![],
    }
}

/// The member `name` with a number value, present only for `Some`.
pub open spec fn opt_number_members(name: Seq<char>, o: Option<u32>) -> Seq<Seq<char>> {
    match o {
        Some(n) => seq![name + decimal(n as nat)],
        None => seq![],
    }
}

/// The member `name` with a number value, present only when it is not zero.
pub open spec fn nonzero_members(name: Seq<char>, n: u32) -> Seq<Seq<char>> {
    if n == 0 {
        seq![]
    } else {
        seq![name + decimal(n as nat)]
    }
}

/// The JSON array of a list of key-values.
pub open spec fn json_attributes(kvs: Seq<OtlpKeyValue>) -> Seq<char> {
    json_array(json_key_values(key_values_view(kvs)))
}

/// The member `name` with a key-value list, present only when the list is not empty.
pub open spec fn attributes_members(name: Seq<char>, kvs: Seq<OtlpKeyValue>) -> Seq<Seq<char>> {
    if kvs.len() == 0 {
        seq![]
    } else {
        seq![name + json_attributes(kvs)]
    }
}

/// Pushes the member `name` with a string value.
fn push_string(j: &mut Joiner, name: &str, s: &String)
    requires
        old(j).wf(),
    ensures
        final(j).wf(),
        final(j).items() == old(j).items().push(string_member(name@, *s)),
{
    let q = json_quote(s.as_str());
    j.push2(name, q.as_str());
}

/// Pushes the member `name` when `o` is `Some`.
fn push_opt_string(j: &mut Joiner, name: &str, o: &Option<String>)
    requires
        old(j).wf(),
    ensures
        final(j).wf(),
        final(j).items() == old(j).items() + opt_string_members(name@, *o),
{
    match o {
        Some(s) => push_string(j, name, s),
        None => {},
    }
    proof { assert(final(j).items() =~= old(j).items() + opt_string_members(name@, *o)); }
}

/// Pushes the member `name` with a number value.
fn push_number(j: &mut Joiner, name: &str, n: u32)
    requires
        old(j).wf(),
    ensures
        final(j).wf(),
        final(j).items() == old(j).items().push(name@ + decimal(n as nat)),
{
    let t = u128_to_decimal(n as u128);
    j.push2(name, t.as_str());
}

/// Pushes the member `name` when `o` is `Some`.
fn push_opt_number(j: &mut Joiner, name: &str, o: Option<u32>)
    requires
        old(j).wf(),
    ensures
        final(j).wf(),
        final(j).items() == old(j).items() + opt_number_members(name@, o),
{
    match o {
        Some(n) => push_number(j, name, n),
        None => {},
    }
    proof { assert(final(j).items() =~= old(j).items() + opt_number_members(name@, o)); }
}

/// Pushes the member `name` when `n` is not zero.
fn push_nonzero(j: &mut Joiner, name: &str, n: u32)
    requires
        old(j).wf(),
    ensures
        final(j).wf(),
        final(j).items() == old(j).items() + nonzero_members(name@, n),
{
    if !crate::otlp::is_zero(&n) {
        push_number(j, name, n);
    }
    proof { assert(final(j).items() =~= old(j).items() + nonzero_members(name@, n)); }
}

/// Writes the JSON array of a list of key-values.
pub fn encode_attributes(kvs: &Vec<OtlpKeyValue>) -> (r: String)
    ensures
        r@ == json_attributes(kvs@),
{
    let mut items = Joiner::new();
    let n = kvs.len();
    let mut i: usize = 0;
    while i < n
        invariant
            n == kvs@.len(),
            i <= n,
            items.wf(),
            items.items() == json_key_values(key_values_view(kvs@.take(i as int))),
        decreases n - i,
    {
        let kv = &kvs[i];
        let key = json_quote(kv.key.as_str());
        let value = encode_value(&kv.value);
        let mut members = Joiner::new();
        members.push2("\"key\":", key.as_str());
        members.push2("\"value\":", value.as_str());
        proof {
            assert(members.items() =~= seq!["\"key\":"@ + key@, "\"value\":"@ + value@]);
        }
        let obj = members.into_object();
        items.push(obj.as_str());
        proof {
            let t = kvs@.take(i + 1);
            assert(t.drop_last() =~= kvs@.take(i as int));
            assert(key_values_view(t).drop_last() =~= key_values_view(kvs@.take(i as int)));
            assert(obj@ == json_key_value((kv.key@, value_view(kv.value))));
        }
        i = i + 1;
    }
    proof { assert(kvs@.take(n as int) =~= kvs@); }
    items.into_array()
}

/// Pushes the member `name` with a key-value list when the list is not empty.
fn push_attributes(j: &mut Joiner, name: &str, kvs: &Vec<OtlpKeyValue>)
    requires
        old(j).wf(),
    ensures
        final(j).wf(),
        final(j).items() == old(j).items() + attributes_members(name@, kvs@),
{
    if kvs.len() > 0 {
        let a = encode_attributes(kvs);
        j.push2(name, a.as_str());
    }
    proof { assert(final(j).items() =~= old(j).items() + attributes_members(name@, kvs@)); }
}

/// The JSON text of an OTLP `Resource`.
pub open spec fn json_resource(r: Resource) -> Seq<char> {
    json_object(seq!["\"attributes\":"@ + json_attributes(r.attributes@)])
}

/// Writes the JSON text of an OTLP `Resource`.
pub fn encode_resource(r: &Resource) -> (t: String)
    ensures
        t@ == json_resource(*r),
{
    let a = encode_attributes(&r.attributes);
    single_member_object("\"attributes\":", a.as_str())
}

/// The members of an OTLP `InstrumentationScope`.
pub open spec fn scope_members(s: Scope) -> Seq<Seq<char>> {
    seq![string_member("\"name\":"@, s.name)]
        + opt_string_members("\"version\":"@, s.version)
        + opt_string_members("\"schemaUrl\":"@, s.schema_url)
        + attributes_members("\"attributes\":"@, s.attributes@)
}

/// The JSON text of an OTLP `InstrumentationScope`.
pub open spec fn json_scope(s: Scope) -> Seq<char> {
    json_object(scope_members(s))
}

/// Writes the JSON text of an OTLP `InstrumentationScope`.
pub fn encode_scope(s: &Scope) -> (t: String)
    ensures
        t@ == json_scope(*s),
{
    let mut j = Joiner::new();
    push_string(&mut j, "\"name\":", &s.name);
    push_opt_string(&mut j, "\"version\":", &s.version);
    push_opt_string(&mut j, "\"schemaUrl\":", &s.schema_url);
    push_attributes(&mut j, "\"attributes\":", &s.attributes);
    proof { assert(j.items() =~= scope_members(*s)); }
    j.into_object()
}

/// The members of an OTLP `Status`: the message only when it is not empty.
pub open spec fn span_status_members(s: SpanStatus) -> Seq<Seq<char>> {
    seq!["\"code\":"@ + decimal(s.code as nat)] + if s.message@.len() == 0 {
        seq![]
    } else {
        seq![string_member("\"message\":"@, s.message)]
    }
}

/// The JSON text of an OTLP `Status`.
pub open spec fn json_span_status(s: SpanStatus) -> Seq<char> {
    json_object(span_status_members(s))
}

/// Writes the JSON text of an OTLP `Status`.
pub fn encode_span_status(s: &SpanStatus) -> (t: String)
    ensures
        t@ == json_span_status(*s),
{
    let mut j = Joiner::new();
    push_number(&mut j, "\"code\":", s.code);
    if !s.message.as_str().is_empty() {
        push_string(&mut j, "\"message\":", &s.message);
    }
    proof { assert(j.items() =~= span_status_members(*s)); }
    j.into_object()
}

/// The members of an OTLP `Span.Event`.
pub open spec fn span_event_members(e: SpanEvent) -> Seq<Seq<char>> {
    seq![string_member("\"timeUnixNano\":"@, e.time_unix_nano), string_member("\"name\":"@, e.name)]
        + attributes_members("\"attributes\":"@, e.attributes@)
        + nonzero_members("\"droppedAttributesCount\":"@, e.dropped_attributes_count)
}

/// The JSON text of an OTLP `Span.Event`.
pub open spec fn json_span_event(e: SpanEvent) -> Seq<char> {
    json_object(span_event_members(e))
}

/// Writes the JSON text of an OTLP `Span.Event`.
pub fn encode_span_event(e: &SpanEvent) -> (t: String)
    ensures
        t@ == json_span_event(*e),
{
    let mut j = Joiner::new();
    push_string(&mut j, "\"timeUnixNano\":", &e.time_unix_nano);
    push_string(&mut j, "\"name\":", &e.name);
    push_attributes(&mut j, "\"attributes\":", &e.attributes);
    push_nonzero(&mut j, "\"droppedAttributesCount\":", e.dropped_attributes_count);
    proof { assert(j.items() =~= span_event_members(*e)); }
    j.into_object()
}

/// The members of an OTLP `Span.Link`.
pub open spec fn span_link_members(l: SpanLink) -> Seq<Seq<char>> {
    seq![string_member("\"traceId\":"@, l.trace_id), string_member("\"spanId\":"@, l.span_id)]
        + attributes_members("\"attributes\":"@, l.attributes@)
        + nonzero_members("\"droppedAttributesCount\":"@, l.dropped_attributes_count)
        + nonzero_members("\"flags\":"@, l.flags)
        + opt_string_members("\"traceState\":"@, l.trace_state)
}

/// The JSON text of an OTLP `Span.Link`.
pub open spec fn json_span_link(l: SpanLink) -> Seq<char> {
    json_object(span_link_members(l))
}

/// Writes the JSON text of an OTLP `Span.Link`.
pub fn encode_span_link(l: &SpanLink) -> (t: String)
    ensures
        t@ == json_span_link(*l),
{
    let mut j = Joiner::new();
    push_string(&mut j, "\"traceId\":", &l.trace_id);
    push_string(&mut j, "\"spanId\":", &l.span_id);
    push_attributes(&mut j, "\"attributes\":", &l.attributes);
    push_nonzero(&mut j, "\"droppedAttributesCount\":", l.dropped_attributes_count);
    push_nonzero(&mut j, "\"flags\":", l.flags);
    push_opt_string(&mut j, "\"traceState\":", &l.trace_state);
    proof { assert(j.items() =~= span_link_members(*l)); }
    j.into_object()
}

/// The JSON array of span events.
pub open spec fn json_span_events(xs: Seq<SpanEvent>) -> Seq<char> {
    json_array(xs.map_values(|x: SpanEvent| json_span_event(x)))
}

/// Writes the JSON array of span events.
pub fn encode_span_events(xs: &Vec<SpanEvent>) -> (t: String)
    ensures
        t@ == json_span_events(xs@),
{
    let mut items = Joiner::new();
    let n = xs.len();
    let mut i: usize = 0;
    while i < n
        invariant
            n == xs@.len(),
            i <= n,
            items.wf(),
            items.items() == xs@.take(i as int).map_values(|x: SpanEvent| json_span_event(x)),
        decreases n - i,
    {
        let e = encode_span_event(&xs[i]);
        items.push(e.as_str());
        proof {
            assert(xs@.take(i + 1).map_values(|x: SpanEvent| json_span_event(x)) =~= xs@.take(i as int).map_values(
                |x: SpanEvent| json_span_event(x),
            ).push(json_span_event(xs@[i as int])));
        }
        i = i + 1;
    }
    proof { assert(xs@.take(n as int) =~= xs@); }
    items.into_array()
}

/// The JSON array of span links.
pub open spec fn json_span_links(xs: Seq<SpanLink>) -> Seq<char> {
    json_array(xs.map_values(|x: SpanLink| json_span_link(x)))
}

/// Writes the JSON array of span links.
pub fn encode_span_links(xs: &Vec<SpanLink>) -> (t: String)
    ensures
        t@ == json_span_links(xs@),
{
    let mut items = Joiner::new();
    let n = xs.len();
    let mut i: usize = 0;
    while i < n
        invariant
            n == xs@.len(),
            i <= n,
            items.wf(),
            items.items() == xs@.take(i as int).map_values(|x: SpanLink| json_span_link(x)),
        decreases n - i,
    {
        let e = encode_span_link(&xs[i]);
        items.push(e.as_str());
        proof {
            assert(xs@.take(i + 1).map_values(|x: SpanLink| json_span_link(x)) =~= xs@.take(i as int).map_values(
                |x: SpanLink| json_span_link(x),
            ).push(json_span_link(xs@[i as int])));
        }
        i = i + 1;
    }
    proof { assert(xs@.take(n as int) =~= xs@); }
    items.into_array()
}

/// The identifying members of an OTLP `Span`: ids, name, kind and times.
pub open spec fn span_head_members(s: Span) -> Seq<Seq<char>> {
    seq![string_member("\"traceId\":"@, s.trace_id), string_member("\"spanId\":"@, s.span_id)]
        + opt_string_members("\"parentSpanId\":"@, s.parent_span_id)
        + seq![
        string_member("\"name\":"@, s.name),
        "\"kind\":"@ + decimal(s.kind as nat),
        string_member("\"startTimeUnixNano\":"@, s.start_time_unix_nano),
        string_member("\"endTimeUnixNano\":"@, s.end_time_unix_nano),
    ]
}

/// The attribute, event and link members of an OTLP `Span`.
pub open spec fn span_body_members(s: Span) -> Seq<Seq<char>> {
    attributes_members("\"attributes\":"@, s.attributes@)
        + nonzero_members("\"droppedAttributesCount\":"@, s.dropped_attributes_count)
        + (if s.events@.len() == 0 {
        seq![]
    } else {
        seq!["\"events\":"@ + json_span_events(s.events@)]
    }) + nonzero_members("\"droppedEventsCount\":"@, s.dropped_events_count)
        + (if s.links@.len() == 0 {
        seq![]
    } else {
        seq!["\"links\":"@ + json_span_links(s.links@)]
    }) + nonzero_members("\"droppedLinksCount\":"@, s.dropped_links_count)
}

/// The status, flags and trace state members of an OTLP `Span`.
pub open spec fn span_tail_members(s: Span) -> Seq<Seq<char>> {
    seq!["\"status\":"@ + json_span_status(s.status)]
        + nonzero_members("\"flags\":"@, s.flags)
        + opt_string_members("\"traceState\":"@, s.trace_state)
}

/// The members of an OTLP `Span`: empty lists, zero counts, zero flags and
/// absent options are left out.
pub open spec fn span_members(s: Span) -> Seq<Seq<char>> {
    span_head_members(s) + span_body_members(s) + span_tail_members(s)
}

/// The JSON text of an OTLP `Span`.
pub open spec fn json_span(s: Span) -> Seq<char> {
    json_object(span_members(s))
}

fn push_span_head(j: &mut Joiner, s: &Span)
    requires
        old(j).wf(),
    ensures
        final(j).wf(),
        final(j).items() == old(j).items() + span_head_members(*s),
{
    push_string(j, "\"traceId\":", &s.trace_id);
    push_string(j, "\"spanId\":", &s.span_id);
    push_opt_string(j, "\"parentSpanId\":", &s.parent_span_id);
    push_string(j, "\"name\":", &s.name);
    push_number(j, "\"kind\":", s.kind);
    push_string(j, "\"startTimeUnixNano\":", &s.start_time_unix_nano);
    push_string(j, "\"endTimeUnixNano\":", &s.end_time_unix_nano);
    proof { assert(final(j).items() =~= old(j).items() + span_head_members(*s)); }
}

fn push_span_body(j: &mut Joiner, s: &Span)
    requires
        old(j).wf(),
    ensures
        final(j).wf(),
        final(j).items() == old(j).items() + span_body_members(*s),
{
    push_attributes(j, "\"attributes\":", &s.attributes);
    push_nonzero(j, "\"droppedAttributesCount\":", s.dropped_attributes_count);
    if s.events.len() > 0 {
        let e = encode_span_events(&s.events);
        j.push2("\"events\":", e.as_str());
    }
    push_nonzero(j, "\"droppedEventsCount\":", s.dropped_events_count);
    if s.links.len() > 0 {
        let l = encode_span_links(&s.links);
        j.push2("\"links\":", l.as_str());
    }
    push_nonzero(j, "\"droppedLinksCount\":", s.dropped_links_count);
    proof { assert(final(j).items() =~= old(j).items() + span_body_members(*s)); }
}

fn push_span_tail(j: &mut Joiner, s: &Span)
    requires
        old(j).wf(),
    ensures
        final(j).wf(),
        final(j).items() == old(j).items() + span_tail_members(*s),
{
    let st = encode_span_status(&s.status);
    j.push2("\"status\":", st.as_str());
    push_nonzero(j, "\"flags\":", s.flags);
    push_opt_string(j, "\"traceState\":", &s.trace_state);
    proof { assert(final(j).items() =~= old(j).items() + span_tail_members(*s)); }
}

/// Writes the JSON text of an OTLP `Span`.
pub fn encode_span(s: &Span) -> (t: String)
    ensures
        t@ == json_span(*s),
{
    let mut j = Joiner::new();
    push_span_head(&mut j, s);
    push_span_body(&mut j, s);
    push_span_tail(&mut j, s);
    proof { assert(j.items() =~= span_members(*s)); }
    j.into_object()
}

/// The JSON array of spans.
pub open spec fn json_spans(xs: Seq<Span>) -> Seq<char> {
    json_array(xs.map_values(|x: Span| json_span(x)))
}

/// Writes the JSON array of spans.
pub fn encode_spans(xs: &Vec<Span>) -> (t: String)
    ensures
        t@ == json_spans(xs@),
{
    let mut items = Joiner::new();
    let n = xs.len();
    let mut i: usize = 0;
    while i < n
        invariant
            n == xs@.len(),
            i <= n,
            items.wf(),
            items.items() == xs@.take(i as int).map_values(|x: Span| json_span(x)),
        decreases n - i,
    {
        let e = encode_span(&xs[i]);
        items.push(e.as_str());
        proof {
            assert(xs@.take(i + 1).map_values(|x: Span| json_span(x)) =~= xs@.take(i as int).map_values(
                |x: Span| json_span(x),
            ).push(json_span(xs@[i as int])));
        }
        i = i + 1;
    }
    proof { assert(xs@.take(n as int) =~= xs@); }
    items.into_array()
}

/// The JSON text of an OTLP `ScopeSpans`.
pub open spec fn json_scope_spans(s: ScopeSpans) -> Seq<char> {
    json_object(seq!["\"scope\":"@ + json_scope(s.scope), "\"spans\":"@ + json_spans(s.spans@)])
}

/// Writes the JSON text of an OTLP `ScopeSpans`.
pub fn encode_scope_spans(s: &ScopeSpans) -> (t: String)
    ensures
        t@ == json_scope_spans(*s),
{
    let mut j = Joiner::new();
    let sc = encode_scope(&s.scope);
    j.push2("\"scope\":", sc.as_str());
    let sp = encode_spans(&s.spans);
    j.push2("\"spans\":", sp.as_str());
    proof { assert(j.items() =~= seq!["\"scope\":"@ + sc@, "\"spans\":"@ + sp@]); }
    j.into_object()
}

/// The JSON array of scope spans.
pub open spec fn json_scope_spans_list(xs: Seq<ScopeSpans>) -> Seq<char> {
    json_array(xs.map_values(|x: ScopeSpans| json_scope_spans(x)))
}

/// Writes the JSON array of scope spans.
pub fn encode_scope_spans_list(xs: &Vec<ScopeSpans>) -> (t: String)
    ensures
        t@ == json_scope_spans_list(xs@),
{
    let mut items = Joiner::new();
    let n = xs.len();
    let mut i: usize = 0;
    while i < n
        invariant
            n == xs@.len(),
            i <= n,
            items.wf(),
            items.items() == xs@.take(i as int).map_values(|x: ScopeSpans| json_scope_spans(x)),
        decreases n - i,
    {
        let e = encode_scope_spans(&xs[i]);
        items.push(e.as_str());
        proof {
            assert(xs@.take(i + 1).map_values(|x: ScopeSpans| json_scope_spans(x)) =~= xs@.take(i as int).map_values(
                |x: ScopeSpans| json_scope_spans(x),
            ).push(json_scope_spans(xs@[i as int])));
        }
        i = i + 1;
    }
    proof { assert(xs@.take(n as int) =~= xs@); }
    items.into_array()
}

/// The JSON text of an OTLP `ResourceSpans`.
pub open spec fn json_resource_spans(r: ResourceSpans) -> Seq<char> {
    json_object(
        seq!["\"resource\":"@ + json_resource(r.resource), "\"scopeSpans\":"@ + json_scope_spans_list(r.scope_spans@)],
    )
}

/// Writes the JSON text of an OTLP `ResourceSpans`.
pub fn encode_resource_spans(r: &ResourceSpans) -> (t: String)
    ensures
        t@ == json_resource_spans(*r),
{
    let mut j = Joiner::new();
    let rs = encode_resource(&r.resource);
    j.push2("\"resource\":", rs.as_str());
    let ss = encode_scope_spans_list(&r.scope_spans);
    j.push2("\"scopeSpans\":", ss.as_str());
    proof { assert(j.items() =~= seq!["\"resource\":"@ + rs@, "\"scopeSpans\":"@ + ss@]); }
    j.into_object()
}

/// The JSON array of resource spans.
pub open spec fn json_resource_spans_list(xs: Seq<ResourceSpans>) -> Seq<char> {
    json_array(xs.map_values(|x: ResourceSpans| json_resource_spans(x)))
}

/// Writes the JSON array of resource spans.
#[verifier::rlimit(40)]
pub fn encode_resource_spans_list(xs: &Vec<ResourceSpans>) -> (t: String)
    ensures
        t@ == json_resource_spans_list(xs@),
{
    let mut items = Joiner::new();
    let n = xs.len();
    let mut i: usize = 0;
    while i < n
        invariant
            n == xs@.len(),
            i <= n,
            items.wf(),
            items.items() == xs@.take(i as int).map_values(|x: ResourceSpans| json_resource_spans(x)),
        decreases n - i,
    {
        let e = encode_resource_spans(&xs[i]);
        items.push(e.as_str());
        proof {
            assert(xs@.take(i + 1).map_values(|x: ResourceSpans| json_resource_spans(x)) =~= xs@.take(i as int).map_values(
                |x: ResourceSpans| json_resource_spans(x),
            ).push(json_resource_spans(xs@[i as int])));
        }
        i = i + 1;
    }
    proof { assert(xs@.take(n as int) =~= xs@); }
    items.into_array()
}

/// The JSON text of an OTLP `ExportTraceServiceRequest`.
pub open spec fn json_trace_request(q: ExportTraceServiceRequest) -> Seq<char> {
    json_object(seq!["\"resourceSpans\":"@ + json_resource_spans_list(q.resource_spans@)])
}

/// Writes the JSON text of an OTLP `ExportTraceServiceRequest`.
pub fn encode_trace_request(q: &ExportTraceServiceRequest) -> (t: String)
    ensures
        t@ == json_trace_request(*q),
{
    let a = encode_resource_spans_list(&q.resource_spans);
    single_member_object("\"resourceSpans\":", a.as_str())
}

/// The members of an OTLP `LogRecord`: absent options and empty attributes are left out.
pub open spec fn log_record_members(r: LogRecord) -> Seq<Seq<char>> {
    opt_string_members("\"timeUnixNano\":"@, r.time_unix_nano)
        + opt_string_members("\"observedTimeUnixNano\":"@, r.observed_time_unix_nano)
        + opt_number_members("\"severityNumber\":"@, r.severity_number)
        + opt_string_members("\"severityText\":"@, r.severity_text)
        + (match r.body {
        Some(b) => seq!["\"body\":"@ + json_value(value_view(b))],
        None => seq![],
    }) + attributes_members("\"attributes\":"@, r.attributes@)
        + opt_string_members("\"traceId\":"@, r.trace_id)
        + opt_string_members("\"spanId\":"@, r.span_id)
        + opt_number_members("\"flags\":"@, r.flags)
}

/// The JSON text of an OTLP `LogRecord`.
pub open spec fn json_log_record(r: LogRecord) -> Seq<char> {
    json_object(log_record_members(r))
}

/// Writes the JSON text of an OTLP `LogRecord`.
pub fn encode_log_record(r: &LogRecord) -> (t: String)
    ensures
        t@ == json_log_record(*r),
{
    let mut j = Joiner::new();
    push_opt_string(&mut j, "\"timeUnixNano\":", &r.time_unix_nano);
    push_opt_string(&mut j, "\"observedTimeUnixNano\":", &r.observed_time_unix_nano);
    push_opt_number(&mut j, "\"severityNumber\":", r.severity_number);
    push_opt_string(&mut j, "\"severityText\":", &r.severity_text);
    match &r.body {
        Some(b) => {
            let bt = encode_value(b);
            j.push2("\"body\":", bt.as_str());
        },
        None => {},
    }
    push_attributes(&mut j, "\"attributes\":", &r.attributes);
    push_opt_string(&mut j, "\"traceId\":", &r.trace_id);
    push_opt_string(&mut j, "\"spanId\":", &r.span_id);
    push_opt_number(&mut j, "\"flags\":", r.flags);
    proof { assert(j.items() =~= log_record_members(*r)); }
    j.into_object()
}

/// The JSON array of log records.
pub open spec fn json_log_records(xs: Seq<LogRecord>) -> Seq<char> {
    json_array(xs.map_values(|x: LogRecord| json_log_record(x)))
}

/// Writes the JSON array of log records.
pub fn encode_log_records(xs: &Vec<LogRecord>) -> (t: String)
    ensures
        t@ == json_log_records(xs@),
{
    let mut items = Joiner::new();
    let n = xs.len();
    let mut i: usize = 0;
    while i < n
        invariant
            n == xs@.len(),
            i <= n,
            items.wf(),
            items.items() == xs@.take(i as int).map_values(|x: LogRecord| json_log_record(x)),
        decreases n - i,
    {
        let e = encode_log_record(&xs[i]);
        items.push(e.as_str());
        proof {
            assert(xs@.take(i + 1).map_values(|x: LogRecord| json_log_record(x)) =~= xs@.take(i as int).map_values(
                |x: LogRecord| json_log_record(x),
            ).push(json_log_record(xs@[i as int])));
        }
        i = i + 1;
    }
    proof { assert(xs@.take(n as int) =~= xs@); }
    items.into_array()
}

/// The JSON text of an OTLP `ScopeLogs`.
pub open spec fn json_scope_logs(s: ScopeLogs) -> Seq<char> {
    json_object(seq!["\"scope\":"@ + json_scope(s.scope), "\"logRecords\":"@ + json_log_records(s.log_records@)])
}

/// Writes the JSON text of an OTLP `ScopeLogs`.
pub fn encode_scope_logs(s: &ScopeLogs) -> (t: String)
    ensures
        t@ == json_scope_logs(*s),
{
    let mut j = Joiner::new();
    let sc = encode_scope(&s.scope);
    j.push2("\"scope\":", sc.as_str());
    let lr = encode_log_records(&s.log_records);
    j.push2("\"logRecords\":", lr.as_str());
    proof { assert(j.items() =~= seq!["\"scope\":"@ + sc@, "\"logRecords\":"@ + lr@]); }
    j.into_object()
}

/// The JSON array of scope logs.
pub open spec fn json_scope_logs_list(xs: Seq<ScopeLogs>) -> Seq<char> {
    json_array(xs.map_values(|x: ScopeLogs| json_scope_logs(x)))
}

/// Writes the JSON array of scope logs.
pub fn encode_scope_logs_list(xs: &Vec<ScopeLogs>) -> (t: String)
    ensures
        t@ == json_scope_logs_list(xs@),
{
    let mut items = Joiner::new();
    let n = xs.len();
    let mut i: usize = 0;
    while i < n
        invariant
            n == xs@.len(),
            i <= n,
            items.wf(),
            items.items() == xs@.take(i as int).map_values(|x: ScopeLogs| json_scope_logs(x)),
        decreases n - i,
    {
        let e = encode_scope_logs(&xs[i]);
        items.push(e.as_str());
        proof {
            assert(xs@.take(i + 1).map_values(|x: ScopeLogs| json_scope_logs(x)) =~= xs@.take(i as int).map_values(
                |x: ScopeLogs| json_scope_logs(x),
            ).push(json_scope_logs(xs@[i as int])));
        }
        i = i + 1;
    }
    proof { assert(xs@.take(n as int) =~= xs@); }
    items.into_array()
}

/// The JSON text of an OTLP `ResourceLogs`.
pub open spec fn json_resource_logs(r: ResourceLogs) -> Seq<char> {
    json_object(
        seq!["\"resource\":"@ + json_resource(r.resource), "\"scopeLogs\":"@ + json_scope_logs_list(r.scope_logs@)],
    )
}

/// Writes the JSON text of an OTLP `ResourceLogs`.
pub fn encode_resource_logs(r: &ResourceLogs) -> (t: String)
    ensures
        t@ == json_resource_logs(*r),
{
    let mut j = Joiner::new();
    let rs = encode_resource(&r.resource);
    j.push2("\"resource\":", rs.as_str());
    let sl = encode_scope_logs_list(&r.scope_logs);
    j.push2("\"scopeLogs\":", sl.as_str());
    proof { assert(j.items() =~= seq!["\"resource\":"@ + rs@, "\"scopeLogs\":"@ + sl@]); }
    j.into_object()
}

/// The JSON array of resource logs.
pub open spec fn json_resource_logs_list(xs: Seq<ResourceLogs>) -> Seq<char> {
    json_array(xs.map_values(|x: ResourceLogs| json_resource_logs(x)))
}

/// Writes the JSON array of resource logs.
pub fn encode_resource_logs_list(xs: &Vec<ResourceLogs>) -> (t: String)
    ensures
        t@ == json_resource_logs_list(xs@),
{
    let mut items = Joiner::new();
    let n = xs.len();
    let mut i: usize = 0;
    while i < n
        invariant
            n == xs@.len(),
            i <= n,
            items.wf(),
            items.items() == xs@.take(i as int).map_values(|x: ResourceLogs| json_resource_logs(x)),
        decreases n - i,
    {
        let e = encode_resource_logs(&xs[i]);
        items.push(e.as_str());
        proof {
            assert(xs@.take(i + 1).map_values(|x: ResourceLogs| json_resource_logs(x)) =~= xs@.take(i as int).map_values(
                |x: ResourceLogs| json_resource_logs(x),
            ).push(json_resource_logs(xs@[i as int])));
        }
        i = i + 1;
    }
    proof { assert(xs@.take(n as int) =~= xs@); }
    items.into_array()
}

/// The JSON text of an OTLP `ExportLogsServiceRequest`.
pub open spec fn json_logs_request(q: ExportLogsServiceRequest) -> Seq<char> {
    json_object(seq!["\"resourceLogs\":"@ + json_resource_logs_list(q.resource_logs@)])
}

/// Writes the JSON text of an OTLP `ExportLogsServiceRequest`.
pub fn encode_logs_request(q: &ExportLogsServiceRequest) -> (t: String)
    ensures
        t@ == json_logs_request(*q),
{
    let a = encode_resource_logs_list(&q.resource_logs);
    single_member_object("\"resourceLogs\":", a.as_str())
}

} // verus!
