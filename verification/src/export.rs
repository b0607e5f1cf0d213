//! Exporter logic: grouping a batch by instrumentation scope and building
//! the OTLP export request and its JSON line.

use vstd::prelude::*;

use crate::convert::{
    log_record_is_otlp_of, log_record_to_otlp, otlp_of_attributes, resource_to_otlp,
    scope_is_otlp_of, scope_to_otlp, span_data_to_otlp, span_is_otlp_of,
};
use crate::json::{encode_logs_request, encode_trace_request, json_logs_request, json_trace_request};
use crate::model::{
    attributes_view, compared_bits, doubles_view, is_nan_bits, same_scope, scope_has_nan, scope_id,
    scope_key, value_has_nan, value_key, values_of_key, Array, Double, InstrumentationScope, KeyValue,
    LogBatchEntry, ScopeId, ScopeView, SpanData, Value, ValueKey, ValueView,
};
use crate::otlp::{
    key_values_view, ExportLogsServiceRequest, ExportTraceServiceRequest, LogRecord, ResourceLogs,
    ResourceSpans, ScopeLogs, ScopeSpans, Span,
};

verus! {

fn bools_eq(a: &Vec<bool>, b: &Vec<bool>) -> (r: bool)
    ensures
        r == (a@ == b@),
{
    if a.len() != b.len() {
        return false;
    }
    let mut i: usize = 0;
    while i < a.len()
        invariant
            a@.len() == b@.len(),
            i <= a@.len(),
            forall|k: int| 0 <= k < i ==> a@[k] == b@[k],
        decreases a@.len() - i,
    {
        if a[i] != b[i] {
            return false;
        }
        i = i + 1;
    }
    proof { assert(a@ =~= b@); }
    true
}

fn i64s_eq(a: &Vec<i64>, b: &Vec<i64>) -> (r: bool)
    ensures
        r == (a@ == b@),
{
    if a.len() != b.len() {
        return false;
    }
    let mut i: usize = 0;
    while i < a.len()
        invariant
            a@.len() == b@.len(),
            i <= a@.len(),
            forall|k: int| 0 <= k < i ==> a@[k] == b@[k],
        decreases a@.len() - i,
    {
        if a[i] != b[i] {
            return false;
        }
        i = i + 1;
    }
    proof { assert(a@ =~= b@); }
    true
}

fn strings_eq(a: &Vec<String>, b: &Vec<String>) -> (r: bool)
    ensures
        r == (a.deep_view() == b.deep_view()),
{
    if a.len() != b.len() {
        proof { assert(a.deep_view().len() != b.deep_view().len()); }
        return false;
    }
    let mut i: usize = 0;
    while i < a.len()
        invariant
            a@.len() == b@.len(),
            i <= a@.len(),
            forall|k: int| 0 <= k < i ==> a@[k]@ == b@[k]@,
        decreases a@.len() - i,
    {
        if a[i] != b[i] {
            proof { assert(a.deep_view()[i as int] != b.deep_view()[i as int]); }
            return false;
        }
        i = i + 1;
    }
    proof { assert(a.deep_view() =~= b.deep_view()); }
    true
}

fn is_nan(b: u64) -> (r: bool)
    ensures
        r == is_nan_bits(b),
{
    (b >> 52u64) & 0x7ffu64 == 0x7ffu64 && b & 0xf_ffff_ffff_ffffu64 != 0
}

fn compare_bits(b: u64) -> (r: u64)
    ensures
        r == compared_bits(b),
{
    if b == 0x8000_0000_0000_0000u64 {
        0
    } else {
        b
    }
}

/// The bits by which a list of doubles compares.
pub open spec fn doubles_key(ds: Seq<(u64, Seq<char>)>) -> Seq<u64> {
    ds.map_values(|d: (u64, Seq<char>)| compared_bits(d.0))
}

fn doubles_eq(a: &Vec<Double>, b: &Vec<Double>) -> (r: bool)
    ensures
        r == (doubles_key(doubles_view(a@)) == doubles_key(doubles_view(b@))),
{
    let ghost ka = doubles_key(doubles_view(a@));
    let ghost kb = doubles_key(doubles_view(b@));
    if a.len() != b.len() {
        proof { assert(ka.len() != kb.len()); }
        return false;
    }
    let mut i: usize = 0;
    while i < a.len()
        invariant
            a@.len() == b@.len(),
            i <= a@.len(),
            ka == doubles_key(doubles_view(a@)),
            kb == doubles_key(doubles_view(b@)),
            forall|k: int| 0 <= k < i ==> ka[k] == kb[k],
        decreases a@.len() - i,
    {
        if compare_bits(a[i].bits) != compare_bits(b[i].bits) {
            proof { assert(ka[i as int] != kb[i as int]); }
            return false;
        }
        i = i + 1;
    }
    proof { assert(ka =~= kb); }
    true
}

fn doubles_have_nan(ds: &Vec<Double>) -> (r: bool)
    ensures
        r == (exists|i: int| 0 <= i < doubles_view(ds@).len() && is_nan_bits(#[trigger] doubles_view(ds@)[i].0)),
{
    let ghost v = doubles_view(ds@);
    let mut i: usize = 0;
    while i < ds.len()
        invariant
            i <= ds@.len(),
            v == doubles_view(ds@),
            forall|k: int| 0 <= k < i ==> !is_nan_bits(#[trigger] v[k].0),
        decreases ds@.len() - i,
    {
        if is_nan(ds[i].bits) {
            proof { assert(is_nan_bits(v[i as int].0)); }
            return true;
        }
        i = i + 1;
    }
    false
}

/// Whether an attribute value holds a NaN.
fn has_nan(v: &Value) -> (r: bool)
    ensures
        r == value_has_nan(v@),
{
    match v {
        Value::F64(d) => is_nan(d.bits),
        Value::Array(Array::F64(ds)) => doubles_have_nan(ds),
        _ => false,
    }
}

/// Whether two attribute values have the same key.
fn value_eq(a: &Value, b: &Value) -> (r: bool)
    ensures
        r == (value_key(a@) == value_key(b@)),
{
    match (a, b) {
        (Value::Bool(x), Value::Bool(y)) => *x == *y,
        (Value::I64(x), Value::I64(y)) => *x == *y,
        (Value::F64(x), Value::F64(y)) => compare_bits(x.bits) == compare_bits(y.bits),
        (Value::String(x), Value::String(y)) => *x == *y,
        (Value::Array(Array::Bool(x)), Value::Array(Array::Bool(y))) => bools_eq(x, y),
        (Value::Array(Array::I64(x)), Value::Array(Array::I64(y))) => i64s_eq(x, y),
        (Value::Array(Array::F64(x)), Value::Array(Array::F64(y))) => doubles_eq(x, y),
        (Value::Array(Array::String(x)), Value::Array(Array::String(y))) => strings_eq(x, y),
        _ => false,
    }
}

fn opt_string_eq(a: &Option<String>, b: &Option<String>) -> (r: bool)
    ensures
        r == (a.deep_view() == b.deep_view()),
{
    match (a, b) {
        (Some(x), Some(y)) => *x == *y,
        (None, None) => true,
        _ => false,
    }
}

fn values_with_key<'a>(attrs: &'a Vec<KeyValue>, key: &String) -> (r: Vec<&'a Value>)
    ensures
        r@.map_values(|v: &Value| value_key(v@)) == values_of_key(attributes_view(attrs@), key@),
{
    let mut r: Vec<&Value> = Vec::new();
    let mut i: usize = 0;
    while i < attrs.len()
        invariant
            i <= attrs@.len(),
            r@.map_values(|v: &Value| value_key(v@)) == values_of_key(attributes_view(attrs@.take(i as int)), key@),
        decreases attrs@.len() - i,
    {
        let ghost before = r@;
        let ghost t = attributes_view(attrs@.take(i + 1));
        proof {
            assert(attrs@.take(i + 1).drop_last() =~= attrs@.take(i as int));
            assert(t.drop_last() =~= attributes_view(attrs@.take(i as int)));
            assert(t.last() == attrs@[i as int]@);
        }
        if attrs[i].key == *key {
            r.push(&attrs[i].value);
            proof {
                assert(r@.map_values(|v: &Value| value_key(v@)) =~= before.map_values(|v: &Value| value_key(v@)).push(value_key(attrs@[i as int].value@)));
            }
        }
        i = i + 1;
    }
    proof { assert(attrs@.take(attrs@.len() as int) =~= attrs@); }
    r
}

fn value_refs_eq(a: &Vec<&Value>, b: &Vec<&Value>) -> (r: bool)
    ensures
        r == (a@.map_values(|v: &Value| value_key(v@)) == b@.map_values(|v: &Value| value_key(v@))),
{
    let ghost va = a@.map_values(|v: &Value| value_key(v@));
    let ghost vb = b@.map_values(|v: &Value| value_key(v@));
    if a.len() != b.len() {
        proof { assert(va.len() != vb.len()); }
        return false;
    }
    let mut i: usize = 0;
    while i < a.len()
        invariant
            a@.len() == b@.len(),
            i <= a@.len(),
            va == a@.map_values(|v: &Value| value_key(v@)),
            vb == b@.map_values(|v: &Value| value_key(v@)),
            forall|k: int| 0 <= k < i ==> va[k] == vb[k],
        decreases a@.len() - i,
    {
        if !value_eq(a[i], b[i]) {
            proof { assert(va[i as int] != vb[i as int]); }
            return false;
        }
        i = i + 1;
    }
    proof { assert(va =~= vb); }
    true
}

/// The two attribute lists give the key `key` the same values, in order.
fn key_values_match(a: &Vec<KeyValue>, b: &Vec<KeyValue>, key: &String) -> (r: bool)
    ensures
        r == (values_of_key(attributes_view(a@), key@) == values_of_key(attributes_view(b@), key@)),
{
    let va = values_with_key(a, key);
    let vb = values_with_key(b, key);
    value_refs_eq(&va, &vb)
}

/// A key that no attribute has is given no value.
proof fn lemma_absent_key(attrs: Seq<(Seq<char>, ValueView)>, k: Seq<char>)
    requires
        forall|i: int| 0 <= i < attrs.len() ==> #[trigger] attrs[i].0 != k,
    ensures
        values_of_key(attrs, k) == Seq::<ValueKey>::empty(),
    decreases attrs.len(),
{
    if attrs.len() > 0 {
        let p = attrs.drop_last();
        assert forall|i: int| 0 <= i < p.len() implies #[trigger] p[i].0 != k by {
            assert(p[i] == attrs[i]);
        }
        lemma_absent_key(p, k);
        assert(attrs[attrs.len() - 1].0 != k);
    }
}

/// Whether two attribute lists give every key the same values, in order.
fn attributes_match(a: &Vec<KeyValue>, b: &Vec<KeyValue>) -> (r: bool)
    ensures
        r == (forall|k: Seq<char>|
            #[trigger] values_of_key(attributes_view(a@), k) == values_of_key(attributes_view(b@), k)),
{
    let ghost va = attributes_view(a@);
    let ghost vb = attributes_view(b@);
    let mut i: usize = 0;
    while i < a.len()
        invariant
            i <= a@.len(),
            va == attributes_view(a@),
            vb == attributes_view(b@),
            forall|t: int| 0 <= t < i ==> values_of_key(va, #[trigger] va[t].0) == values_of_key(vb, va[t].0),
        decreases a@.len() - i,
    {
        if !key_values_match(a, b, &a[i].key) {
            proof { assert(va[i as int].0 == a@[i as int].key@); }
            return false;
        }
        proof { assert(va[i as int].0 == a@[i as int].key@); }
        i = i + 1;
    }
    let mut j: usize = 0;
    while j < b.len()
        invariant
            j <= b@.len(),
            va == attributes_view(a@),
            vb == attributes_view(b@),
            forall|t: int| 0 <= t < a@.len() ==> values_of_key(va, #[trigger] va[t].0) == values_of_key(vb, va[t].0),
            forall|t: int| 0 <= t < j ==> values_of_key(va, #[trigger] vb[t].0) == values_of_key(vb, vb[t].0),
        decreases b@.len() - j,
    {
        if !key_values_match(a, b, &b[j].key) {
            proof { assert(vb[j as int].0 == b@[j as int].key@); }
            return false;
        }
        proof { assert(vb[j as int].0 == b@[j as int].key@); }
        j = j + 1;
    }
    proof {
        assert forall|k: Seq<char>| #[trigger] values_of_key(va, k) == values_of_key(vb, k) by {
            if exists|t: int| 0 <= t < va.len() && va[t].0 == k {
                let t = choose|t: int| 0 <= t < va.len() && va[t].0 == k;
                assert(values_of_key(va, va[t].0) == values_of_key(vb, va[t].0));
            } else if exists|t: int| 0 <= t < vb.len() && vb[t].0 == k {
                let t = choose|t: int| 0 <= t < vb.len() && vb[t].0 == k;
                assert(values_of_key(va, vb[t].0) == values_of_key(vb, vb[t].0));
            } else {
                lemma_absent_key(va, k);
                lemma_absent_key(vb, k);
            }
        }
    }
    true
}

/// Whether some attribute of a scope holds a NaN.
fn scope_nan(s: &InstrumentationScope) -> (r: bool)
    ensures
        r == scope_has_nan(s@),
{
    let ghost v = attributes_view(s.attributes@);
    let mut i: usize = 0;
    while i < s.attributes.len()
        invariant
            i <= s.attributes@.len(),
            v == attributes_view(s.attributes@),
            forall|k: int| 0 <= k < i ==> !value_has_nan(#[trigger] v[k].1),
        decreases s.attributes@.len() - i,
    {
        if has_nan(&s.attributes[i].value) {
            proof {
                assert(s@.attributes[i as int] == s.attributes@[i as int]@);
                assert(value_has_nan(s@.attributes[i as int].1));
            }
            return true;
        }
        i = i + 1;
    }
    false
}

/// Whether two instrumentation scopes are the same scope, as the SDK
/// compares them: same name, version and schema URL, and the same values
/// for each attribute key (doubles compared as numbers, so a scope with a
/// NaN attribute equals no scope).
pub fn scope_eq(a: &InstrumentationScope, b: &InstrumentationScope) -> (r: bool)
    ensures
        r == same_scope(a@, b@),
{
    if scope_nan(a) || scope_nan(b) {
        return false;
    }
    let r = a.name == b.name && opt_string_eq(&a.version, &b.version) && opt_string_eq(
        &a.schema_url,
        &b.schema_url,
    ) && attributes_match(&a.attributes, &b.attributes);
    proof {
        let ka = scope_key(a@);
        let kb = scope_key(b@);
        if r {
            assert(ka.attributes =~= kb.attributes);
        } else if ka == kb {
            assert forall|k: Seq<char>|
                #[trigger] values_of_key(attributes_view(a.attributes@), k) == values_of_key(
                    attributes_view(b.attributes@),
                    k,
                ) by {
                assert(ka.attributes[k] == kb.attributes[k]);
            }
        }
    }
    r
}

/// Items at different positions have equal scope identities exactly when
/// their scopes are the same scope.
proof fn lemma_scope_id_eq(a: ScopeView, b: ScopeView, l: int, j: int)
    requires
        l != j,
    ensures
        (scope_id(a, l) == scope_id(b, j)) == same_scope(a, b),
{
}

/// No earlier item has the same scope as item `i`.
pub open spec fn is_first_of_scope(sv: Seq<ScopeId>, i: int) -> bool {
    forall|j: int| 0 <= j < i ==> sv[j] != sv[i]
}

/// The indices below `n` of the items that are the first of their scope, ascending.
pub open spec fn scope_leaders(sv: Seq<ScopeId>, n: int) -> Seq<int>
    decreases n,
{
    if n <= 0 {
        seq![]
    } else {
        scope_leaders(sv, n - 1) + if is_first_of_scope(sv, n - 1) {
            seq![n - 1]
        } else {
            seq![]
        }
    }
}

/// The indices below `n` of the items whose scope is `v`, ascending.
pub open spec fn scope_members(sv: Seq<ScopeId>, v: ScopeId, n: int) -> Seq<int>
    decreases n,
{
    if n <= 0 {
        seq![]
    } else {
        scope_members(sv, v, n - 1) + if sv[n - 1] == v {
            seq![n - 1]
        } else {
            seq![]
        }
    }
}

/// Some group leader has the scope of item `j`.
pub open spec fn has_leader(sv: Seq<ScopeId>, leaders: Seq<usize>, j: int) -> bool {
    exists|t: int| 0 <= t < leaders.len() && sv[#[trigger] leaders[t] as int] == sv[j]
}

/// The indices as integers.
pub open spec fn as_ints(s: Seq<usize>) -> Seq<int> {
    s.map_values(|x: usize| x as int)
}

/// A batch split by scope.
#[derive(Debug)]
pub struct ScopeGroups {
    /// For each group, the index of its first item; the group's scope is that item's scope.
    pub leaders: Vec<usize>,
    /// For each group, the indices of its items, ascending.
    pub members: Vec<Vec<usize>>,
}

/// `g` splits the first `n` items of a batch whose item scopes are `sv` into
/// one group per distinct scope, in the order in which the scopes first
/// appear; each group lists, in batch order, the items of its scope.
pub open spec fn groups_upto(sv: Seq<ScopeId>, n: int, leaders: Seq<usize>, members: Seq<Vec<usize>>) -> bool {
    &&& as_ints(leaders) == scope_leaders(sv, n)
    &&& members.len() == leaders.len()
    &&& forall|k: int|
        0 <= k < leaders.len() ==> as_ints(#[trigger] members[k]@) == scope_members(
            sv,
            sv[leaders[k] as int],
            n,
        )
}

/// `g` is the split of the whole batch by scope.
pub open spec fn groups_by_scope(sv: Seq<ScopeId>, g: ScopeGroups) -> bool {
    groups_upto(sv, sv.len() as int, g.leaders@, g.members@)
}

/// The scope identities of a batch, item by item (`scope_id`).
pub open spec fn scope_keys(scopes: Seq<&InstrumentationScope>) -> Seq<ScopeId> {
    Seq::new(scopes.len(), |j: int| scope_id(scopes[j]@, j))
}

/// Group the items of a batch by instrumentation scope, keeping the order in
/// which scopes first appear and the batch order within each group.
pub fn group_by_scope(scopes: &Vec<&InstrumentationScope>) -> (g: ScopeGroups)
    ensures
        groups_by_scope(scope_keys(scopes@), g),
{
    let ghost sv = scope_keys(scopes@);
    let n = scopes.len();
    let mut leaders: Vec<usize> = Vec::new();
    let mut members: Vec<Vec<usize>> = Vec::new();
    let mut i: usize = 0;
    proof { assert(as_ints(leaders@) =~= scope_leaders(sv, 0)); }
    while i < n
        invariant
            n == scopes@.len(),
            sv == scope_keys(scopes@),
            i <= n,
            groups_upto(sv, i as int, leaders@, members@),
            forall|k: int| 0 <= k < leaders@.len() ==> #[trigger] leaders@[k] < i,
            forall|k: int| 0 <= k < leaders@.len() ==> is_first_of_scope(sv, #[trigger] leaders@[k] as int),
            forall|j: int| 0 <= j < i ==> #[trigger] has_leader(sv, leaders@, j),
            forall|k1: int, k2: int|
                0 <= k1 < k2 < leaders@.len() ==> #[trigger] leaders@[k1] < #[trigger] leaders@[k2],
        decreases n - i,
    {
        let mut k: usize = 0;
        let mut found = false;
        while k < leaders.len()
            invariant
                n == scopes@.len(),
                sv == scope_keys(scopes@),
                i < n,
                k <= leaders@.len(),
                forall|t: int| 0 <= t < leaders@.len() ==> #[trigger] leaders@[t] < i,
                !found ==> forall|t: int| 0 <= t < k ==> sv[#[trigger] leaders@[t] as int] != sv[i as int],
                found ==> k < leaders@.len() && sv[leaders@[k as int] as int] == sv[i as int],
            ensures
                found ==> k < leaders@.len() && sv[leaders@[k as int] as int] == sv[i as int],
                !found ==> forall|t: int| 0 <= t < leaders@.len() ==> sv[#[trigger] leaders@[t] as int] != sv[i as int],
            decreases leaders@.len() - k + if found { 0int } else { 1int },
        {
            let same = scope_eq(scopes[leaders[k]], scopes[i]);
            proof {
                lemma_scope_id_eq(scopes@[leaders@[k as int] as int]@, scopes@[i as int]@, leaders@[k as int] as int, i as int);
            }
            if same {
                found = true;
                break;
            }
            k = k + 1;
        }
        let ghost old_leaders = leaders@;
        let ghost old_members = members@;
        if found {
            let mut m: Vec<usize> = Vec::new();
            members.set_and_swap(k, &mut m);
            m.push(i);
            members.set_and_swap(k, &mut m);
            proof {
                let l = old_leaders[k as int] as int;
                assert(!is_first_of_scope(sv, i as int)) by {
                    assert(sv[l] == sv[i as int]);
                }
                assert(scope_leaders(sv, i + 1) == scope_leaders(sv, i as int) + seq![]);
                assert(as_ints(leaders@) =~= scope_leaders(sv, i + 1));
                assert forall|t: int| 0 <= t < leaders@.len() implies as_ints(#[trigger] members@[t]@)
                    == scope_members(sv, sv[leaders@[t] as int], i + 1) by {
                    let lt = leaders@[t] as int;
                    if t == k {
                        assert(members@[t]@ == old_members[t]@.push(i));
                        assert(as_ints(members@[t]@) =~= as_ints(old_members[t]@).push(i as int));
                    } else {
                        assert(members@[t] == old_members[t]);
                        if sv[lt] == sv[i as int] {
                            if t < k {
                                assert(leaders@[t] < leaders@[k as int]);
                                assert(is_first_of_scope(sv, l));
                            } else {
                                assert(leaders@[k as int] < leaders@[t]);
                                assert(is_first_of_scope(sv, lt));
                            }
                        }
                        assert(scope_members(sv, sv[lt], i + 1) =~= scope_members(sv, sv[lt], i as int));
                    }
                }
                assert forall|j: int| 0 <= j < i + 1 implies #[trigger] has_leader(sv, leaders@, j) by {
                    if j == i {
                        assert(sv[leaders@[k as int] as int] == sv[j]);
                    } else {
                        assert(has_leader(sv, old_leaders, j));
                    }
                }
                assert(members@.len() == leaders@.len());
                assert(groups_upto(sv, i + 1, leaders@, members@));
            }
        } else {
            leaders.push(i);
            let mut m: Vec<usize> = Vec::new();
            m.push(i);
            members.push(m);
            proof {
                assert(is_first_of_scope(sv, i as int)) by {
                    assert forall|j: int| 0 <= j < i implies sv[j] != sv[i as int] by {
                        assert(has_leader(sv, old_leaders, j));
                        let t = choose|t: int| 0 <= t < old_leaders.len() && sv[#[trigger] old_leaders[t] as int] == sv[j];
                        assert(sv[old_leaders[t] as int] != sv[i as int]);
                    }
                }
                assert(scope_leaders(sv, i + 1) == scope_leaders(sv, i as int) + seq![i as int]);
                assert(as_ints(leaders@) =~= as_ints(old_leaders).push(i as int));
                assert(as_ints(leaders@) =~= scope_leaders(sv, i + 1));
                lemma_no_members_before_first(sv, i as int, i as int);
                assert forall|t: int| 0 <= t < leaders@.len() implies as_ints(#[trigger] members@[t]@)
                    == scope_members(sv, sv[leaders@[t] as int], i + 1) by {
                    let lt = leaders@[t] as int;
                    if t == old_leaders.len() {
                        assert(as_ints(members@[t]@) =~= seq![i as int]);
                        assert(scope_members(sv, sv[i as int], i as int) =~= seq![]);
                        assert(scope_members(sv, sv[lt], i + 1) =~= seq![i as int]);
                    } else {
                        assert(members@[t] == old_members[t]);
                        assert(sv[lt] != sv[i as int]);
                        assert(scope_members(sv, sv[lt], i + 1) =~= scope_members(sv, sv[lt], i as int));
                    }
                }
                assert forall|j: int| 0 <= j < i + 1 implies #[trigger] has_leader(sv, leaders@, j) by {
                    if j == i {
                        assert(sv[leaders@[old_leaders.len() as int] as int] == sv[j]);
                    } else {
                        assert(has_leader(sv, old_leaders, j));
                        let t = choose|t: int| 0 <= t < old_leaders.len() && sv[#[trigger] old_leaders[t] as int] == sv[j];
                        assert(leaders@[t] == old_leaders[t]);
                    }
                }
                assert(members@.len() == leaders@.len());
                assert(groups_upto(sv, i + 1, leaders@, members@));
            }
        }
        i = i + 1;
    }
    ScopeGroups { leaders, members }
}

/// No item before `n` has the scope of the first item `i` of its scope (for `n <= i`).
proof fn lemma_no_members_before_first(sv: Seq<ScopeId>, i: int, n: int)
    requires
        0 <= i < sv.len(),
        n <= i,
        is_first_of_scope(sv, i),
    ensures
        scope_members(sv, sv[i], n) == Seq::<int>::empty(),
    decreases n,
{
    if n > 0 {
        lemma_no_members_before_first(sv, i, n - 1);
        assert(sv[n - 1] != sv[i]);
        assert(scope_members(sv, sv[i], n) =~= Seq::<int>::empty());
    }
}

/// The members of a scope are in range and have that scope.
pub(crate) proof fn lemma_scope_members(sv: Seq<ScopeId>, v: ScopeId, n: int)
    requires
        0 <= n <= sv.len(),
    ensures
        forall|t: int|
            0 <= t < scope_members(sv, v, n).len() ==> 0 <= #[trigger] scope_members(sv, v, n)[t] < n
                && sv[scope_members(sv, v, n)[t]] == v,
    decreases n,
{
    if n > 0 {
        lemma_scope_members(sv, v, n - 1);
    }
}

/// The leaders are in range and are the first items of their scopes.
pub(crate) proof fn lemma_scope_leaders(sv: Seq<ScopeId>, n: int)
    requires
        0 <= n <= sv.len(),
    ensures
        forall|t: int|
            0 <= t < scope_leaders(sv, n).len() ==> 0 <= #[trigger] scope_leaders(sv, n)[t] < n
                && is_first_of_scope(sv, scope_leaders(sv, n)[t]),
    decreases n,
{
    if n > 0 {
        lemma_scope_leaders(sv, n - 1);
        let prev = scope_leaders(sv, n - 1);
        assert forall|t: int| 0 <= t < scope_leaders(sv, n).len() implies 0 <= #[trigger] scope_leaders(
            sv,
            n,
        )[t] < n && is_first_of_scope(sv, scope_leaders(sv, n)[t]) by {
            if t < prev.len() {
                assert(scope_leaders(sv, n)[t] == prev[t]);
            }
        }
    }
}

/// The scope identities of the spans of a batch, span by span.
pub open spec fn span_scopes(batch: Seq<SpanData>) -> Seq<ScopeId> {
    Seq::new(batch.len(), |j: int| scope_id(batch[j].instrumentation_scope@, j))
}

/// `q` is the OTLP export request for `batch` under `resource`: one
/// `ResourceSpans` holding the resource, and one `ScopeSpans` per distinct
/// scope (scopes compared as the SDK compares them, `same_scope`), in the order in which the scopes
/// first appear in the batch, each written as the scope of its first span
/// and holding the spans of that scope in batch order.
#[verifier::opaque]
pub open spec fn trace_request_is_otlp_of(
    q: ExportTraceServiceRequest,
    resource: Seq<KeyValue>,
    batch: Seq<SpanData>,
) -> bool {
    let sv = span_scopes(batch);
    let leaders = scope_leaders(sv, sv.len() as int);
    &&& q.resource_spans@.len() == 1
    &&& key_values_view(q.resource_spans@[0].resource.attributes@) == otlp_of_attributes(
        attributes_view(resource),
    )
    &&& q.resource_spans@[0].scope_spans@.len() == leaders.len()
    &&& forall|k: int|
        0 <= k < leaders.len() ==> {
            let group = #[trigger] q.resource_spans@[0].scope_spans@[k];
            let members = scope_members(sv, sv[leaders[k]], sv.len() as int);
            &&& scope_is_otlp_of(group.scope, batch[leaders[k]].instrumentation_scope@)
            &&& group.spans@.len() == members.len()
            &&& forall|m: int|
                0 <= m < members.len() ==> span_is_otlp_of(#[trigger] group.spans@[m], batch[members[m]])
        }
}

fn batch_span_scopes(batch: &Vec<SpanData>) -> (r: Vec<&InstrumentationScope>)
    ensures
        scope_keys(r@) == span_scopes(batch@),
{
    let mut r: Vec<&InstrumentationScope> = Vec::new();
    let mut i: usize = 0;
    while i < batch.len()
        invariant
            i <= batch@.len(),
            r@.len() == i,
            forall|k: int| 0 <= k < i ==> *#[trigger] r@[k] == batch@[k].instrumentation_scope,
        decreases batch@.len() - i,
    {
        r.push(&batch[i].instrumentation_scope);
        i = i + 1;
    }
    proof { assert(scope_keys(r@) =~= span_scopes(batch@)); }
    r
}

/// Build the OTLP export request for a batch of spans: the spans grouped by
/// instrumentation scope, under one resource.
pub fn build_trace_request(resource: &Vec<KeyValue>, batch: &Vec<SpanData>) -> (q: ExportTraceServiceRequest)
    ensures
        trace_request_is_otlp_of(q, resource@, batch@),
{
    reveal(trace_request_is_otlp_of);
    let scopes = batch_span_scopes(batch);
    let groups = group_by_scope(&scopes);
    let ghost sv = span_scopes(batch@);
    let ghost n = sv.len() as int;
    proof {
        lemma_scope_leaders(sv, n);
    }
    let mut scope_spans: Vec<ScopeSpans> = Vec::new();
    let mut k: usize = 0;
    while k < groups.leaders.len()
        invariant
            sv == span_scopes(batch@),
            n == sv.len(),
            groups_by_scope(sv, groups),
            k <= groups.leaders@.len(),
            scope_spans@.len() == k,
            forall|t: int|
                0 <= t < scope_leaders(sv, n).len() ==> 0 <= #[trigger] scope_leaders(sv, n)[t] < n,
            forall|t: int|
                0 <= t < k ==> {
                    let group = #[trigger] scope_spans@[t];
                    let leader = scope_leaders(sv, n)[t];
                    let members = scope_members(sv, sv[leader], n);
                    &&& scope_is_otlp_of(group.scope, batch@[leader].instrumentation_scope@)
                    &&& group.spans@.len() == members.len()
                    &&& forall|m: int|
                        0 <= m < members.len() ==> span_is_otlp_of(#[trigger] group.spans@[m], batch@[members[m]])
                },
        decreases groups.leaders@.len() - k,
    {
        let leader = groups.leaders[k];
        let members = &groups.members[k];
        let ghost expected = scope_members(sv, sv[leader as int], n);
        proof {
            assert(as_ints(groups.leaders@)[k as int] == leader as int);
            assert(as_ints(members@) == expected);
            lemma_scope_members(sv, sv[leader as int], n);
        }
        let scope = scope_to_otlp(&batch[leader].instrumentation_scope);
        let mut spans: Vec<Span> = Vec::new();
        let mut m: usize = 0;
        while m < members.len()
            invariant
                sv == span_scopes(batch@),
                n == sv.len(),
                as_ints(members@) == expected,
                m <= members@.len(),
                spans@.len() == m,
                forall|t: int| 0 <= t < expected.len() ==> 0 <= #[trigger] expected[t] < n,
                forall|t: int| 0 <= t < m ==> span_is_otlp_of(#[trigger] spans@[t], batch@[expected[t]]),
            decreases members@.len() - m,
        {
            let j = members[m];
            proof { assert(as_ints(members@)[m as int] == j as int); }
            spans.push(span_data_to_otlp(&batch[j]));
            m = m + 1;
        }
        scope_spans.push(ScopeSpans { scope, spans });
        k = k + 1;
    }
    let resource_spans = ResourceSpans { resource: resource_to_otlp(resource), scope_spans };
    let mut list: Vec<ResourceSpans> = Vec::new();
    list.push(resource_spans);
    ExportTraceServiceRequest { resource_spans: list }
}

/// The scope identities of the records of a batch, record by record.
pub open spec fn entry_scopes(batch: Seq<LogBatchEntry>) -> Seq<ScopeId> {
    Seq::new(batch.len(), |j: int| scope_id(batch[j].scope@, j))
}

/// `q` is the OTLP export request for `batch` under `resource`: one
/// `ResourceLogs` holding the resource, and one `ScopeLogs` per distinct
/// scope (scopes compared as the SDK compares them, `same_scope`), in the order in which the scopes
/// first appear in the batch, each written as the scope of its first record
/// and holding the records of that scope in batch order.
#[verifier::opaque]
pub open spec fn logs_request_is_otlp_of(
    q: ExportLogsServiceRequest,
    resource: Seq<KeyValue>,
    batch: Seq<LogBatchEntry>,
) -> bool {
    let sv = entry_scopes(batch);
    let leaders = scope_leaders(sv, sv.len() as int);
    &&& q.resource_logs@.len() == 1
    &&& key_values_view(q.resource_logs@[0].resource.attributes@) == otlp_of_attributes(
        attributes_view(resource),
    )
    &&& q.resource_logs@[0].scope_logs@.len() == leaders.len()
    &&& forall|k: int|
        0 <= k < leaders.len() ==> {
            let group = #[trigger] q.resource_logs@[0].scope_logs@[k];
            let members = scope_members(sv, sv[leaders[k]], sv.len() as int);
            &&& scope_is_otlp_of(group.scope, batch[leaders[k]].scope@)
            &&& group.log_records@.len() == members.len()
            &&& forall|m: int|
                0 <= m < members.len() ==> log_record_is_otlp_of(#[trigger] group.log_records@[m], batch[members[m]].record)
        }
}

fn batch_entry_scopes(batch: &Vec<LogBatchEntry>) -> (r: Vec<&InstrumentationScope>)
    ensures
        scope_keys(r@) == entry_scopes(batch@),
{
    let mut r: Vec<&InstrumentationScope> = Vec::new();
    let mut i: usize = 0;
    while i < batch.len()
        invariant
            i <= batch@.len(),
            r@.len() == i,
            forall|k: int| 0 <= k < i ==> *#[trigger] r@[k] == batch@[k].scope,
        decreases batch@.len() - i,
    {
        r.push(&batch[i].scope);
        i = i + 1;
    }
    proof { assert(scope_keys(r@) =~= entry_scopes(batch@)); }
    r
}

/// Build the OTLP export request for a batch of log records: the records grouped by
/// instrumentation scope, under one resource.
pub fn build_logs_request(resource: &Vec<KeyValue>, batch: &Vec<LogBatchEntry>) -> (q: ExportLogsServiceRequest)
    ensures
        logs_request_is_otlp_of(q, resource@, batch@),
{
    reveal(logs_request_is_otlp_of);
    let scopes = batch_entry_scopes(batch);
    let groups = group_by_scope(&scopes);
    let ghost sv = entry_scopes(batch@);
    let ghost n = sv.len() as int;
    proof {
        lemma_scope_leaders(sv, n);
    }
    let mut scope_logs: Vec<ScopeLogs> = Vec::new();
    let mut k: usize = 0;
    while k < groups.leaders.len()
        invariant
            sv == entry_scopes(batch@),
            n == sv.len(),
            groups_by_scope(sv, groups),
            k <= groups.leaders@.len(),
            scope_logs@.len() == k,
            forall|t: int|
                0 <= t < scope_leaders(sv, n).len() ==> 0 <= #[trigger] scope_leaders(sv, n)[t] < n,
            forall|t: int|
                0 <= t < k ==> {
                    let group = #[trigger] scope_logs@[t];
                    let leader = scope_leaders(sv, n)[t];
                    let members = scope_members(sv, sv[leader], n);
                    &&& scope_is_otlp_of(group.scope, batch@[leader].scope@)
                    &&& group.log_records@.len() == members.len()
                    &&& forall|m: int|
                        0 <= m < members.len() ==> log_record_is_otlp_of(#[trigger] group.log_records@[m], batch@[members[m]].record)
                },
        decreases groups.leaders@.len() - k,
    {
        let leader = groups.leaders[k];
        let members = &groups.members[k];
        let ghost expected = scope_members(sv, sv[leader as int], n);
        proof {
            assert(as_ints(groups.leaders@)[k as int] == leader as int);
            assert(as_ints(members@) == expected);
            lemma_scope_members(sv, sv[leader as int], n);
        }
        let scope = scope_to_otlp(&batch[leader].scope);
        let mut records: Vec<LogRecord> = Vec::new();
        let mut m: usize = 0;
        while m < members.len()
            invariant
                sv == entry_scopes(batch@),
                n == sv.len(),
                as_ints(members@) == expected,
                m <= members@.len(),
                records@.len() == m,
                forall|t: int| 0 <= t < expected.len() ==> 0 <= #[trigger] expected[t] < n,
                forall|t: int| 0 <= t < m ==> log_record_is_otlp_of(#[trigger] records@[t], batch@[expected[t]].record),
            decreases members@.len() - m,
        {
            let j = members[m];
            proof { assert(as_ints(members@)[m as int] == j as int); }
            records.push(log_record_to_otlp(&batch[j].record));
            m = m + 1;
        }
        scope_logs.push(ScopeLogs { scope, log_records: records });
        k = k + 1;
    }
    let resource_logs = ResourceLogs { resource: resource_to_otlp(resource), scope_logs };
    let mut list: Vec<ResourceLogs> = Vec::new();
    list.push(resource_logs);
    ExportLogsServiceRequest { resource_logs: list }
}

/// Membership in the members list is having the scope.
proof fn lemma_scope_members_contains(sv: Seq<ScopeId>, v: ScopeId, n: int, j: int)
    requires
        0 <= j < n <= sv.len(),
    ensures
        scope_members(sv, v, n).contains(j) <==> sv[j] == v,
    decreases n,
{
    lemma_scope_members(sv, v, n);
    if j < n - 1 {
        lemma_scope_members_contains(sv, v, n - 1, j);
        let prev = scope_members(sv, v, n - 1);
        if prev.contains(j) {
            let t = choose|t: int| 0 <= t < prev.len() && prev[t] == j;
            assert(scope_members(sv, v, n)[t] == j);
        }
        if scope_members(sv, v, n).contains(j) {
            let t = choose|t: int| 0 <= t < scope_members(sv, v, n).len() && scope_members(sv, v, n)[t] == j;
            if t >= prev.len() {
                assert(scope_members(sv, v, n)[t] == n - 1);
            } else {
                assert(prev[t] == j);
            }
        }
    } else {
        let prev = scope_members(sv, v, n - 1);
        lemma_scope_members(sv, v, n - 1);
        if sv[j] == v {
            assert(scope_members(sv, v, n)[prev.len() as int] == j);
        }
        if scope_members(sv, v, n).contains(j) {
            let t = choose|t: int| 0 <= t < scope_members(sv, v, n).len() && scope_members(sv, v, n)[t] == j;
            if t < prev.len() {
                assert(prev[t] < n - 1);
            }
        }
    }
}

/// The members are ascending.
proof fn lemma_scope_members_ascending(sv: Seq<ScopeId>, v: ScopeId, n: int)
    requires
        0 <= n <= sv.len(),
    ensures
        forall|t1: int, t2: int|
            0 <= t1 < t2 < scope_members(sv, v, n).len() ==> #[trigger] scope_members(sv, v, n)[t1]
                < #[trigger] scope_members(sv, v, n)[t2],
    decreases n,
{
    if n > 0 {
        lemma_scope_members_ascending(sv, v, n - 1);
        lemma_scope_members(sv, v, n - 1);
        let prev = scope_members(sv, v, n - 1);
        assert forall|t1: int, t2: int|
            0 <= t1 < t2 < scope_members(sv, v, n).len() implies #[trigger] scope_members(sv, v, n)[t1]
            < #[trigger] scope_members(sv, v, n)[t2] by {
            assert(scope_members(sv, v, n)[t1] == prev[t1]);
            if t2 < prev.len() {
                assert(scope_members(sv, v, n)[t2] == prev[t2]);
            }
        }
    }
}

/// The leaders are ascending.
proof fn lemma_scope_leaders_ascending(sv: Seq<ScopeId>, n: int)
    requires
        0 <= n <= sv.len(),
    ensures
        forall|t1: int, t2: int|
            0 <= t1 < t2 < scope_leaders(sv, n).len() ==> #[trigger] scope_leaders(sv, n)[t1]
                < #[trigger] scope_leaders(sv, n)[t2],
    decreases n,
{
    if n > 0 {
        lemma_scope_leaders_ascending(sv, n - 1);
        lemma_scope_leaders(sv, n - 1);
        let prev = scope_leaders(sv, n - 1);
        assert forall|t1: int, t2: int|
            0 <= t1 < t2 < scope_leaders(sv, n).len() implies #[trigger] scope_leaders(sv, n)[t1]
            < #[trigger] scope_leaders(sv, n)[t2] by {
            assert(scope_leaders(sv, n)[t1] == prev[t1]);
            if t2 < prev.len() {
                assert(scope_leaders(sv, n)[t2] == prev[t2]);
            }
        }
    }
}

/// Every item below `n` whose scope is first seen at or before it has that
/// first item among the leaders.
proof fn lemma_scope_leader_exists(sv: Seq<ScopeId>, n: int, j: int)
    requires
        0 <= j < n <= sv.len(),
    ensures
        exists|k: int| 0 <= k < scope_leaders(sv, n).len() && sv[#[trigger] scope_leaders(sv, n)[k]] == sv[j],
    decreases j,
{
    if is_first_of_scope(sv, j) {
        lemma_first_is_leader(sv, n, j);
    } else {
        let j2 = choose|j2: int| 0 <= j2 < j && sv[j2] == sv[j];
        lemma_scope_leader_exists(sv, n, j2);
    }
}

/// The first item of a scope is a leader.
proof fn lemma_first_is_leader(sv: Seq<ScopeId>, n: int, j: int)
    requires
        0 <= j < n <= sv.len(),
        is_first_of_scope(sv, j),
    ensures
        exists|k: int| 0 <= k < scope_leaders(sv, n).len() && #[trigger] scope_leaders(sv, n)[k] == j,
    decreases n,
{
    let prev = scope_leaders(sv, n - 1);
    if j == n - 1 {
        assert(scope_leaders(sv, n)[prev.len() as int] == j);
    } else {
        lemma_first_is_leader(sv, n - 1, j);
        let k = choose|k: int| 0 <= k < prev.len() && #[trigger] prev[k] == j;
        assert(scope_leaders(sv, n)[k] == j);
    }
}

/// Some group has the scope of item `j`.
pub open spec fn scope_has_group(sv: Seq<ScopeId>, leaders: Seq<int>, j: int) -> bool {
    exists|k: int| 0 <= k < leaders.len() && sv[#[trigger] leaders[k]] == sv[j]
}

/// Grouping by scope partitions a batch. With `sv` the scope identities of
/// the items (`scope_id`: equal for two items exactly when their scopes are
/// the same scope):
/// distinct groups have distinct scopes; every item's scope has a group;
/// a group holds exactly the items of its scope, in batch order; and the
/// groups come in the order in which their scopes first appear, each led by
/// the first item of its scope.
pub proof fn lemma_scope_groups_partition(sv: Seq<ScopeId>)
    ensures
        ({
            let n = sv.len() as int;
            let leaders = scope_leaders(sv, n);
            &&& forall|k1: int, k2: int|
                0 <= k1 < leaders.len() && 0 <= k2 < leaders.len() && k1 != k2 ==> sv[#[trigger] leaders[k1]]
                    != sv[#[trigger] leaders[k2]]
            &&& forall|j: int| 0 <= j < n ==> #[trigger] scope_has_group(sv, leaders, j)
            &&& forall|k: int, j: int|
                0 <= k < leaders.len() && 0 <= j < n ==> (#[trigger] scope_members(sv, sv[leaders[k]], n).contains(j)
                    <==> sv[j] == sv[leaders[k]])
            &&& forall|k: int, t1: int, t2: int|
                0 <= k < leaders.len() && 0 <= t1 < t2 < scope_members(sv, sv[leaders[k]], n).len()
                    ==> #[trigger] scope_members(sv, sv[leaders[k]], n)[t1] < #[trigger] scope_members(
                    sv,
                    sv[leaders[k]],
                    n,
                )[t2]
            &&& forall|k1: int, k2: int|
                0 <= k1 < k2 < leaders.len() ==> #[trigger] leaders[k1] < #[trigger] leaders[k2]
            &&& forall|k: int| 0 <= k < leaders.len() ==> is_first_of_scope(sv, #[trigger] leaders[k])
        }),
{
    let n = sv.len() as int;
    let leaders = scope_leaders(sv, n);
    lemma_scope_leaders(sv, n);
    lemma_scope_leaders_ascending(sv, n);
    assert forall|k1: int, k2: int|
        0 <= k1 < leaders.len() && 0 <= k2 < leaders.len() && k1 != k2 implies sv[#[trigger] leaders[k1]]
        != sv[#[trigger] leaders[k2]] by {
        if k1 < k2 {
            assert(leaders[k1] < leaders[k2]);
            assert(is_first_of_scope(sv, leaders[k2]));
        } else {
            assert(leaders[k2] < leaders[k1]);
            assert(is_first_of_scope(sv, leaders[k1]));
        }
    }
    assert forall|j: int| 0 <= j < n implies #[trigger] scope_has_group(sv, leaders, j) by {
        lemma_scope_leader_exists(sv, n, j);
    }
    assert forall|k: int, j: int| 0 <= k < leaders.len() && 0 <= j < n implies (
    #[trigger] scope_members(sv, sv[leaders[k]], n).contains(j) <==> sv[j] == sv[leaders[k]]) by {
        lemma_scope_members_contains(sv, sv[leaders[k]], n, j);
    }
    assert forall|k: int, t1: int, t2: int|
        0 <= k < leaders.len() && 0 <= t1 < t2 < scope_members(sv, sv[leaders[k]], n).len()
        implies #[trigger] scope_members(sv, sv[leaders[k]], n)[t1] < #[trigger] scope_members(
        sv,
        sv[leaders[k]],
        n,
    )[t2] by {
        lemma_scope_members_ascending(sv, sv[leaders[k]], n);
    }
}

/// Why an export was refused; mirrors the SDK's export error.
#[derive(Debug)]
pub enum ExportError {
    /// The exporter was shut down before the export.
    AlreadyShutdown,
    /// The export failed; the text says why.
    InternalFailure(String),
}

/// A JSON line: the JSON text followed by a newline.
pub open spec fn json_line(json: Seq<char>) -> Seq<char> {
    json.push('\n')
}

/// Frames a JSON text as one line.
pub fn to_line(json: String) -> (r: String)
    ensures
        r@ == json_line(json@),
{
    let mut r = json;
    proof { reveal_strlit("\n"); }
    r.append("\n");
    proof { assert(r@ =~= json_line(json@)); }
    r
}

/// The JSON line for a batch of spans under a resource.
pub fn trace_export_line(resource: &Vec<KeyValue>, batch: &Vec<SpanData>) -> (r: String)
    ensures
        exists|q: ExportTraceServiceRequest|
            #[trigger] trace_request_is_otlp_of(q, resource@, batch@) && r@ == json_line(json_trace_request(q)),
{
    let q = build_trace_request(resource, batch);
    let json = encode_trace_request(&q);
    to_line(json)
}

/// The JSON line for a batch of log records under a resource.
pub fn logs_export_line(resource: &Vec<KeyValue>, batch: &Vec<LogBatchEntry>) -> (r: String)
    ensures
        exists|q: ExportLogsServiceRequest|
            #[trigger] logs_request_is_otlp_of(q, resource@, batch@) && r@ == json_line(json_logs_request(q)),
{
    let q = build_logs_request(resource, batch);
    let json = encode_logs_request(&q);
    to_line(json)
}

/// The export failure reported for an error, prefixed with the exporter's name.
pub fn export_failure(exporter: &str, e: &crate::FastlyOtelError) -> (r: ExportError)
    ensures
        r matches ExportError::InternalFailure(text) && (e.message_spec() matches Some(m) ==> text@
            == exporter@ + ": "@ + m) && (exporter@ + ": "@ + e.message_prefix()).is_prefix_of(text@),
{
    let mut text = String::new();
    text.append(exporter);
    text.append(": ");
    let ghost head = text@;
    let m = e.message();
    text.append(m.as_str());
    proof {
        let p = e.message_prefix();
        assert((head + p) =~= text@.subrange(0, (head + p).len() as int)) by {
            assert(p =~= m@.subrange(0, p.len() as int));
        }
    }
    ExportError::InternalFailure(text)
}

} // verus!
