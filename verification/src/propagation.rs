//! W3C trace context decisions: whether an extracted context carries a
//! remote parent, and the Fastly request id attribute.

use vstd::prelude::*;

use crate::model::{KeyValue, SpanContext, Value, ValueView};

verus! {

/// The key of the Fastly request id attribute.
pub const REQUEST_ID_KEY: &'static str = "fastly.request_id";

/// A span context is valid when neither its trace id nor its span id is the
/// invalid (all-zero) id.
pub open spec fn is_valid_context(sc: SpanContext) -> bool {
    sc.trace_id != 0 && sc.span_id != 0
}

/// Check whether a span context is a valid remote one, as an extracted
/// `traceparent` header gives.
pub fn has_remote_span_context(sc: &SpanContext) -> (r: bool)
    ensures
        r == (is_valid_context(*sc) && sc.is_remote),
{
    sc.trace_id != 0 && sc.span_id != 0 && sc.is_remote
}

/// The Fastly request id attribute for the value of the `FASTLY_TRACE_ID`
/// variable: `fastly.request_id = <value>`, absent when the variable is unset
/// or empty.
pub fn request_id_attribute(value: Option<String>) -> (r: Option<KeyValue>)
    ensures
        match value {
            Some(v) if v@.len() > 0 => r matches Some(kv) && kv@ == (REQUEST_ID_KEY@, ValueView::Str(v@)),
            _ => r is None,
        },
{
    match value {
        Some(v) => {
            if v.as_str().is_empty() {
                None
            } else {
                Some(KeyValue { key: REQUEST_ID_KEY.to_owned(), value: Value::String(v) })
            }
        },
        None => None,
    }
}

} // verus!
