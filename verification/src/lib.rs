//! OpenTelemetry log and trace export for Fastly Compute, using named log
//! endpoints as transport.
//!
//! The library turns OpenTelemetry data (spans, log records, resources) into
//! OTLP JSON lines, and holds the configuration and decision logic of the
//! exporters and of the request-scoped instrumentation.

pub mod convert;
pub mod export;
pub mod init;
pub mod json;
pub mod lines;
pub mod members;
pub mod logs;
pub mod model;
pub mod otlp;
pub mod propagation;
pub mod text;
pub mod traces;

pub use convert::system_time_to_nanos;
pub use init::FastlyOtelBuilder;
pub use logs::FastlyLogExporter;
pub use otlp::is_zero;
pub use propagation::has_remote_span_context;
pub use traces::FastlySpanExporter;

use vstd::prelude::*;

verus! {

/// Errors that can occur during OTel export on Fastly Compute.
#[derive(Debug)]
pub enum FastlyOtelError {
    /// The named log endpoint could not be opened; `source` is the reason.
    EndpointOpen { name: String, source: String },
    /// The OTLP JSON could not be serialized.
    Serialization(serde_json::Error),
    /// Writing to the log endpoint failed; the text is the reason.
    Write(String),
    /// The configuration is incomplete.
    Config(&'static str),
}

/// Calls `Display::to_string` on a `serde_json::Error`. Nothing is claimed
/// of the text.
#[verifier::external_body]
fn json_error_text(e: &serde_json::Error) -> String {
    e.to_string()
}

impl FastlyOtelError {
    /// The error's message, for the variants whose message is fixed by the
    /// library (the serialization message includes the serializer's own text).
    pub open spec fn message_spec(&self) -> Option<Seq<char>> {
        match self {
            FastlyOtelError::EndpointOpen { name, source } => Some(
                "failed to open log endpoint '"@ + name@ + "': "@ + source@,
            ),
            FastlyOtelError::Serialization(_) => None,
            FastlyOtelError::Write(reason) => Some("failed to write to log endpoint: "@ + reason@),
            FastlyOtelError::Config(reason) => Some(reason@),
        }
    }

    /// What every message of this error starts with: the whole message where
    /// the library fixes it, the fixed prefix for a serialization error.
    pub open spec fn message_prefix(&self) -> Seq<char> {
        match self.message_spec() {
            Some(m) => m,
            None => "failed to serialize OTLP JSON: "@,
        }
    }

    /// The error's message.
    pub fn message(&self) -> (r: String)
        ensures
            self.message_spec() matches Some(m) ==> r@ == m,
            self.message_prefix().is_prefix_of(r@),
    {
        let mut r = String::new();
        match self {
            FastlyOtelError::EndpointOpen { name, source } => {
                r.append("failed to open log endpoint '");
                r.append(name.as_str());
                r.append("': ");
                r.append(source.as_str());
            },
            FastlyOtelError::Serialization(e) => {
                r.append("failed to serialize OTLP JSON: ");
                let t = json_error_text(e);
                r.append(t.as_str());
                proof {
                    assert(self.message_prefix() =~= r@.subrange(0, self.message_prefix().len() as int));
                }
            },
            FastlyOtelError::Write(reason) => {
                r.append("failed to write to log endpoint: ");
                r.append(reason.as_str());
            },
            FastlyOtelError::Config(reason) => {
                r.append(reason);
            },
        }
        r
    }
}

} // verus!
