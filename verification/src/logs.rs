//! Fastly log endpoint exporter for OpenTelemetry logs: the state and the
//! decisions of the exporter, and the OTLP JSON line it writes.

use vstd::prelude::*;

use crate::export::{
    export_failure, json_line, logs_export_line, logs_request_is_otlp_of, ExportError,
};
use crate::json::json_logs_request;
use crate::model::{KeyValue, LogBatchEntry};
use crate::otlp::ExportLogsServiceRequest;
use crate::FastlyOtelError;

verus! {

/// Exports OTel log records as OTLP JSON to a Fastly named log endpoint.
#[derive(Debug)]
pub struct FastlyLogExporter {
    endpoint_name: String,
    resource: Vec<KeyValue>,
    is_shutdown: bool,
}

impl FastlyLogExporter {
    /// The name of the log endpoint.
    pub closed spec fn endpoint(&self) -> Seq<char> {
        self.endpoint_name@
    }

    /// The resource attributes the records are exported under.
    pub closed spec fn resource(&self) -> Seq<KeyValue> {
        self.resource@
    }

    /// Whether the exporter has been shut down.
    pub closed spec fn shut_down(&self) -> bool {
        self.is_shutdown
    }

    /// Create a new exporter that writes OTLP JSON to the named log endpoint;
    /// it starts with no resource attributes until one is set.
    pub fn new(endpoint_name: String) -> (r: Self)
        ensures
            r.endpoint() == endpoint_name@,
            r.resource() == Seq::<KeyValue>::empty(),
            !r.shut_down(),
    {
        FastlyLogExporter { endpoint_name, resource: Vec::new(), is_shutdown: false }
    }

    /// The name of the log endpoint.
    pub fn endpoint_name(&self) -> (r: &str)
        ensures
            r@ == self.endpoint(),
    {
        self.endpoint_name.as_str()
    }

    /// Whether the exporter has been shut down.
    pub fn is_shutdown(&self) -> (r: bool)
        ensures
            r == self.shut_down(),
    {
        self.is_shutdown
    }

    /// Set the resource the records are exported under.
    pub fn set_resource(&mut self, resource: Vec<KeyValue>)
        ensures
            final(self).resource() == resource@,
            final(self).endpoint() == old(self).endpoint(),
            final(self).shut_down() == old(self).shut_down(),
    {
        self.resource = resource;
    }

    /// Shut the exporter down; later exports are refused.
    pub fn shutdown_with_timeout(&mut self)
        ensures
            final(self).shut_down(),
            final(self).resource() == old(self).resource(),
            final(self).endpoint() == old(self).endpoint(),
    {
        self.is_shutdown = true;
    }

    /// The line to write for a batch: refused once shut down; otherwise one
    /// JSON line holding the whole batch (also an empty one), grouped by
    /// scope, under the exporter's resource.
    pub fn export(&self, batch: &Vec<LogBatchEntry>) -> (r: Result<String, ExportError>)
        ensures
            self.shut_down() ==> r matches Err(ExportError::AlreadyShutdown),
            !self.shut_down() ==> (r matches Ok(line) && exists|
                q: ExportLogsServiceRequest,
            |
                #[trigger] logs_request_is_otlp_of(q, self.resource(), batch@) && line@ == json_line(
                    json_logs_request(q),
                )),
    {
        if self.is_shutdown {
            return Err(ExportError::AlreadyShutdown);
        }
        let line = logs_export_line(&self.resource, batch);
        proof {
            let q = choose|q: ExportLogsServiceRequest|
                #[trigger] logs_request_is_otlp_of(q, self.resource@, batch@) && line@ == json_line(
                    json_logs_request(q),
                );
            assert(logs_request_is_otlp_of(q, self.resource(), batch@));
        }
        Ok(line)
    }

    /// The failure reported when writing a batch failed.
    pub fn failure(&self, e: &FastlyOtelError) -> (r: ExportError)
        ensures
            r matches ExportError::InternalFailure(text) && (e.message_spec() matches Some(m)
                ==> text@ == "FastlyLogExporter"@ + ": "@ + m) && ("FastlyLogExporter"@ + ": "@ + e.message_prefix()).is_prefix_of(text@),
    {
        export_failure("FastlyLogExporter", e)
    }
}

} // verus!
