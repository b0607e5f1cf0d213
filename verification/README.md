# fastly-compute-otel

OpenTelemetry log and trace export for Fastly Compute, using Fastly named log
endpoints as transport: spans and log records are written as OTLP JSON lines,
one line per exported batch.

## Layout

- `src/` — the verified library (Verus):
  - `model` — the OpenTelemetry data the exporters read, as plain values;
  - `otlp`, `json`, `text` — the OTLP data model and its JSON encoding;
  - `convert` — OpenTelemetry data to OTLP;
  - `export`, `traces`, `logs` — grouping a batch by instrumentation scope,
    the export request, and the exporters' state and decisions;
  - `lines` — each export is one line;
  - `init`, `propagation` — the builder, its validation and resource, and the
    span decisions taken per request.
- `app/` — the parts that talk to the OpenTelemetry SDK and the Fastly
  runtime: the SDK exporter traits, providers, request handling, W3C trace
  context propagation, and the conversions between SDK values and the
  library's model.
- `tests/` — tests of the library.
