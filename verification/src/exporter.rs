//! Exporter configuration.
//!
//! The snapshot can be serialized as JSON, as a Prometheus text
//! exposition, or as InfluxDB line protocol.  The serialization itself is
//! I/O and lives outside the library; these types carry each exporter's
//! configuration and the choice of format.

use vstd::prelude::*;

verus! {

/// Export format.
#[derive(Clone, Copy, Debug, PartialEq, Eq, Structural)]
pub enum ExporterType {
    /// JSON document.
    Json,
    /// Prometheus text exposition.
    Prometheus,
    /// InfluxDB line protocol.
    Influx,
}

/// JSON exporter configuration.
#[derive(Clone, Debug)]
pub struct JsonExporter {
    /// Path of the output file.
    pub output_path: String,
    /// Pretty-print the document.
    pub pretty: bool,
}

impl JsonExporter {
    /// Create a new JSON exporter.
    pub fn new(output_path: String, pretty: bool) -> (r: JsonExporter)
        ensures
            r.output_path@ == output_path@,
            r.pretty == pretty,
    {
        JsonExporter { output_path, pretty }
    }
}

/// Prometheus exporter configuration.
#[derive(Clone, Debug)]
pub struct PrometheusExporter {
    /// Path of the output file.
    pub output_path: String,
}

impl PrometheusExporter {
    /// Create a new Prometheus exporter.
    pub fn new(output_path: String) -> (r: PrometheusExporter)
        ensures
            r.output_path@ == output_path@,
    {
        PrometheusExporter { output_path }
    }
}

/// InfluxDB line protocol exporter configuration.
#[derive(Clone, Debug)]
pub struct InfluxExporter {
    /// Path of the output file.
    pub output_path: String,
    /// Measurement name to write lines under.
    pub measurement: String,
}

impl InfluxExporter {
    /// Create a new InfluxDB exporter.
    pub fn new(output_path: String, measurement: String) -> (r: InfluxExporter)
        ensures
            r.output_path@ == output_path@,
            r.measurement@ == measurement@,
    {
        InfluxExporter { output_path, measurement }
    }
}

} // verus!
