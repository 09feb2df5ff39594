//! Tests for the exporter configuration types.

use latency_probe::exporter::{ExporterType, InfluxExporter, JsonExporter, PrometheusExporter};

#[test]
fn exporter_constructors_keep_their_configuration() {
    let json = JsonExporter::new(String::from("metrics.json"), true);
    assert_eq!(json.output_path, "metrics.json");
    assert!(json.pretty);

    let prom = PrometheusExporter::new(String::from("metrics.prom"));
    assert_eq!(prom.output_path, "metrics.prom");

    let influx = InfluxExporter::new(String::from("metrics.influx"), String::from("latency"));
    assert_eq!(influx.output_path, "metrics.influx");
    assert_eq!(influx.measurement, "latency");
}

#[test]
fn exporter_types_are_distinct() {
    assert_ne!(ExporterType::Json, ExporterType::Prometheus);
    assert_ne!(ExporterType::Prometheus, ExporterType::Influx);
    assert_eq!(ExporterType::Json, ExporterType::Json);
}
