use datadog_tracing::init::{dd_enabled, filter_directives, log_format, LogFormat};
use datadog_tracing::middleware::{opentelemetry_tracing_layer, span_name, OtelAxumLayer};
use datadog_tracing::shutdown::{
    FlushOutcome, ShutdownAction, ShutdownReport, ShutdownState, TracerShutdown,
};
use datadog_tracing::tracer::{
    exporter_config, parse_i32, ApiVersion, ConfigError, IdGenerator, Sampler,
};

type Filter = fn(&str) -> bool;

fn not_health(path: &str) -> bool {
    !path.starts_with("/health")
}

#[test]
fn exporter_needs_a_service_name() {
    assert_eq!(exporter_config(None, None, None), Err(ConfigError::MissingConfiguration));
    assert_eq!(
        exporter_config(None, Some("agent"), Some("1")),
        Err(ConfigError::MissingConfiguration)
    );
}

#[test]
fn exporter_defaults() {
    let config = exporter_config(Some("billing"), None, None).unwrap();
    assert_eq!(config.service_name, "billing");
    assert_eq!(config.agent_endpoint, "http://localhost:8126");
    assert_eq!(config.api_version, ApiVersion::Version05);
    assert_eq!(config.sampler, Sampler::AlwaysOn);
    assert_eq!(config.id_generator, IdGenerator::Random);
    assert_eq!(config.pool_idle_timeout_millis, 1);
    assert_eq!(exporter_config(Some(""), None, None).unwrap().service_name, "");
}

#[test]
fn exporter_endpoint_from_host_and_port() {
    let endpoint = |host, port| exporter_config(Some("s"), host, port).unwrap().agent_endpoint;
    assert_eq!(endpoint(Some("dd-agent"), Some("9000")), "http://dd-agent:9000");
    assert_eq!(endpoint(Some("10.0.0.1"), None), "http://10.0.0.1:8126");
    assert_eq!(endpoint(None, Some("+81")), "http://localhost:81");
    assert_eq!(endpoint(None, Some("-5")), "http://localhost:-5");
    assert_eq!(endpoint(None, Some("port")), "http://localhost:8126");
    assert_eq!(endpoint(None, Some("")), "http://localhost:8126");
    assert_eq!(endpoint(None, Some("2147483648")), "http://localhost:8126");
    assert_eq!(endpoint(None, Some("2147483647")), "http://localhost:2147483647");
}

#[test]
fn port_numbers_are_read_as_std_reads_them() {
    let texts = [
        "0", "-0", "+0", "8126", "+8126", "-8126", "0008126", "2147483647", "2147483648",
        "-2147483648", "-2147483649", "", "+", "-", "--1", "+-1", "1+", " 1", "1 ", "1_000",
        "0x10", "99999999999999999999999999", "-99999999999999999999999999", "٣",
    ];
    for text in texts {
        assert_eq!(parse_i32(text), text.parse::<i32>().ok(), "{:?}", text);
    }
}

#[test]
fn datadog_is_switched_on_by_true_only() {
    assert!(dd_enabled(Some("true")));
    for other in ["", "TRUE", "True", "1", "yes", "true ", "false"] {
        assert!(!dd_enabled(Some(other)));
    }
    assert!(!dd_enabled(None));
    assert_eq!(log_format(true), LogFormat::Datadog);
    assert_eq!(log_format(false), LogFormat::Plain);
}

#[test]
fn log_directives() {
    assert_eq!(
        filter_directives(None, None, None, true),
        "info,axum_tracing_opentelemetry=info,otel=debug"
    );
    assert_eq!(
        filter_directives(None, None, None, false),
        "info,axum_tracing_opentelemetry=off,otel=debug"
    );
    assert_eq!(
        filter_directives(Some("warn,hyper=off"), Some("trace"), Some("error"), false),
        "warn,hyper=off,axum_tracing_opentelemetry=trace,otel=error"
    );
    assert_eq!(filter_directives(Some(""), Some(""), Some(""), true), ",axum_tracing_opentelemetry=,otel=");
}

#[test]
fn shutdown_twice_flushes_once() {
    let mut handle = TracerShutdown::new();
    assert_eq!(handle.state(), ShutdownState::Running);
    assert_eq!(handle.shutdown(), ShutdownAction::Flush);
    assert_eq!(handle.state(), ShutdownState::Draining);
    assert_eq!(handle.shutdown(), ShutdownAction::Nothing);
    assert_eq!(handle.state(), ShutdownState::Draining);
    assert_eq!(handle.finish(FlushOutcome::Completed), ShutdownReport::Flushed);
    assert_eq!(handle.state(), ShutdownState::Stopped);
    assert_eq!(handle.shutdown(), ShutdownAction::Nothing);
    assert_eq!(handle.finish(FlushOutcome::Completed), ShutdownReport::NotDraining);
    assert_eq!(handle.state(), ShutdownState::Stopped);
}

#[test]
fn shutdown_that_runs_out_of_time_is_reported() {
    let mut handle = TracerShutdown::new();
    assert_eq!(handle.finish(FlushOutcome::TimedOut), ShutdownReport::NotDraining);
    assert_eq!(handle.state(), ShutdownState::Running);
    assert_eq!(handle.shutdown(), ShutdownAction::Flush);
    assert_eq!(handle.finish(FlushOutcome::TimedOut), ShutdownReport::SpansLost);
    assert_eq!(handle.state(), ShutdownState::Stopped);
    assert_eq!(handle.shutdown(), ShutdownAction::Nothing);
}

#[test]
fn layer_without_filter_traces_everything() {
    let layer = opentelemetry_tracing_layer::<Filter>();
    let service = layer.layer("inner");
    assert_eq!(*service.inner(), "inner");
    assert!(service.traces("/"));
    assert!(service.traces("/health"));
    let service = OtelAxumLayer::<Filter>::default().layer(7u8);
    assert!(service.traces("/health"));
    assert_eq!(*service.inner(), 7);
}

#[test]
fn layer_with_filter_asks_the_filter() {
    let layer = opentelemetry_tracing_layer::<Filter>().filter(not_health);
    let mut service = layer.layer(vec![1]);
    assert!(service.traces("/users"));
    assert!(!service.traces("/health"));
    assert!(!service.traces("/healthz"));
    service.inner_mut().push(2);
    assert_eq!(*service.inner(), [1, 2]);
    let replaced = layer.filter(|_| true);
    assert!(replaced.layer(()).traces("/health"));
}

#[test]
fn span_names() {
    assert_eq!(span_name("GET", "/users/:id"), "GET /users/:id");
    assert_eq!(span_name("GET", ""), "GET");
    assert_eq!(span_name("", ""), "");
    assert_eq!(span_name("POST", " /a b "), "POST  /a b");
    assert_eq!(span_name("\tGET", "/x\u{a0}\n"), "GET /x");
}
