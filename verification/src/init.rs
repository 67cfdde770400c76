//! What is decided at startup: whether traces go to Datadog, which log
//! directives apply, and in which form log lines are written.
use vstd::prelude::*;
use vstd::string::*;

verus! {

/// The form in which log lines are written.
#[derive(Clone, Copy, Debug, PartialEq, Eq, Structural)]
pub enum LogFormat {
    /// Lines of JSON with Datadog's correlation members.
    Datadog,
    /// The plain lines of the logging library.
    Plain,
}

/// Whether a setting switches Datadog on: only the value `true` does.
pub open spec fn enabled_by(setting: Option<&str>) -> bool {
    setting matches Some(text) && text@ == "true"@
}

/// The level of the process's own logs: the one given, or `info`.
pub open spec fn log_level_of(setting: Option<&str>) -> Seq<char> {
    match setting {
        Some(text) => text@,
        None => "info"@,
    }
}

/// The level of the HTTP tracing middleware: the one given; without one,
/// `info` with Datadog on, since the middleware emits its spans at that level,
/// and `off` with Datadog off.
pub open spec fn middleware_level_of(setting: Option<&str>, dd_enabled: bool) -> Seq<char> {
    match setting {
        Some(text) => text@,
        None => if dd_enabled {
            "info"@
        } else {
            "off"@
        },
    }
}

/// The level of the OpenTelemetry setup's logs: the one given, or `debug`.
pub open spec fn otel_level_of(setting: Option<&str>) -> Seq<char> {
    match setting {
        Some(text) => text@,
        None => "debug"@,
    }
}

/// The log directives: the process's level, then the levels of the HTTP
/// tracing middleware and of the OpenTelemetry setup.
pub open spec fn directives_text(
    log_level: Option<&str>,
    middleware_level: Option<&str>,
    otel_level: Option<&str>,
    dd_enabled: bool,
) -> Seq<char> {
    log_level_of(log_level) + ",axum_tracing_opentelemetry="@ + middleware_level_of(
        middleware_level,
        dd_enabled,
    ) + ",otel="@ + otel_level_of(otel_level)
}

/// Tells whether a setting switches Datadog on.
pub fn dd_enabled(setting: Option<&str>) -> (enabled: bool)
    ensures
        enabled == enabled_by(setting),
{
    match setting {
        Some(text) => {
            let given = text.to_owned();
            let wanted = "true".to_owned();
            given == wanted
        },
        None => false,
    }
}

/// The log directives for the given settings.
pub fn filter_directives(
    log_level: Option<&str>,
    middleware_level: Option<&str>,
    otel_level: Option<&str>,
    dd_enabled: bool,
) -> (directives: String)
    ensures
        directives@ == directives_text(log_level, middleware_level, otel_level, dd_enabled),
{
    let own = match log_level {
        Some(text) => text,
        None => "info",
    };
    let middleware = match middleware_level {
        Some(text) => text,
        None => if dd_enabled {
            "info"
        } else {
            "off"
        },
    };
    let otel = match otel_level {
        Some(text) => text,
        None => "debug",
    };
    let mut directives = String::new();
    directives.append(own);
    directives.append(",axum_tracing_opentelemetry=");
    directives.append(middleware);
    directives.append(",otel=");
    directives.append(otel);
    proof {
        assert(directives@ =~= directives_text(
            log_level,
            middleware_level,
            otel_level,
            dd_enabled,
        ));
    }
    directives
}

/// The form of the log lines: Datadog's when Datadog is on.
pub fn log_format(dd_enabled: bool) -> (format: LogFormat)
    ensures
        format == (if dd_enabled {
            LogFormat::Datadog
        } else {
            LogFormat::Plain
        }),
{
    if dd_enabled {
        LogFormat::Datadog
    } else {
        LogFormat::Plain
    }
}

} // verus!
