//! The settings of the pipeline that exports spans to the Datadog agent.
//!
//! The service name is required. The agent is looked for at `localhost:8126`
//! unless a host or a port is given; a port that is no number counts as not
//! given. Every trace is sampled, identifiers are random, and idle connections
//! to the agent are dropped after a millisecond, so that no request goes out
//! on a connection that the agent has closed.
use crate::decimal::{digits_value, is_digit, is_digits, parse_decimal, parse_u64, push_signed, signed_text};
use vstd::prelude::*;
use vstd::string::*;

verus! {

/// Why the settings could not be made.
#[derive(Clone, Copy, Debug, PartialEq, Eq, Structural)]
pub enum ConfigError {
    /// No service name was given.
    MissingConfiguration,
}

/// Which traces are exported.
#[derive(Clone, Copy, Debug, PartialEq, Eq, Structural)]
pub enum Sampler {
    /// Every trace.
    AlwaysOn,
    /// No trace.
    AlwaysOff,
}

/// How identifiers of new traces and spans are made.
#[derive(Clone, Copy, Debug, PartialEq, Eq, Structural)]
pub enum IdGenerator {
    /// Random trace ids of 128 bits and random span ids of 64 bits.
    Random,
}

/// The version of the agent's trace API.
#[derive(Clone, Copy, Debug, PartialEq, Eq, Structural)]
pub enum ApiVersion {
    Version03,
    Version05,
}

/// The settings of the export pipeline.
#[derive(Clone, Debug, PartialEq, Eq)]
pub struct ExporterConfig {
    pub service_name: String,
    /// The URL of the agent.
    pub agent_endpoint: String,
    pub api_version: ApiVersion,
    pub sampler: Sampler,
    pub id_generator: IdGenerator,
    /// After how many milliseconds an idle connection to the agent is closed.
    pub pool_idle_timeout_millis: u64,
}

/// The port of the agent when none is given.
pub const DEFAULT_AGENT_PORT: i32 = 8126;

/// The whole number that a text denotes: digits, with `+` or `-` before them
/// or without a sign. Any other text denotes none.
pub open spec fn parse_signed(s: Seq<char>) -> Option<int> {
    if s.len() > 0 && (s[0] == '+' || s[0] == '-') {
        if is_digits(s.skip(1)) {
            if s[0] == '-' {
                Some(-(digits_value(s.skip(1)) as int))
            } else {
                Some(digits_value(s.skip(1)) as int)
            }
        } else {
            None
        }
    } else if is_digits(s) {
        Some(digits_value(s) as int)
    } else {
        None
    }
}

/// The 32-bit number that a text denotes, if it denotes a whole number that
/// fits.
pub open spec fn parse_i32_text(s: Seq<char>) -> Option<i32> {
    match parse_signed(s) {
        Some(v) => if i32::MIN <= v <= i32::MAX {
            Some(v as i32)
        } else {
            None
        },
        None => None,
    }
}

/// The agent's port: the number that the given text denotes, or the default.
pub open spec fn port_of(port: Option<&str>) -> i32 {
    match port {
        Some(text) => match parse_i32_text(text@) {
            Some(p) => p,
            None => DEFAULT_AGENT_PORT,
        },
        None => DEFAULT_AGENT_PORT,
    }
}

/// The agent's host: the given one, or `localhost`.
pub open spec fn host_of(host: Option<&str>) -> Seq<char> {
    match host {
        Some(text) => text@,
        None => "localhost"@,
    }
}

/// The URL of the agent.
pub open spec fn endpoint_text(host: Option<&str>, port: Option<&str>) -> Seq<char> {
    "http://"@ + host_of(host) + seq![':'] + signed_text(port_of(port) as int)
}

/// Reads `s` as a 32-bit number in decimal, with or without a sign.
pub fn parse_i32(s: &str) -> (value: Option<i32>)
    ensures
        value == parse_i32_text(s@),
{
    if !s.is_ascii() {
        proof {
            let i = choose|i: int| 0 <= i < s@.len() && !('\0' <= #[trigger] s@[i] <= '\u{7f}');
            assert(!is_digit(s@[i]));
            if i >= 1 {
                assert(s@.skip(1)[i - 1] == s@[i]);
            }
        }
        return None;
    }
    proof {
        is_ascii_spec_bytes(s);
    }
    let bytes = s.as_bytes();
    let n = bytes.len();
    if n == 0 {
        return None;
    }
    let first = bytes[0];
    if first == 45 || first == 43 {
        let digits = s.substring_ascii(1, n);
        proof {
            assert(digits@ =~= s@.skip(1));
        }
        match parse_u64(digits) {
            Some(magnitude) => {
                if first == 45 {
                    if magnitude <= 2147483648 {
                        Some((0 - magnitude as i64) as i32)
                    } else {
                        None
                    }
                } else if magnitude <= 2147483647 {
                    Some(magnitude as i32)
                } else {
                    None
                }
            },
            None => None,
        }
    } else {
        match parse_u64(s) {
            Some(magnitude) => {
                if magnitude <= 2147483647 {
                    Some(magnitude as i32)
                } else {
                    None
                }
            },
            None => None,
        }
    }
}

/// The settings of the export pipeline, from the three values that the
/// environment may give: the service name, the agent's host and its port.
/// Without a service name there are no settings.
pub fn exporter_config(
    service_name: Option<&str>,
    agent_host: Option<&str>,
    agent_port: Option<&str>,
) -> (out: Result<ExporterConfig, ConfigError>)
    ensures
        match out {
            Ok(config) => {
                &&& service_name matches Some(name)
                &&& config.service_name@ == name@
                &&& config.agent_endpoint@ == endpoint_text(agent_host, agent_port)
                &&& config.api_version == ApiVersion::Version05
                &&& config.sampler == Sampler::AlwaysOn
                &&& config.id_generator == IdGenerator::Random
                &&& config.pool_idle_timeout_millis == 1
            },
            Err(e) => service_name is None && e == ConfigError::MissingConfiguration,
        },
{
    let name = match service_name {
        Some(name) => name,
        None => {
            return Err(ConfigError::MissingConfiguration);
        },
    };
    let host = match agent_host {
        Some(host) => host,
        None => "localhost",
    };
    let port = match agent_port {
        Some(text) => match parse_i32(text) {
            Some(p) => p,
            None => DEFAULT_AGENT_PORT,
        },
        None => DEFAULT_AGENT_PORT,
    };
    proof {
        reveal_strlit(":");
    }
    let mut endpoint = String::new();
    endpoint.append("http://");
    endpoint.append(host);
    endpoint.append(":");
    push_signed(&mut endpoint, port as i64);
    proof {
        assert(":"@ =~= seq![':']);
        assert(endpoint@ =~= endpoint_text(agent_host, agent_port));
    }
    Ok(
        ExporterConfig {
            service_name: name.to_owned(),
            agent_endpoint: endpoint,
            api_version: ApiVersion::Version05,
            sampler: Sampler::AlwaysOn,
            id_generator: IdGenerator::Random,
            pool_idle_timeout_millis: 1,
        },
    )
}

} // verus!
