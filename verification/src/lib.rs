//! Building blocks that let a service traced with OpenTelemetry report to
//! Datadog: identifiers are brought into Datadog's 64-bit space, log lines carry
//! the identifiers of the span they were written in, and trace context crosses
//! process boundaries in a single header.
pub mod codec;
pub mod decimal;
pub mod headers;
pub mod text;
pub mod pairs;
pub mod propagator;
pub mod formatter;
pub mod middleware;
pub mod shutdown;
pub mod init;
pub mod tracer;
pub mod writer;
