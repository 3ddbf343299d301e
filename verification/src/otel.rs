//! Configuration and errors of the OpenTelemetry span exporter set-up.
use vstd::prelude::*;

use crate::text::concat;

verus! {

/// Error returned when the OTLP exporter cannot be built.
#[derive(Debug, Clone, PartialEq, Eq)]
pub struct OtelInitError {
    message: String,
}

impl OtelInitError {
    pub closed spec fn spec_message(&self) -> Seq<char> {
        self.message@
    }

    /// An error carrying `message`.
    pub fn new(message: &str) -> (r: Self)
        ensures
            r.spec_message() == message@,
    {
        OtelInitError { message: message.to_owned() }
    }

    /// The error's text.
    pub fn message(&self) -> (r: &str)
        ensures
            r@ == self.spec_message(),
    {
        self.message.as_str()
    }
}

/// The error for an exporter that failed to build, with the exporter's own
/// error text.
pub fn exporter_build_error(cause: &str) -> (r: OtelInitError)
    ensures
        r.spec_message() == "failed to build OTLP exporter: "@ + cause@,
{
    let text = concat("failed to build OTLP exporter: ", cause);
    OtelInitError { message: text }
}

/// Configuration of the exporter set-up.
#[derive(Debug, Clone)]
pub struct OtelInitConfig {
    /// Service name reported to the backend.
    pub service_name: String,
    /// OTLP gRPC endpoint; [`default_endpoint`] when absent.
    pub endpoint: Option<String>,
}

pub open spec fn default_service_name() -> Seq<char> {
    "swink-agent"@
}

pub open spec fn default_endpoint_spec() -> Seq<char> {
    "http://localhost:4317"@
}

impl Default for OtelInitConfig {
    fn default() -> (r: Self)
        ensures
            r.service_name@ == default_service_name(),
            r.endpoint is None,
    {
        OtelInitConfig { service_name: "swink-agent".to_string(), endpoint: None }
    }
}

/// The endpoint used when the configuration names none.
pub fn default_endpoint() -> (r: String)
    ensures
        r@ == default_endpoint_spec(),
{
    "http://localhost:4317".to_string()
}

/// The endpoint the exporter is built for.
pub fn resolved_endpoint(config: &OtelInitConfig) -> (r: String)
    ensures
        r@ == match config.endpoint {
            Some(e) => e@,
            None => default_endpoint_spec(),
        },
{
    match &config.endpoint {
        Some(e) => e.clone(),
        None => default_endpoint(),
    }
}

} // verus!
