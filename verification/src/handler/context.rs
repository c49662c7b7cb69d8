//! What a handler is given besides the request: the module configuration and
//! the telemetry of the server.

use vstd::prelude::*;
use crate::config::ModuleConfig;
use crate::telemetry::inventory::TelemetryState;

verus! {

/// The module configuration and the telemetry, as a handler sees them.
pub struct HandleContext<'c> {
    pub module_config: &'c ModuleConfig,
    pub telemetry: &'c TelemetryState,
}

impl<'c> HandleContext<'c> {
    /// The context of one request.
    pub fn new(module_config: &'c ModuleConfig, telemetry: &'c TelemetryState) -> (c: HandleContext<'c>)
        ensures
            *c.module_config == *module_config,
            *c.telemetry == *telemetry,
    {
        HandleContext { module_config, telemetry }
    }
}

} // verus!
