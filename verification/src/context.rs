//! What the stages of a request are given besides the request: the module
//! configuration, the host, the request record and the services.

use vstd::prelude::*;
use crate::config::ModuleConfig;
use crate::communication::CommunicationInventory;
use crate::storage::TileStorage;
use crate::telemetry::inventory::TelemetryState;

verus! {

/// The module configuration and the virtual host that serves the request.
pub struct HostContext<'c> {
    pub module_config: &'c ModuleConfig,
    pub host_name: String,
}

/// The module configuration, the virtual host and what the request record
/// holds: the URI asked for and when the request was received, in
/// microseconds after the Unix epoch.
pub struct RequestContext<'c> {
    pub module_config: &'c ModuleConfig,
    pub host_name: String,
    pub uri: String,
    pub request_time: i64,
}

impl<'c> RequestContext<'c> {
    /// The context of a request for `uri` received at `request_time` by `host_name`.
    pub fn new(module_config: &'c ModuleConfig, host_name: String, uri: String, request_time: i64) -> (c: RequestContext<'c>)
        ensures
            *c.module_config == *module_config,
            c.host_name == host_name,
            c.uri == uri,
            c.request_time == request_time,
    {
        RequestContext { module_config, host_name, uri, request_time }
    }
}

/// What reading a request is given: the module configuration and the host.
pub struct ReadContext<'c> {
    pub module_config: &'c ModuleConfig,
    pub host_name: String,
}

/// The channels and the stores a handler may use.
pub struct IOContext<'c, C: CommunicationInventory, S: TileStorage> {
    pub communication: &'c mut C,
    pub storage: &'c mut S,
}

impl<'c, C: CommunicationInventory, S: TileStorage> IOContext<'c, C, S> {
    /// The context of the given channels and store.
    pub fn new(communication: &'c mut C, storage: &'c mut S) -> (c: IOContext<'c, C, S>)
        ensures
            *c.communication == *old(communication),
            *c.storage == *old(storage),
            *final(c.communication) == *final(communication),
            *final(c.storage) == *final(storage),
    {
        IOContext { communication, storage }
    }
}

/// The services a handler may use: the telemetry.
pub struct ServicesContext<'c> {
    pub telemetry: &'c TelemetryState,
}

} // verus!
