//! Requests to renderd, the daemon that renders meta tiles, and the state
//! kept for rendering.

use vstd::prelude::*;
use crate::communication::{CommunicationError, CommunicationInventory};
use crate::config::{InvalidConfigError, ModuleConfig, RenderdConfig, StdDuration};
use crate::slippy::SlippyRequest;
use crate::tile::TileIdentity;
use crate::time::{Duration, Timestamp, MAX_DURATION_NANOS, NANOS_PER_SECOND};

verus! {

/// The version of the renderd protocol the module speaks.
pub const PROTOCOL_VERSION_THREE: i32 = 3;

/// The renderd command that asks for a meta tile to be rendered.
pub const COMMAND_RENDER: i32 = 1;

/// A message of the renderd protocol.
#[derive(Clone, Copy, Debug)]
pub struct RenderProtocol {
    pub ver: i32,
    pub cmd: i32,
    pub x: i32,
    pub y: i32,
    pub z: i32,
    pub xmlname: [u8; 41],
    pub mimetype: [u8; 41],
    pub options: [u8; 41],
}

/// `m` is a render command of protocol version three, at the origin, with empty names.
pub open spec fn is_blank_render_request(m: RenderProtocol) -> bool {
    &&& m.ver == PROTOCOL_VERSION_THREE
    &&& m.cmd == COMMAND_RENDER
    &&& m.x == 0 && m.y == 0 && m.z == 0
    &&& forall|i: int| 0 <= i < 41 ==> #[trigger] m.xmlname[i] == 0
    &&& forall|i: int| 0 <= i < 41 ==> #[trigger] m.mimetype[i] == 0
    &&& forall|i: int| 0 <= i < 41 ==> #[trigger] m.options[i] == 0
}

/// The render request for a slippy request: a render command of protocol
/// version three; its coordinates and names are left at zero.
pub fn create_request(_config: &RenderdConfig, _slippy: &SlippyRequest) -> (m: RenderProtocol)
    ensures
        is_blank_render_request(m),
{
    RenderProtocol {
        ver: PROTOCOL_VERSION_THREE,
        cmd: COMMAND_RENDER,
        x: 0,
        y: 0,
        z: 0,
        xmlname: [0u8; 41],
        mimetype: [0u8; 41],
        options: [0u8; 41],
    }
}

/// `chrono::Duration::from_std`: the date library's span for a span of the
/// standard library, given back as its whole seconds and the nanoseconds past
/// them. The library refuses spans beyond `i64::MAX` milliseconds and keeps
/// every other span exactly, which is what the contract claims.
#[verifier::external_body]
fn time_delta_from_std(d: &StdDuration) -> (r: Option<(i64, i32)>)
    requires
        d.nanos < NANOS_PER_SECOND,
    ensures
        r is Some <==> d.total_nanos() <= MAX_DURATION_NANOS,
        r matches Some(parts) ==> parts.0 * NANOS_PER_SECOND + parts.1 == d.total_nanos(),
{
    match chrono::Duration::from_std(std::time::Duration::new(d.secs, d.nanos)) {
        Ok(delta) => Some((delta.num_seconds(), delta.subsec_nanos())),
        Err(_) => None,
    }
}

/// Why a tile could not be rendered: the exchange with renderd failed.
#[derive(Clone, Debug, PartialEq, Eq)]
pub enum RenderError {
    Communication(CommunicationError),
}

/// Whether the data of a layer was imported, and when the import completed.
#[derive(Clone, Copy, Debug, PartialEq, Eq)]
pub enum DataImportStatus {
    NotImported,
    Imported(Timestamp),
}

/// Renders tiles through renderd and tells the state of the data import.
pub trait TileRenderer {
    /// Asks renderd for the tile `tile_id` with the message `request`, and
    /// puts its answer in `response`.
    fn render_tile<C: CommunicationInventory>(
        communication: &mut C,
        tile_id: TileIdentity,
        request: &RenderProtocol,
        response: &mut RenderProtocol,
    ) -> Result<(), RenderError>;

    /// Whether the data of the layer `layer_name` was imported, and when.
    fn get_data_import_status<C: CommunicationInventory>(
        communication: &mut C,
        config: &RenderdConfig,
        layer_name: &String,
    ) -> DataImportStatus;
}

/// The renderer of the module, as the module configuration sets it up.
pub struct RendererState {}

/// What the module keeps for rendering tiles: when the pending render
/// requests expire, how long a render may take and the buffer for replies.
pub struct TileRendererState {
    pub request_expiry_by_tile_id: Vec<(TileIdentity, Timestamp)>,
    pub render_timeout: Duration,
    pub response_buffer: Vec<u8>,
}

impl TileRendererState {
    /// The state for the configuration: no pending requests, an empty
    /// buffer and the configured render timeout, refused as an invalid
    /// duration range when it exceeds `i64::MAX` milliseconds.
    pub fn new(config: &ModuleConfig) -> (r: Result<TileRendererState, InvalidConfigError>)
        requires
            config.renderd.render_timeout.nanos < NANOS_PER_SECOND,
        ensures
            r is Ok <==> config.renderd.render_timeout.total_nanos() <= MAX_DURATION_NANOS,
            r matches Ok(s) ==> {
                &&& s.render_timeout.nanos == config.renderd.render_timeout.total_nanos()
                &&& s.render_timeout.wf()
                &&& s.request_expiry_by_tile_id@.len() == 0
                &&& s.response_buffer@.len() == 0
            },
            r matches Err(e) ==> e.entry@ == "render_timeout"@ && e.reason@ == "Invalid duration range"@,
    {
        match time_delta_from_std(&config.renderd.render_timeout) {
            Some((secs, nanos)) => {
                let render_timeout = Duration { nanos: (secs as i128) * NANOS_PER_SECOND + (nanos as i128) };
                Ok(TileRendererState {
                    request_expiry_by_tile_id: Vec::new(),
                    render_timeout,
                    response_buffer: Vec::new(),
                })
            },
            None => Err(InvalidConfigError {
                entry: String::from_str("render_timeout"),
                reason: String::from_str("Invalid duration range"),
            }),
        }
    }
}

} // verus!
