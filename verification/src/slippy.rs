//! Requests and responses of the slippy map protocol, and the outcomes of the
//! read, handle and write stages a request goes through.

use vstd::prelude::*;
use crate::config::ZOOM_LEVEL_COUNT;
use crate::meta_tile::{InvalidMetaTileError, TileOffsetOutOfBoundsError};
use crate::tile::{MediaType, TileAge, TileRef, TileSource};
use crate::time::Timestamp;

verus! {

/// What every request carries besides its body: the layer it is for.
#[derive(Clone, Debug, PartialEq, Eq)]
pub struct Header {
    pub layer: String,
}

/// A tile request of the form `/layer/z/x/y.extension[/option]`.
#[derive(Clone, Debug, PartialEq, Eq)]
pub struct ServeTileRequestV2 {
    pub x: i32,
    pub y: i32,
    pub z: u32,
    pub extension: String,
    pub option: Option<String>,
}

/// A tile request of the form `/layer/parameter/z/x/y.extension[/option]`.
#[derive(Clone, Debug, PartialEq, Eq)]
pub struct ServeTileRequestV3 {
    pub parameter: String,
    pub x: i32,
    pub y: i32,
    pub z: u32,
    pub extension: String,
    pub option: Option<String>,
}

/// What a request asks for.
#[derive(Clone, Debug, PartialEq, Eq)]
pub enum BodyVariant {
    DescribeLayer,
    ReportStatistics,
    ServeTileV2(ServeTileRequestV2),
    ServeTileV3(ServeTileRequestV3),
}

/// A request of the slippy map protocol.
#[derive(Clone, Debug, PartialEq, Eq)]
pub struct SlippyRequest {
    pub header: Header,
    pub body: BodyVariant,
}

/// The zoom level a request asks a tile at, if it asks for a tile.
pub open spec fn requested_zoom(body: BodyVariant) -> Option<u32> {
    match body {
        BodyVariant::ServeTileV2(r) => Some(r.z),
        BodyVariant::ServeTileV3(r) => Some(r.z),
        _ => None,
    }
}

/// The zoom level a request asks a tile at, if it asks for a tile.
pub fn zoom_of(body: &BodyVariant) -> (z: Option<u32>)
    ensures
        z == requested_zoom(*body),
{
    match body {
        BodyVariant::ServeTileV2(r) => Some(r.z),
        BodyVariant::ServeTileV3(r) => Some(r.z),
        _ => None,
    }
}

/// The response header: the media type of the body.
#[derive(Clone, Debug, PartialEq, Eq)]
pub struct ResponseHeader {
    pub mime_type: MediaType,
}

/// A TileJSON description of a layer.
#[derive(Clone, Debug, PartialEq, Eq)]
pub struct Description {
    pub tilejson: String,
    pub schema: String,
    pub name: String,
    pub description: String,
    pub attribution: String,
    pub minzoom: u32,
    pub maxzoom: u32,
    pub tiles: Vec<String>,
}

/// A count kept for one layer.
#[derive(Clone, Debug, PartialEq, Eq)]
pub struct LayerCount {
    pub layer: String,
    pub count: u64,
}

/// The statistics report of the server.
#[derive(Clone, Debug, PartialEq, Eq)]
pub struct Statistics {
    pub number_response_200: u64,
    pub number_response_304: u64,
    pub number_response_404: u64,
    pub number_response_503: u64,
    pub number_response_5xx: u64,
    pub number_response_other: u64,
    pub number_fresh_cache: u64,
    pub number_old_cache: u64,
    pub number_very_old_cache: u64,
    pub number_fresh_render: u64,
    pub number_old_render: u64,
    pub number_very_old_render: u64,
    pub number_successful_response_by_zoom: Vec<u64>,
    pub number_tile_response_by_zoom: Vec<u64>,
    pub duration_tile_response_by_zoom: Vec<u64>,
    pub total_number_tile_response: u64,
    pub total_duration_tile_response: u64,
    pub number_response_200_by_layer: Vec<LayerCount>,
    pub number_response_404_by_layer: Vec<LayerCount>,
}

/// A served tile, where it came from and how old it is.
#[derive(Debug)]
pub struct TileResponse {
    pub source: TileSource,
    pub age: TileAge,
    pub tile_ref: TileRef,
}

/// What a response carries.
#[derive(Debug)]
pub enum ResponseBody {
    Description(Description),
    Statistics(Statistics),
    Tile(TileResponse),
}

/// A response of the slippy map protocol.
#[derive(Debug)]
pub struct SlippyResponse {
    pub header: ResponseHeader,
    pub body: ResponseBody,
}

/// The HTTP response that was written for a request.
#[derive(Clone, Debug, PartialEq, Eq)]
pub struct HttpResponse {
    pub status_code: u16,
    pub bytes_written: usize,
    pub http_headers: Vec<(String, String)>,
}

/// Why a request could not be read.
#[derive(Clone, Debug, PartialEq, Eq)]
pub enum ReadError {
    /// A request parameter with an unusable value.
    InvalidParameter { param: String, value: String, reason: String },
    /// The request record could not be read.
    Io(String),
}

/// Why a tile could not be read from the store.
#[derive(Clone, Debug, PartialEq, Eq)]
pub enum TileReadError {
    /// No meta tile file at this path.
    NotFound(String),
    InvalidMetaTile(InvalidMetaTileError),
    TileOffsetOutOfBounds(TileOffsetOutOfBoundsError),
    Io(String),
}

/// Why a request could not be handled.
#[derive(Clone, Debug, PartialEq, Eq)]
pub enum HandleError {
    TileRead(TileReadError),
}

/// An HTTP write that failed, with the error code of the server.
#[derive(Clone, Copy, Debug, PartialEq, Eq, Structural)]
pub struct ResponseWriteError {
    pub error_code: i32,
}

/// Why a response could not be written.
#[derive(Clone, Debug, PartialEq, Eq)]
pub enum WriteError {
    ResponseWrite(ResponseWriteError),
    UnsupportedMediaType(MediaType),
}

/// The outcome of reading a request.
#[derive(Debug, PartialEq, Eq)]
pub enum ReadOutcome {
    Processed(Result<SlippyRequest, ReadError>),
    Ignored,
}

/// The outcome of handling a request, with when the handling started and ended.
#[derive(Debug)]
pub struct HandleRequestResult {
    pub before_timestamp: Timestamp,
    pub after_timestamp: Timestamp,
    pub result: Result<SlippyResponse, HandleError>,
}

/// The outcome of handling a request.
#[derive(Debug)]
pub enum HandleOutcome {
    Processed(HandleRequestResult),
    Ignored,
}

/// The outcome of writing a response.
#[derive(Debug, PartialEq, Eq)]
pub enum WriteOutcome {
    Processed(Result<HttpResponse, WriteError>),
    Ignored,
}

/// Zero counters, one per zoom level the server handles.
pub open spec fn zero_by_zoom() -> Seq<u64> {
    Seq::new(ZOOM_LEVEL_COUNT as nat, |i: int| 0u64)
}

impl Statistics {
    /// A report of nothing: every count zero, one zero per zoom level, and no layers.
    pub fn new() -> (s: Statistics)
        ensures
            s.number_response_200 == 0,
            s.number_response_304 == 0,
            s.number_response_404 == 0,
            s.number_response_503 == 0,
            s.number_response_5xx == 0,
            s.number_response_other == 0,
            s.number_fresh_cache == 0,
            s.number_old_cache == 0,
            s.number_very_old_cache == 0,
            s.number_fresh_render == 0,
            s.number_old_render == 0,
            s.number_very_old_render == 0,
            s.number_successful_response_by_zoom@ == zero_by_zoom(),
            s.number_tile_response_by_zoom@ == zero_by_zoom(),
            s.duration_tile_response_by_zoom@ == zero_by_zoom(),
            s.total_number_tile_response == 0,
            s.total_duration_tile_response == 0,
            s.number_response_200_by_layer@.len() == 0,
            s.number_response_404_by_layer@.len() == 0,
    {
        let s = Statistics {
            number_response_200: 0,
            number_response_304: 0,
            number_response_404: 0,
            number_response_503: 0,
            number_response_5xx: 0,
            number_response_other: 0,
            number_fresh_cache: 0,
            number_old_cache: 0,
            number_very_old_cache: 0,
            number_fresh_render: 0,
            number_old_render: 0,
            number_very_old_render: 0,
            number_successful_response_by_zoom: vec![0u64; ZOOM_LEVEL_COUNT],
            number_tile_response_by_zoom: vec![0u64; ZOOM_LEVEL_COUNT],
            duration_tile_response_by_zoom: vec![0u64; ZOOM_LEVEL_COUNT],
            total_number_tile_response: 0,
            total_duration_tile_response: 0,
            number_response_200_by_layer: Vec::new(),
            number_response_404_by_layer: Vec::new(),
        };
        assert(s.number_successful_response_by_zoom@ =~= zero_by_zoom());
        assert(s.number_tile_response_by_zoom@ =~= zero_by_zoom());
        assert(s.duration_tile_response_by_zoom@ =~= zero_by_zoom());
        s
    }
}

impl HandleOutcome {
    /// Whether no handler took the request.
    pub fn is_ignored(&self) -> (b: bool)
        ensures
            b == (*self is Ignored),
    {
        match self {
            HandleOutcome::Ignored => true,
            _ => false,
        }
    }
}

} // verus!
