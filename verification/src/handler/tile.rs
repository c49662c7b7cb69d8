//! The tiles: a tile request is answered with the tile read from the store.

use vstd::prelude::*;
use crate::config::{InvalidConfigError, ModuleConfig};
use crate::handler::context::HandleContext;
use crate::slippy::{
    BodyVariant, HandleError, HandleOutcome, HandleRequestResult, ResponseBody, ResponseHeader,
    SlippyRequest, SlippyResponse, TileReadError, TileResponse,
};
use crate::storage::TileStorage;
use crate::tile::{TileAge, TileIdentity, TileRef, TileSource};
use crate::time::Timestamp;

verus! {

/// `id` is the tile that `request` asks for.
pub open spec fn identifies(request: SlippyRequest, id: TileIdentity) -> bool {
    &&& id.layer@ == request.header.layer@
    &&& match request.body {
        BodyVariant::ServeTileV2(body) => id.x == body.x && id.y == body.y && id.z == body.z,
        BodyVariant::ServeTileV3(body) => id.x == body.x && id.y == body.y && id.z == body.z,
        _ => false,
    }
}

/// Whether a request asks for a tile.
pub open spec fn asks_for_tile(request: SlippyRequest) -> bool {
    request.body is ServeTileV2 || request.body is ServeTileV3
}

/// The result of handling a tile request, given what reading the tile gave.
pub open spec fn tile_result_of(read: Result<TileRef, TileReadError>, r: Result<SlippyResponse, HandleError>) -> bool {
    match read {
        Ok(tile_ref) => {
            &&& r matches Ok(response)
            &&& response.header.mime_type == tile_ref.media_type
            &&& response.body matches ResponseBody::Tile(t)
            &&& t.source == TileSource::Cache
            &&& t.age == TileAge::Fresh
            &&& t.tile_ref == tile_ref
        },
        Err(e) => r == Err::<SlippyResponse, HandleError>(HandleError::TileRead(e)),
    }
}

/// Answers the requests for tiles.
pub struct TileHandlerState {}

impl TileHandlerState {
    /// A handler of tile requests; every configuration is accepted.
    pub fn new(_config: &ModuleConfig) -> (r: Result<TileHandlerState, InvalidConfigError>)
        ensures
            r is Ok,
    {
        Ok(TileHandlerState {})
    }

    /// The tile a request asks for, if it asks for one.
    pub fn tile_identity(request: &SlippyRequest) -> (r: Option<TileIdentity>)
        ensures
            r is None <==> !asks_for_tile(*request),
            r matches Some(id) ==> identifies(*request, id),
    {
        match &request.body {
            BodyVariant::ServeTileV2(body) => Some(
                TileIdentity { x: body.x, y: body.y, z: body.z, layer: request.header.layer.clone() },
            ),
            BodyVariant::ServeTileV3(body) => Some(
                TileIdentity { x: body.x, y: body.y, z: body.z, layer: request.header.layer.clone() },
            ),
            _ => None,
        }
    }

    /// The response to a tile request, given what reading the tile gave: the
    /// tile, served from the cache as fresh, in its own media type; or the
    /// read error.
    pub fn tile_result(read: Result<TileRef, TileReadError>) -> (r: Result<SlippyResponse, HandleError>)
        ensures
            tile_result_of(read, r),
    {
        match read {
            Ok(tile_ref) => {
                let mime_type = tile_ref.media_type.duplicate();
                Ok(SlippyResponse {
                    header: ResponseHeader { mime_type },
                    body: ResponseBody::Tile(TileResponse {
                        source: TileSource::Cache,
                        age: TileAge::Fresh,
                        tile_ref,
                    }),
                })
            },
            Err(e) => Err(HandleError::TileRead(e)),
        }
    }

    /// Reads the tile a tile request asks for from `store`, once, and answers
    /// with what the store gave back, as `tile_result` makes it; leaves every
    /// other request, and the store, to another handler.
    pub fn handle<S: TileStorage>(&mut self, context: &HandleContext, store: &mut S, request: &SlippyRequest) -> (outcome: HandleOutcome)
        ensures
            !asks_for_tile(*request) ==> outcome is Ignored && *final(store) == *old(store),
            asks_for_tile(*request) ==> {
                &&& final(store).reads().len() == old(store).reads().len() + 1
                &&& final(store).reads().drop_last() == old(store).reads()
                &&& identifies(*request, final(store).reads().last().0)
                &&& outcome matches HandleOutcome::Processed(r)
                &&& r.before_timestamp.wf()
                &&& r.after_timestamp.wf()
                &&& tile_result_of(final(store).reads().last().1, r.result)
            },
    {
        let before_timestamp = Timestamp::now();
        let tile_id = match TileHandlerState::tile_identity(request) {
            Some(id) => id,
            None => return HandleOutcome::Ignored,
        };
        let read = store.read_tile(context, &tile_id);
        let result = TileHandlerState::tile_result(read);
        let after_timestamp = Timestamp::now();
        assert(store.reads().drop_last() =~= old(store).reads());
        HandleOutcome::Processed(HandleRequestResult { before_timestamp, after_timestamp, result })
    }
}

} // verus!
