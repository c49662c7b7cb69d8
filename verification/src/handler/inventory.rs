//! All the handlers of the module, and the observers of their outcomes.

use vstd::prelude::*;
use crate::config::{InvalidConfigError, ModuleConfig};
use crate::handler::context::HandleContext;
use crate::handler::description::{describes, layer_config, DescriptionHandler};
use crate::handler::statistics::{can_report, reports, StatisticsHandlerState};
use crate::handler::tile::{asks_for_tile, identifies, tile_result_of, TileHandlerState};
use crate::slippy::{HandleOutcome, ReadOutcome, ResponseBody, SlippyRequest};
use crate::storage::TileStorage;
use crate::telemetry::inventory::TelemetryState;
use crate::tile::MediaType;

verus! {

/// The handlers of the module: of descriptions, of statistics and of tiles.
pub struct HandlerState {
    pub description: DescriptionHandler,
    pub statistics: StatisticsHandlerState,
    pub tile: TileHandlerState,
}

impl HandlerState {
    /// Every handler, for the configuration.
    pub fn new(config: &ModuleConfig) -> (r: Result<HandlerState, InvalidConfigError>)
        ensures
            r is Ok,
    {
        let statistics = match StatisticsHandlerState::new(config) {
            Ok(s) => s,
            Err(e) => return Err(e),
        };
        let tile = match TileHandlerState::new(config) {
            Ok(t) => t,
            Err(e) => return Err(e),
        };
        Ok(HandlerState { description: DescriptionHandler {}, statistics, tile })
    }

    /// Hands the request to the handlers in turn, description, statistics
    /// and tiles, until one takes it; every request is taken by the handler
    /// of what it asks for.
    pub fn handle<S: TileStorage>(&mut self, context: &HandleContext, store: &mut S, request: &SlippyRequest) -> (outcome: HandleOutcome)
        requires
            request.body is DescribeLayer ==> context.module_config.has_layer(request.header.layer@),
            request.body is ReportStatistics
                ==> can_report(&context.telemetry.responses(), &context.telemetry.tiles_handled()),
        ensures
            outcome matches HandleOutcome::Processed(r) && r.before_timestamp.wf() && r.after_timestamp.wf(),
            request.body is DescribeLayer ==> (outcome matches HandleOutcome::Processed(r) && {
                &&& r.result matches Ok(response)
                &&& response.header.mime_type == MediaType::ApplicationJson
                &&& response.body matches ResponseBody::Description(d)
                &&& describes(d, layer_config(*context.module_config, request.header.layer@))
            }),
            request.body is ReportStatistics ==> (outcome matches HandleOutcome::Processed(r) && {
                &&& r.result matches Ok(response)
                &&& response.header.mime_type == MediaType::TextPlain
                &&& response.body matches ResponseBody::Statistics(s)
                &&& reports(s, &context.telemetry.responses(), &context.telemetry.tiles_handled())
            }),
            !asks_for_tile(*request) ==> *final(store) == *old(store),
            asks_for_tile(*request) ==> {
                &&& final(store).reads().len() == old(store).reads().len() + 1
                &&& final(store).reads().drop_last() == old(store).reads()
                &&& identifies(*request, final(store).reads().last().0)
                &&& outcome matches HandleOutcome::Processed(r)
                &&& tile_result_of(final(store).reads().last().1, r.result)
            },
    {
        let outcome = self.description.handle(context, request);
        if !outcome.is_ignored() {
            return outcome;
        }
        let outcome = self.statistics.handle(context, request);
        if !outcome.is_ignored() {
            return outcome;
        }
        self.tile.handle(context, store, request)
    }
}

/// Hands the outcome of handling a request to the observers of that stage.
pub struct HandlerObserverInventory {}

impl HandlerObserverInventory {
    /// Hands the outcome of handling a request to the handle observers of the telemetry.
    pub fn on_handle(telemetry: &mut TelemetryState, read_outcome: &ReadOutcome, handle_outcome: &HandleOutcome)
        requires
            old(telemetry).handles() < u32::MAX,
        ensures
            final(telemetry).handles() == old(telemetry).handles() + 1,
            final(telemetry).reads() == old(telemetry).reads(),
            final(telemetry).writes() == old(telemetry).writes(),
            final(telemetry).responses() == old(telemetry).responses(),
            final(telemetry).tiles_handled() == old(telemetry).tiles_handled(),
    {
        telemetry.on_handle(read_outcome, handle_outcome);
    }
}

} // verus!
