//! What the telemetry tells: metrics of the responses, of the tiles handled,
//! of the cache and of the renderer.

use vstd::prelude::*;
use crate::tile::{TileAge, TileSource};

verus! {

/// Counts of the responses written, by status code, zoom level and layer.
pub trait ResponseMetrics {
    /// The metrics are well formed.
    spec fn metrics_wf(&self) -> bool;

    /// The status codes responded with.
    spec fn status_codes_view(&self) -> Seq<u16>;

    /// The first and the past-the-end zoom level the metrics cover.
    spec fn zoom_range_view(&self) -> (u32, u32);

    /// The layers responded for.
    spec fn layers_view(&self) -> Seq<Seq<char>>;

    /// Responses with status `code`.
    spec fn response_count_by_status_code(&self, code: u16) -> int;

    /// Responses at zoom level `zoom`.
    spec fn response_count_by_zoom_level(&self, zoom: u32) -> int;

    /// Responses with status `code` at zoom level `zoom`.
    spec fn response_count_by_status_code_and_zoom_level(&self, code: u16, zoom: u32) -> int;

    /// Tile responses.
    spec fn total_tile_response_count(&self) -> int;

    /// Whole seconds spent on tile responses; `None` when adding them up leaves the duration range.
    spec fn total_tile_response_seconds(&self) -> Option<int>;

    /// Tile responses at zoom level `zoom`.
    spec fn tile_response_count_by_zoom_level(&self, zoom: u32) -> int;

    /// Seconds spent on tile responses at zoom level `zoom`.
    spec fn tile_response_seconds_by_zoom_level(&self, zoom: u32) -> int;

    /// Responses with status `code` for the layer named `layer`.
    spec fn response_count_by_layer_and_status_code(&self, layer: Seq<char>, code: u16) -> int;

    /// The status codes responded with, each once.
    fn iterate_status_codes_responded(&self) -> (codes: Vec<u16>)
        requires
            self.metrics_wf(),
        ensures
            codes@ == self.status_codes_view(),
            codes@.no_duplicates(),
    ;

    /// The zoom levels the metrics cover.
    fn iterate_valid_zoom_levels(&self) -> (r: std::ops::Range<u32>)
        requires
            self.metrics_wf(),
        ensures
            (r.start, r.end) == self.zoom_range_view(),
    ;

    /// The layers responded for, each once.
    fn iterate_layers_responded(&self) -> (layers: Vec<String>)
        requires
            self.metrics_wf(),
        ensures
            layers@.len() == self.layers_view().len(),
            forall|i: int| 0 <= i < layers@.len() ==> #[trigger] layers@[i]@ == self.layers_view()[i],
            self.layers_view().no_duplicates(),
    ;

    /// Responses with status `status_code`.
    fn count_response_by_status_code(&self, status_code: u16) -> (total: u64)
        requires
            self.metrics_wf(),
            self.response_count_by_status_code(status_code) <= u64::MAX,
        ensures
            total == self.response_count_by_status_code(status_code),
    ;

    /// Responses at zoom level `zoom`.
    fn count_response_by_zoom_level(&self, zoom: u32) -> (total: u64)
        requires
            self.metrics_wf(),
            self.response_count_by_zoom_level(zoom) <= u64::MAX,
        ensures
            total == self.response_count_by_zoom_level(zoom),
    ;

    /// Responses with status `status_code` at zoom level `zoom`.
    fn count_response_by_status_code_and_zoom_level(&self, status_code: u16, zoom: u32) -> (total: u64)
        requires
            self.metrics_wf(),
            self.response_count_by_status_code_and_zoom_level(status_code, zoom) <= u64::MAX,
        ensures
            total == self.response_count_by_status_code_and_zoom_level(status_code, zoom),
    ;

    /// Tile responses.
    fn count_total_tile_response(&self) -> (total: u64)
        requires
            self.metrics_wf(),
            self.total_tile_response_count() <= u64::MAX,
        ensures
            total == self.total_tile_response_count(),
    ;

    /// Whole seconds spent on tile responses, as an unsigned count.
    fn tally_total_tile_response_duration(&self) -> (secs: u64)
        requires
            self.metrics_wf(),
            self.total_tile_response_seconds() is Some,
        ensures
            secs == self.total_tile_response_seconds().unwrap() as u64,
    ;

    /// Tile responses at zoom level `zoom`.
    fn count_tile_response_by_zoom_level(&self, zoom: u32) -> (total: u64)
        requires
            self.metrics_wf(),
            self.tile_response_count_by_zoom_level(zoom) <= u64::MAX,
        ensures
            total == self.tile_response_count_by_zoom_level(zoom),
    ;

    /// Whole seconds spent on tile responses at zoom level `zoom`.
    fn tally_tile_response_duration_by_zoom_level(&self, zoom: u32) -> (secs: u64)
        requires
            self.metrics_wf(),
            self.tile_response_seconds_by_zoom_level(zoom) <= u64::MAX,
        ensures
            secs == self.tile_response_seconds_by_zoom_level(zoom),
    ;

    /// Responses with status `status_code` for the layer named `layer`.
    fn count_response_by_layer_and_status_code(&self, layer: &String, status_code: u16) -> (total: u64)
        requires
            self.metrics_wf(),
            self.response_count_by_layer_and_status_code(layer@, status_code) <= u64::MAX,
        ensures
            total == self.response_count_by_layer_and_status_code(layer@, status_code),
    ;
}

/// Counts of the tiles handled, by source and age.
pub trait TileHandlingMetrics {
    /// The metrics are well formed.
    spec fn metrics_wf(&self) -> bool;

    /// Tiles handled from `source` of age `age`.
    spec fn handled_tile_count(&self, source: TileSource, age: TileAge) -> int;

    /// Whole seconds spent handling tiles from `source` of age `age`; `None`
    /// when adding them up leaves the duration range.
    spec fn handled_tile_seconds(&self, source: TileSource, age: TileAge) -> Option<int>;

    /// Every age a cached tile can have.
    fn iterate_valid_cache_ages(&self) -> (ages: Vec<TileAge>)
        ensures
            ages@ == seq![TileAge::Fresh, TileAge::Old, TileAge::VeryOld],
    ;

    /// Every age a rendered tile can have.
    fn iterate_valid_render_ages(&self) -> (ages: Vec<TileAge>)
        ensures
            ages@ == seq![TileAge::Fresh, TileAge::Old, TileAge::VeryOld],
    ;

    /// Tiles handled from `source` of age `age`.
    fn count_handled_tile_by_source_and_age(&self, source: &TileSource, age: &TileAge) -> (total: u64)
        requires
            self.metrics_wf(),
            self.handled_tile_count(*source, *age) <= u64::MAX,
        ensures
            total == self.handled_tile_count(*source, *age),
    ;

    /// Whole seconds spent handling tiles from `source` of age `age`, as an unsigned count.
    fn tally_tile_handle_duration_by_source_and_age(&self, source: &TileSource, age: &TileAge) -> (secs: u64)
        requires
            self.metrics_wf(),
            self.handled_tile_seconds(*source, *age) is Some,
        ensures
            secs == self.handled_tile_seconds(*source, *age).unwrap() as u64,
    ;
}

/// Counts of the tiles served from the cache, by age.
pub trait CacheMetrics {
    /// The metrics are well formed.
    spec fn metrics_wf(&self) -> bool;

    /// Tiles of age `age` served from the cache.
    spec fn cache_hit_count(&self, age: TileAge) -> int;

    /// Every age a cached tile can have.
    fn iterate_valid_cache_ages(&self) -> (ages: Vec<TileAge>)
        ensures
            ages@ == seq![TileAge::Fresh, TileAge::Old, TileAge::VeryOld],
    ;

    /// Tiles of age `age` served from the cache.
    fn count_tile_cache_hit_by_age(&self, age: &TileAge) -> (count: u64)
        requires
            self.metrics_wf(),
        ensures
            count == self.cache_hit_count(*age),
    ;
}

/// Counts of the tiles rendered, by age.
pub trait RenderMetrics {
    /// The metrics are well formed.
    spec fn metrics_wf(&self) -> bool;

    /// Tiles of age `age` rendered.
    spec fn render_count(&self, age: TileAge) -> int;

    /// Every age a rendered tile can have.
    fn iterate_valid_render_ages(&self) -> (ages: Vec<TileAge>)
        ensures
            ages@ == seq![TileAge::Fresh, TileAge::Old, TileAge::VeryOld],
    ;

    /// Tiles of age `age` rendered.
    fn count_tile_renders_by_age(&self, age: &TileAge) -> (count: u64)
        requires
            self.metrics_wf(),
        ensures
            count == self.render_count(*age),
    ;
}

} // verus!
