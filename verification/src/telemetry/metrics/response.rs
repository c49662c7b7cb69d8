//! Response analysis over all layers at once: HTTP responses by status code
//! and zoom level and tile responses by zoom level, counted as responses are
//! written, and the time spent handling tiles by zoom level and the tiles
//! handled by source and age, counted as requests are handled.

use vstd::prelude::*;
use crate::config::ZOOM_LEVEL_COUNT;
use crate::slippy::{
    requested_zoom, zoom_of, HandleOutcome, HttpResponse, ReadOutcome, ResponseBody, SlippyRequest,
    TileResponse, WriteOutcome,
};
use crate::sums::{all_wf, fold_durations, sum_counters, sum_durations, sum_u64};
use crate::telemetry::interface::{CacheMetrics, RenderMetrics, ResponseMetrics};
use crate::telemetry::metric_table::{cell_index, TileMetricTable, TILE_METRIC_CELLS};
use crate::telemetry::observer::{HandleRequestObserver, WriteResponseObserver};
use crate::telemetry::response::{
    add_http_response, empty_layer, ensure_row, has_row, layer_code_zoom_total, layer_seconds_at_zoom,
    layer_status_total, layer_tile_at_zoom, layer_wf, layer_zoom_total, new_zero_counts, LayerResponseAnalysis,
    LayerResponseView, StatusRow, StatusRowView,
};
use crate::tile::{all_tile_ages, TileAge, TileSource};
use crate::time::{duration_in_range, whole_seconds, Duration};

verus! {

/// What is known of the responses: the responses and tile responses by
/// zoom level, the time spent handling tiles by zoom level, and the tiles
/// handled by source and age.
pub struct ZoomResponseView {
    pub layer: LayerResponseView,
    pub handle_counts: Seq<u64>,
}

/// A well-formed analysis.
pub open spec fn zoom_view_wf(v: ZoomResponseView) -> bool {
    layer_wf(v.layer) && v.handle_counts.len() == TILE_METRIC_CELLS
}

/// The layer with the time `d` of handling a tile at zoom level `z` added.
pub open spec fn accrue_handle(l: LayerResponseView, z: int, d: Duration) -> LayerResponseView {
    LayerResponseView {
        tile_durations: l.tile_durations.update(z, Duration { nanos: (l.tile_durations[z].nanos + d.nanos) as i128 }),
        ..l
    }
}

/// The layer with one more tile response at zoom level `z`.
pub open spec fn count_tile_write(l: LayerResponseView, z: int) -> LayerResponseView {
    LayerResponseView { tile_counts: l.tile_counts.update(z, (l.tile_counts[z] + 1) as u64), ..l }
}

/// The tile request, the tile and the handling time, when a tile request was
/// read and handled into a tile.
pub open spec fn handled_tile_event(read: ReadOutcome, handle: HandleOutcome) -> Option<(SlippyRequest, TileResponse, Duration)> {
    match (read, handle) {
        (ReadOutcome::Processed(Ok(request)), HandleOutcome::Processed(r)) => match r.result {
            Ok(response) => match response.body {
                ResponseBody::Tile(t) => Some(
                    (request, t, Duration { nanos: (r.after_timestamp.nanos - r.before_timestamp.nanos) as i128 }),
                ),
                _ => None,
            },
            Err(_) => None,
        },
        _ => None,
    }
}

/// The analysis after handling a tile for `request` that took `d`: the time
/// is added at its zoom level, when the server handles it, and the tile is
/// counted by its source and age.
pub open spec fn tile_handled(v: ZoomResponseView, request: SlippyRequest, t: TileResponse, d: Duration) -> ZoomResponseView {
    let layer = match requested_zoom(request.body) {
        Some(z) => if z < ZOOM_LEVEL_COUNT { accrue_handle(v.layer, z as int, d) } else { v.layer },
        None => v.layer,
    };
    let c = cell_index(t.source, t.age);
    ZoomResponseView { layer, handle_counts: v.handle_counts.update(c, (v.handle_counts[c] + 1) as u64) }
}

/// The analysis after the outcomes of reading and handling a request.
pub open spec fn handle_observed(v: ZoomResponseView, read: ReadOutcome, handle: HandleOutcome) -> ZoomResponseView {
    match handled_tile_event(read, handle) {
        Some((request, t, d)) => tile_handled(v, request, t, d),
        None => v,
    }
}

/// Whether the analysis can take the outcomes of reading and handling a request.
pub open spec fn can_observe_handle(v: ZoomResponseView, read: ReadOutcome, handle: HandleOutcome) -> bool {
    match handled_tile_event(read, handle) {
        Some((request, t, d)) => {
            &&& d.wf()
            &&& v.handle_counts[cell_index(t.source, t.age)] < u64::MAX
            &&& match requested_zoom(request.body) {
                Some(z) => z < ZOOM_LEVEL_COUNT ==> duration_in_range(v.layer.tile_durations[z as int].nanos + d.nanos),
                None => true,
            }
        },
        None => true,
    }
}

/// The zoom level of a tile response to a request, when a tile request was
/// read and handled into a tile, at a zoom level the server handles.
pub open spec fn tile_write_zoom(read: ReadOutcome, handle: HandleOutcome) -> Option<int> {
    match handled_tile_event(read, handle) {
        Some((request, t, d)) => match requested_zoom(request.body) {
            Some(z) => if z < ZOOM_LEVEL_COUNT { Some(z as int) } else { None },
            None => None,
        },
        None => None,
    }
}

/// The layer after an HTTP response of `code` to a request at `zoom`.
pub open spec fn http_counted(l: LayerResponseView, zoom: Option<u32>, code: u16) -> LayerResponseView {
    let with_row = ensure_row(code)(l);
    match zoom {
        Some(z) => if z < ZOOM_LEVEL_COUNT { add_http_response(code, z as int)(with_row) } else { with_row },
        None => with_row,
    }
}

/// The analysis after the outcomes of reading, handling and writing a request.
pub open spec fn write_observed(v: ZoomResponseView, read: ReadOutcome, handle: HandleOutcome, write: WriteOutcome) -> ZoomResponseView {
    let after_tile = match tile_write_zoom(read, handle) {
        Some(z) => count_tile_write(v.layer, z),
        None => v.layer,
    };
    let layer = match (read, write) {
        (ReadOutcome::Processed(Ok(request)), WriteOutcome::Processed(Ok(http))) =>
            http_counted(after_tile, requested_zoom(request.body), http.status_code),
        _ => after_tile,
    };
    ZoomResponseView { layer, handle_counts: v.handle_counts }
}

/// Whether the analysis can take the outcomes of reading, handling and writing a request.
pub open spec fn can_observe_write(v: ZoomResponseView, read: ReadOutcome, handle: HandleOutcome, write: WriteOutcome) -> bool {
    let tile_ok = match tile_write_zoom(read, handle) {
        Some(z) => v.layer.tile_counts[z] < u64::MAX,
        None => true,
    };
    let http_ok = match (read, write) {
        (ReadOutcome::Processed(Ok(request)), WriteOutcome::Processed(Ok(http))) => match requested_zoom(request.body) {
            Some(z) => z < ZOOM_LEVEL_COUNT ==> forall|r: int| 0 <= r < v.layer.rows.len()
                && #[trigger] v.layer.rows[r].code == http.status_code ==> v.layer.rows[r].counts[z as int] < u64::MAX,
            None => true,
        },
        _ => true,
    };
    tile_ok && http_ok
}

/// The responses of the server over all layers, with the tiles handled.
pub struct ResponseAnalysis {
    analysis: LayerResponseAnalysis,
    tile_handle_count_by_source_and_age: TileMetricTable<u64>,
}

impl View for ResponseAnalysis {
    type V = ZoomResponseView;

    closed spec fn view(&self) -> ZoomResponseView {
        ZoomResponseView { layer: self.analysis@, handle_counts: self.tile_handle_count_by_source_and_age@ }
    }
}

impl ResponseAnalysis {
    /// The analysis is well formed.
    pub open spec fn wf(&self) -> bool {
        zoom_view_wf(self@)
    }

    /// An analysis of no responses.
    pub fn new() -> (a: ResponseAnalysis)
        ensures
            a.wf(),
            a@.layer == empty_layer(Seq::empty()),
            forall|i: int| 0 <= i < TILE_METRIC_CELLS ==> #[trigger] a@.handle_counts[i] == 0,
    {
        ResponseAnalysis {
            analysis: LayerResponseAnalysis::new(String::new()),
            tile_handle_count_by_source_and_age: TileMetricTable::new(),
        }
    }

    /// Adds the time `duration` of handling a tile for `request` at its zoom
    /// level, when it asks for a tile at a zoom level the server handles.
    fn accrue_tile_handle_duration(&mut self, request: &SlippyRequest, duration: &Duration)
        requires
            old(self).wf(),
            duration.wf(),
            match requested_zoom(request.body) {
                Some(z) => z < ZOOM_LEVEL_COUNT ==> duration_in_range(old(self)@.layer.tile_durations[z as int].nanos + duration.nanos),
                None => true,
            },
        ensures
            final(self).wf(),
            final(self)@.handle_counts == old(self)@.handle_counts,
            final(self)@.layer == match requested_zoom(request.body) {
                Some(z) => if z < ZOOM_LEVEL_COUNT { accrue_handle(old(self)@.layer, z as int, *duration) } else { old(self)@.layer },
                None => old(self)@.layer,
            },
    {
        let zoom_level = match zoom_of(&request.body) {
            Some(z) => z as usize,
            None => return,
        };
        let zoom_limit = self.analysis.tile_response_count_by_zoom.len();
        if zoom_level < zoom_limit {
            let ghost before = self@.layer;
            let current = self.analysis.tile_response_duration_by_zoom[zoom_level];
            self.analysis.tile_response_duration_by_zoom.set(zoom_level, current.plus(duration));
            proof {
                assert(self@.layer.rows == before.rows);
                assert(self@.layer =~~= accrue_handle(before, zoom_level as int, *duration));
                assert(all_wf(self@.layer.tile_durations)) by {
                    assert forall|i: int| 0 <= i < self@.layer.tile_durations.len() implies #[trigger] self@.layer.tile_durations[i].wf() by {
                        if i != zoom_level {
                            assert(before.tile_durations[i].wf());
                        }
                    }
                }
            }
        }
    }

    /// Counts a tile handled, by its source and age.
    fn increment_tile_handle_count(&mut self, response: &TileResponse)
        requires
            old(self).wf(),
            old(self)@.handle_counts[cell_index(response.source, response.age)] < u64::MAX,
        ensures
            final(self).wf(),
            final(self)@.layer == old(self)@.layer,
            final(self)@.handle_counts == old(self)@.handle_counts.update(
                cell_index(response.source, response.age),
                (old(self)@.handle_counts[cell_index(response.source, response.age)] + 1) as u64,
            ),
    {
        let counter = self.tile_handle_count_by_source_and_age.update(&response.source, &response.age);
        *counter = *counter + 1;
    }

    /// Records a tile handled for `request` that took `duration`.
    fn on_handled_tile(&mut self, request: &SlippyRequest, response: &TileResponse, duration: &Duration)
        requires
            old(self).wf(),
            duration.wf(),
            old(self)@.handle_counts[cell_index(response.source, response.age)] < u64::MAX,
            match requested_zoom(request.body) {
                Some(z) => z < ZOOM_LEVEL_COUNT ==> duration_in_range(old(self)@.layer.tile_durations[z as int].nanos + duration.nanos),
                None => true,
            },
        ensures
            final(self).wf(),
            final(self)@ == tile_handled(old(self)@, *request, *response, *duration),
    {
        self.accrue_tile_handle_duration(request, duration);
        self.increment_tile_handle_count(response);
    }

    /// Counts a tile response to `request` at its zoom level, when it asks
    /// for a tile at a zoom level the server handles.
    fn on_tile_write(&mut self, request: &SlippyRequest)
        requires
            old(self).wf(),
            match requested_zoom(request.body) {
                Some(z) => z < ZOOM_LEVEL_COUNT ==> old(self)@.layer.tile_counts[z as int] < u64::MAX,
                None => true,
            },
        ensures
            final(self).wf(),
            final(self)@.handle_counts == old(self)@.handle_counts,
            final(self)@.layer == match requested_zoom(request.body) {
                Some(z) => if z < ZOOM_LEVEL_COUNT { count_tile_write(old(self)@.layer, z as int) } else { old(self)@.layer },
                None => old(self)@.layer,
            },
    {
        let zoom_level = match zoom_of(&request.body) {
            Some(z) => z as usize,
            None => return,
        };
        let zoom_limit = self.analysis.tile_response_count_by_zoom.len();
        if zoom_level < zoom_limit {
            let ghost before = self@.layer;
            let count = self.analysis.tile_response_count_by_zoom[zoom_level];
            self.analysis.tile_response_count_by_zoom.set(zoom_level, count + 1);
            proof {
                assert(self@.layer.rows == before.rows);
                assert(self@.layer =~~= count_tile_write(before, zoom_level as int));
            }
        }
    }

    /// Counts an HTTP response to `request`: its status code becomes known,
    /// and the response is counted at the zoom level of a tile request the
    /// server handles.
    fn on_http_response_write(&mut self, request: &SlippyRequest, http_response: &HttpResponse)
        requires
            old(self).wf(),
            match requested_zoom(request.body) {
                Some(z) => z < ZOOM_LEVEL_COUNT ==> forall|r: int| 0 <= r < old(self)@.layer.rows.len()
                    && #[trigger] old(self)@.layer.rows[r].code == http_response.status_code
                    ==> old(self)@.layer.rows[r].counts[z as int] < u64::MAX,
                None => true,
            },
        ensures
            final(self).wf(),
            final(self)@.handle_counts == old(self)@.handle_counts,
            final(self)@.layer == http_counted(old(self)@.layer, requested_zoom(request.body), http_response.status_code),
    {
        let code = http_response.status_code;
        let ghost before = self@.layer;
        let r = match self.analysis.find_row(code) {
            Some(r) => r,
            None => {
                let row = StatusRow { status_code: code, count_by_zoom: new_zero_counts() };
                self.analysis.response_count_by_status_and_zoom.push(row);
                proof {
                    assert(self@.layer.rows =~= before.rows.push(StatusRowView { code, counts: crate::telemetry::response::zero_counts() }));
                    assert(self@.layer =~~= ensure_row(code)(before));
                    assert forall|r1: int, r2: int| 0 <= r1 < r2 < self@.layer.rows.len() implies
                        #[trigger] self@.layer.rows[r1].code != #[trigger] self@.layer.rows[r2].code by {
                        if r2 == self@.layer.rows.len() - 1 {
                            assert(self@.layer.rows[r1] == before.rows[r1]);
                        }
                    }
                }
                self.analysis.response_count_by_status_and_zoom.len() - 1
            },
        };
        let ghost with_row = self@.layer;
        assert(with_row == ensure_row(code)(before));
        assert(with_row.rows[r as int].code == code);
        let zoom_level = match zoom_of(&request.body) {
            Some(z) => z as usize,
            None => return,
        };
        let zoom_limit = self.analysis.response_count_by_status_and_zoom[r].count_by_zoom.len();
        if zoom_level < zoom_limit {
            assert(with_row.rows[r as int] == self.analysis.response_count_by_status_and_zoom@[r as int]@);
            proof {
                if !has_row(before, code) {
                    assert(with_row.rows[r as int].counts == crate::telemetry::response::zero_counts());
                } else {
                    assert(with_row.rows == before.rows);
                }
            }
            let count = self.analysis.response_count_by_status_and_zoom[r].count_by_zoom[zoom_level];
            self.analysis.response_count_by_status_and_zoom[r].count_by_zoom.set(zoom_level, count + 1);
            proof {
                let f = add_http_response(code, zoom_level as int);
                assert(self@.layer.rows =~~= f(with_row).rows) by {
                    assert forall|k: int| 0 <= k < self@.layer.rows.len() implies #[trigger] self@.layer.rows[k] == f(with_row).rows[k] by {
                        if k != r {
                            assert(with_row.rows[k].code != code);
                        }
                    }
                }
                assert(self@.layer =~~= f(with_row));
            }
        }
    }

    /// Records the outcomes of reading, handling and writing one request: a
    /// tile response when a tile request was read and a tile handled, and an
    /// HTTP response when a request was read and its response written.
    fn observe_write(&mut self, read_outcome: &ReadOutcome, handle_outcome: &HandleOutcome, write_outcome: &WriteOutcome)
        requires
            old(self).wf(),
            can_observe_write(old(self)@, *read_outcome, *handle_outcome, *write_outcome),
        ensures
            final(self).wf(),
            final(self)@ == write_observed(old(self)@, *read_outcome, *handle_outcome, *write_outcome),
    {
        if let ReadOutcome::Processed(Ok(request)) = read_outcome {
            if let HandleOutcome::Processed(handle_result) = handle_outcome {
                if let Ok(response) = &handle_result.result {
                    if let ResponseBody::Tile(_) = &response.body {
                        self.on_tile_write(request);
                    }
                }
            }
        }
        if let ReadOutcome::Processed(Ok(request)) = read_outcome {
            if let WriteOutcome::Processed(Ok(http_response)) = write_outcome {
                self.on_http_response_write(request, http_response);
            }
        }
    }

    /// Records the outcomes of reading and handling one request: a tile
    /// handled when a tile request was read and handled into a tile.
    fn observe_handle(&mut self, read_outcome: &ReadOutcome, handle_outcome: &HandleOutcome)
        requires
            old(self).wf(),
            can_observe_handle(old(self)@, *read_outcome, *handle_outcome),
            match handle_outcome {
                HandleOutcome::Processed(r) => r.before_timestamp.wf() && r.after_timestamp.wf(),
                HandleOutcome::Ignored => true,
            },
        ensures
            final(self).wf(),
            final(self)@ == handle_observed(old(self)@, *read_outcome, *handle_outcome),
    {
        if let ReadOutcome::Processed(Ok(request)) = read_outcome {
            if let HandleOutcome::Processed(handle_result) = handle_outcome {
                if let Ok(response) = &handle_result.result {
                    if let ResponseBody::Tile(tile_response) = &response.body {
                        let duration = handle_result.after_timestamp.duration_since(&handle_result.before_timestamp);
                        self.on_handled_tile(request, tile_response, &duration);
                    }
                }
            }
        }
    }
}

impl WriteResponseObserver for ResponseAnalysis {
    open spec fn can_write(&self, read_outcome: ReadOutcome, handle_outcome: HandleOutcome, write_outcome: WriteOutcome) -> bool {
        self.wf() && can_observe_write(self@, read_outcome, handle_outcome, write_outcome)
    }

    open spec fn write_into(
        &self,
        read_outcome: ReadOutcome,
        handle_outcome: HandleOutcome,
        write_outcome: WriteOutcome,
        after: Self,
    ) -> bool {
        after.wf() && after@ == write_observed(self@, read_outcome, handle_outcome, write_outcome)
    }

    fn on_write(&mut self, read_outcome: &ReadOutcome, handle_outcome: &HandleOutcome, write_outcome: &WriteOutcome) {
        self.observe_write(read_outcome, handle_outcome, write_outcome);
    }
}

impl HandleRequestObserver for ResponseAnalysis {
    open spec fn can_handle(&self, read_outcome: ReadOutcome, handle_outcome: HandleOutcome) -> bool {
        &&& self.wf()
        &&& can_observe_handle(self@, read_outcome, handle_outcome)
        &&& match handle_outcome {
            HandleOutcome::Processed(r) => r.before_timestamp.wf() && r.after_timestamp.wf(),
            HandleOutcome::Ignored => true,
        }
    }

    open spec fn handle_into(&self, read_outcome: ReadOutcome, handle_outcome: HandleOutcome, after: Self) -> bool {
        after.wf() && after@ == handle_observed(self@, read_outcome, handle_outcome)
    }

    fn on_handle(&mut self, read_outcome: &ReadOutcome, handle_outcome: &HandleOutcome) {
        self.observe_handle(read_outcome, handle_outcome);
    }
}

impl ResponseMetrics for ResponseAnalysis {
    open spec fn metrics_wf(&self) -> bool {
        self.wf()
    }

    open spec fn status_codes_view(&self) -> Seq<u16> {
        self@.layer.rows.map_values(|r: StatusRowView| r.code)
    }

    open spec fn zoom_range_view(&self) -> (u32, u32) {
        (0, ZOOM_LEVEL_COUNT as u32)
    }

    open spec fn layers_view(&self) -> Seq<Seq<char>> {
        Seq::empty()
    }

    open spec fn response_count_by_status_code(&self, code: u16) -> int {
        layer_status_total(code)(self@.layer)
    }

    open spec fn response_count_by_zoom_level(&self, zoom: u32) -> int {
        layer_zoom_total(zoom as int)(self@.layer)
    }

    open spec fn response_count_by_status_code_and_zoom_level(&self, code: u16, zoom: u32) -> int {
        layer_code_zoom_total(code, zoom as int)(self@.layer)
    }

    open spec fn total_tile_response_count(&self) -> int {
        sum_u64(self@.handle_counts)
    }

    open spec fn total_tile_response_seconds(&self) -> Option<int> {
        match fold_durations(self@.layer.tile_durations) {
            Some(nanos) => Some(whole_seconds(nanos)),
            None => None,
        }
    }

    open spec fn tile_response_count_by_zoom_level(&self, zoom: u32) -> int {
        layer_tile_at_zoom(zoom as int)(self@.layer)
    }

    open spec fn tile_response_seconds_by_zoom_level(&self, zoom: u32) -> int {
        layer_seconds_at_zoom(zoom as int)(self@.layer)
    }

    open spec fn response_count_by_layer_and_status_code(&self, layer: Seq<char>, code: u16) -> int {
        0
    }

    /// The status codes responded with, each once.
    fn iterate_status_codes_responded(&self) -> (codes: Vec<u16>) {
        let rows = &self.analysis.response_count_by_status_and_zoom;
        let mut codes: Vec<u16> = Vec::new();
        let mut k: usize = 0;
        while k < rows.len()
            invariant
                k <= rows@.len(),
                self@.layer.rows == rows@.map_values(|r: StatusRow| r@),
                codes@.len() == k,
                forall|j: int| 0 <= j < k ==> #[trigger] codes@[j] == self@.layer.rows[j].code,
            decreases rows@.len() - k,
        {
            assert(self@.layer.rows[k as int] == rows@[k as int]@);
            codes.push(rows[k].status_code);
            k = k + 1;
        }
        proof {
            assert(codes@ =~= self.status_codes_view());
            assert forall|i: int, j: int| 0 <= i < codes@.len() && 0 <= j < codes@.len() && i != j
                implies codes@[i] != codes@[j] by {
                if i < j {
                    assert(self@.layer.rows[i].code != self@.layer.rows[j].code);
                } else {
                    assert(self@.layer.rows[j].code != self@.layer.rows[i].code);
                }
            }
        }
        codes
    }

    /// The zoom levels the server handles: `0..=MAX_ZOOM_SERVER`.
    fn iterate_valid_zoom_levels(&self) -> (r: std::ops::Range<u32>) {
        0..(ZOOM_LEVEL_COUNT as u32)
    }

    /// No layer is told apart.
    fn iterate_layers_responded(&self) -> (layers: Vec<String>) {
        Vec::new()
    }

    /// Responses with status `code`.
    fn count_response_by_status_code(&self, status_code: u16) -> (total: u64) {
        self.analysis.count_by_status_code(status_code)
    }

    /// Responses at zoom level `zoom`, of any status code.
    fn count_response_by_zoom_level(&self, zoom: u32) -> (total: u64) {
        self.analysis.count_at_zoom(zoom)
    }

    /// Responses with status `code` at zoom level `zoom`.
    fn count_response_by_status_code_and_zoom_level(&self, status_code: u16, zoom: u32) -> (total: u64) {
        self.analysis.count_code_at_zoom(status_code, zoom)
    }

    /// Tiles handled, of any source and age.
    fn count_total_tile_response(&self) -> (total: u64) {
        sum_counters(self.tile_handle_count_by_source_and_age.iter())
    }

    /// Whole seconds spent handling tiles, over all zoom levels, as an
    /// unsigned count (a negative count wraps around).
    fn tally_total_tile_response_duration(&self) -> (secs: u64) {
        let total = sum_durations(&self.analysis.tile_response_duration_by_zoom);
        total.num_seconds() as u64
    }

    /// Tile responses at zoom level `zoom`.
    fn count_tile_response_by_zoom_level(&self, zoom: u32) -> (total: u64) {
        if (zoom as usize) < self.analysis.tile_response_count_by_zoom.len() {
            self.analysis.tile_response_count_by_zoom[zoom as usize]
        } else {
            0
        }
    }

    /// Whole seconds spent handling tiles at zoom level `zoom`.
    fn tally_tile_response_duration_by_zoom_level(&self, zoom: u32) -> (secs: u64) {
        let durations = &self.analysis.tile_response_duration_by_zoom;
        if (zoom as usize) < durations.len() {
            proof {
                assert(durations@[zoom as int].wf());
            }
            durations[zoom as usize].num_seconds() as u64
        } else {
            0
        }
    }

    /// No layer is told apart: nothing is counted by layer.
    fn count_response_by_layer_and_status_code(&self, layer: &String, status_code: u16) -> (total: u64) {
        0
    }
}

impl CacheMetrics for ResponseAnalysis {
    open spec fn metrics_wf(&self) -> bool {
        self.wf()
    }

    open spec fn cache_hit_count(&self, age: TileAge) -> int {
        self@.handle_counts[cell_index(TileSource::Cache, age)] as int
    }

    fn iterate_valid_cache_ages(&self) -> (ages: Vec<TileAge>) {
        all_tile_ages()
    }

    fn count_tile_cache_hit_by_age(&self, age: &TileAge) -> (count: u64) {
        *self.tile_handle_count_by_source_and_age.read(&TileSource::Cache, age)
    }
}

impl RenderMetrics for ResponseAnalysis {
    open spec fn metrics_wf(&self) -> bool {
        self.wf()
    }

    open spec fn render_count(&self, age: TileAge) -> int {
        self@.handle_counts[cell_index(TileSource::Render, age)] as int
    }

    fn iterate_valid_render_ages(&self) -> (ages: Vec<TileAge>) {
        all_tile_ages()
    }

    fn count_tile_renders_by_age(&self, age: &TileAge) -> (count: u64) {
        *self.tile_handle_count_by_source_and_age.read(&TileSource::Render, age)
    }
}

/// Every tile handled is either served from the cache or rendered: the cache
/// hits and the renders of every age add up to all the tile responses counted.
pub proof fn law_cache_hits_and_renders_add_up(analysis: &ResponseAnalysis)
    requires
        analysis.wf(),
    ensures
        analysis.total_tile_response_count()
            == analysis.cache_hit_count(TileAge::Fresh) + analysis.cache_hit_count(TileAge::Old)
                + analysis.cache_hit_count(TileAge::VeryOld) + analysis.render_count(TileAge::Fresh)
                + analysis.render_count(TileAge::Old) + analysis.render_count(TileAge::VeryOld),
{
    let c = analysis@.handle_counts;
    reveal_with_fuel(sum_u64, 7);
    assert(c.drop_last().drop_last().drop_last().drop_last().drop_last().drop_last() =~= Seq::<u64>::empty());
}

} // verus!
