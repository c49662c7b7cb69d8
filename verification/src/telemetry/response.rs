//! Response analysis by layer: HTTP responses by status code and zoom level,
//! tile responses by zoom level, and how long the tile responses took.

use vstd::prelude::*;
use crate::config::ZOOM_LEVEL_COUNT;
use crate::slippy::{
    requested_zoom, zoom_of, HandleOutcome, ReadOutcome, ResponseBody, SlippyRequest, WriteOutcome,
};
use crate::sums::{
    lemma_sum_of_push, lemma_sum_of_update, lemma_sum_u64_update,
    fold_durations, lemma_fold_prefix_some, lemma_fold_zeros, lemma_sum_of_prefix,
    lemma_sum_u64_zeros, sum_counters, sum_durations, sum_of, sum_u64, all_wf,
};
use crate::time::{duration_in_range, whole_seconds, Duration};
use crate::telemetry::interface::ResponseMetrics;
use crate::telemetry::observer::WriteResponseObserver;

verus! {

// ---------------------------------------------------------------------------
// The model
// ---------------------------------------------------------------------------

/// The HTTP responses of one status code, by zoom level.
pub struct StatusRowView {
    pub code: u16,
    pub counts: Seq<u64>,
}

/// What is known of the responses of one layer.
pub struct LayerResponseView {
    pub name: Seq<char>,
    pub rows: Seq<StatusRowView>,
    pub tile_counts: Seq<u64>,
    pub tile_durations: Seq<Duration>,
}

/// What is known of all responses: the layers in the order they were first
/// responded for, and the status codes in the order they were first responded with.
pub struct ResponseView {
    pub layers: Seq<LayerResponseView>,
    pub codes: Seq<u16>,
}

/// A sequence of `ZOOM_LEVEL_COUNT` zero counters.
pub open spec fn zero_counts() -> Seq<u64> {
    Seq::new(ZOOM_LEVEL_COUNT as nat, |i: int| 0u64)
}

/// A sequence of `ZOOM_LEVEL_COUNT` empty durations.
pub open spec fn zero_durations() -> Seq<Duration> {
    Seq::new(ZOOM_LEVEL_COUNT as nat, |i: int| Duration { nanos: 0 })
}

/// The analysis of a layer that nothing was responded for yet.
pub open spec fn empty_layer(name: Seq<char>) -> LayerResponseView {
    LayerResponseView { name, rows: Seq::empty(), tile_counts: zero_counts(), tile_durations: zero_durations() }
}

/// Whether a layer of the given name is analysed.
pub open spec fn has_layer(layers: Seq<LayerResponseView>, name: Seq<char>) -> bool {
    exists|i: int| 0 <= i < layers.len() && #[trigger] layers[i].name == name
}

/// Whether a layer has a row for the status code.
pub open spec fn has_row(layer: LayerResponseView, code: u16) -> bool {
    exists|r: int| 0 <= r < layer.rows.len() && #[trigger] layer.rows[r].code == code
}

/// The layers, with an empty analysis for `name` appended when there is none.
pub open spec fn ensure_layer(layers: Seq<LayerResponseView>, name: Seq<char>) -> Seq<LayerResponseView> {
    if has_layer(layers, name) {
        layers
    } else {
        layers.push(empty_layer(name))
    }
}

/// The layers, with `f` applied to the layer named `name`.
pub open spec fn update_layer(
    layers: Seq<LayerResponseView>,
    name: Seq<char>,
    f: spec_fn(LayerResponseView) -> LayerResponseView,
) -> Seq<LayerResponseView> {
    Seq::new(layers.len(), |i: int| if layers[i].name == name { f(layers[i]) } else { layers[i] })
}

/// The layer, with a tile response at zoom level `z` that took `d`.
pub open spec fn add_tile_response(z: int, d: Duration) -> spec_fn(LayerResponseView) -> LayerResponseView {
    |l: LayerResponseView| LayerResponseView {
        name: l.name,
        rows: l.rows,
        tile_counts: l.tile_counts.update(z, (l.tile_counts[z] + 1) as u64),
        tile_durations: l.tile_durations.update(z, Duration { nanos: (l.tile_durations[z].nanos + d.nanos) as i128 }),
    }
}

/// The layer, with a row of zero counters for `code` appended when there is none.
pub open spec fn ensure_row(code: u16) -> spec_fn(LayerResponseView) -> LayerResponseView {
    |l: LayerResponseView| if has_row(l, code) {
        l
    } else {
        LayerResponseView {
            name: l.name,
            rows: l.rows.push(StatusRowView { code, counts: zero_counts() }),
            tile_counts: l.tile_counts,
            tile_durations: l.tile_durations,
        }
    }
}

/// The layer, with one more response of `code` at zoom level `z`.
pub open spec fn add_http_response(code: u16, z: int) -> spec_fn(LayerResponseView) -> LayerResponseView {
    |l: LayerResponseView| LayerResponseView {
        name: l.name,
        rows: Seq::new(l.rows.len(), |r: int| if l.rows[r].code == code {
            StatusRowView { code, counts: l.rows[r].counts.update(z, (l.rows[r].counts[z] + 1) as u64) }
        } else {
            l.rows[r]
        }),
        tile_counts: l.tile_counts,
        tile_durations: l.tile_durations,
    }
}

/// The analysis after a tile response to a request for `name` at `zoom` that took `d`.
/// A request for no tile changes nothing; one for a tile makes the layer
/// known, and counts the response only at a zoom level the server handles.
pub open spec fn tile_written(v: ResponseView, name: Seq<char>, zoom: Option<u32>, d: Duration) -> ResponseView {
    match zoom {
        None => v,
        Some(z) => {
            let layers = ensure_layer(v.layers, name);
            if z < ZOOM_LEVEL_COUNT {
                ResponseView { layers: update_layer(layers, name, add_tile_response(z as int, d)), codes: v.codes }
            } else {
                ResponseView { layers, codes: v.codes }
            }
        },
    }
}

/// The analysis after an HTTP response of `code` to a request for `name` at
/// `zoom`: the layer and the status code become known, and the response is
/// counted only for a tile at a zoom level the server handles.
pub open spec fn http_written(v: ResponseView, name: Seq<char>, zoom: Option<u32>, code: u16) -> ResponseView {
    let layers = update_layer(ensure_layer(v.layers, name), name, ensure_row(code));
    let codes = if v.codes.contains(code) { v.codes } else { v.codes.push(code) };
    match zoom {
        Some(z) => if z < ZOOM_LEVEL_COUNT {
            ResponseView { layers: update_layer(layers, name, add_http_response(code, z as int)), codes }
        } else {
            ResponseView { layers, codes }
        },
        None => ResponseView { layers, codes },
    }
}

/// The tile request and its handling time, when a tile was read, handled and responded.
pub open spec fn tile_event(read: ReadOutcome, handle: HandleOutcome) -> Option<(SlippyRequest, Duration)> {
    match (read, handle) {
        (ReadOutcome::Processed(Ok(request)), HandleOutcome::Processed(handled)) => match handled.result {
            Ok(response) => match response.body {
                ResponseBody::Tile(_) => Some(
                    (request, Duration { nanos: (handled.after_timestamp.nanos - handled.before_timestamp.nanos) as i128 }),
                ),
                _ => None,
            },
            Err(_) => None,
        },
        _ => None,
    }
}

/// The request and the status code, when a request was read and its response written.
pub open spec fn http_event(read: ReadOutcome, write: WriteOutcome) -> Option<(SlippyRequest, u16)> {
    match (read, write) {
        (ReadOutcome::Processed(Ok(request)), WriteOutcome::Processed(Ok(http))) => Some((request, http.status_code)),
        _ => None,
    }
}

/// The timestamps of a handled request are well formed.
pub open spec fn handle_timestamps_wf(handle: HandleOutcome) -> bool {
    match handle {
        HandleOutcome::Processed(handled) => handled.before_timestamp.wf() && handled.after_timestamp.wf(),
        HandleOutcome::Ignored => true,
    }
}

/// The analysis after the read, handle and write outcomes of one request.
pub open spec fn observed(v: ResponseView, read: ReadOutcome, handle: HandleOutcome, write: WriteOutcome) -> ResponseView {
    let v1 = match tile_event(read, handle) {
        Some((request, d)) => tile_written(v, request.header.layer@, requested_zoom(request.body), d),
        None => v,
    };
    match http_event(read, write) {
        Some((request, code)) => http_written(v1, request.header.layer@, requested_zoom(request.body), code),
        None => v1,
    }
}

/// Recording a tile response overflows no counter and no duration.
pub open spec fn tile_room(v: ResponseView, name: Seq<char>, zoom: Option<u32>, d: Duration) -> bool {
    match zoom {
        Some(z) => z < ZOOM_LEVEL_COUNT ==> forall|i: int| 0 <= i < v.layers.len() && #[trigger] v.layers[i].name == name
            ==> v.layers[i].tile_counts[z as int] < u64::MAX && duration_in_range(
                v.layers[i].tile_durations[z as int].nanos + d.nanos,
            ),
        None => true,
    }
}

/// Recording an HTTP response overflows no counter.
pub open spec fn http_room(v: ResponseView, name: Seq<char>, zoom: Option<u32>, code: u16) -> bool {
    match zoom {
        Some(z) => z < ZOOM_LEVEL_COUNT ==> forall|i: int, r: int| 0 <= i < v.layers.len() && #[trigger] v.layers[i].name
            == name && 0 <= r < v.layers[i].rows.len() && #[trigger] v.layers[i].rows[r].code == code
            ==> v.layers[i].rows[r].counts[z as int] < u64::MAX,
        None => true,
    }
}

/// Recording the outcomes of one request overflows no counter and no duration.
pub open spec fn can_observe(v: ResponseView, read: ReadOutcome, handle: HandleOutcome, write: WriteOutcome) -> bool {
    let v1 = match tile_event(read, handle) {
        Some((request, d)) => tile_written(v, request.header.layer@, requested_zoom(request.body), d),
        None => v,
    };
    &&& handle_timestamps_wf(handle)
    &&& match tile_event(read, handle) {
        Some((request, d)) => tile_room(v, request.header.layer@, requested_zoom(request.body), d),
        None => true,
    }
    &&& match http_event(read, write) {
        Some((request, code)) => http_room(v1, request.header.layer@, requested_zoom(request.body), code),
        None => true,
    }
}

/// A well-formed layer analysis: a counter and a well-formed duration for
/// every zoom level, and at most one row, of a counter for every zoom level, per status code.
pub open spec fn layer_wf(l: LayerResponseView) -> bool {
    &&& l.tile_counts.len() == ZOOM_LEVEL_COUNT
    &&& l.tile_durations.len() == ZOOM_LEVEL_COUNT
    &&& all_wf(l.tile_durations)
    &&& forall|r: int| 0 <= r < l.rows.len() ==> (#[trigger] l.rows[r]).counts.len() == ZOOM_LEVEL_COUNT
    &&& forall|r: int, s: int| 0 <= r < s < l.rows.len() ==> #[trigger] l.rows[r].code != #[trigger] l.rows[s].code
}

/// A well-formed analysis: well-formed layers of distinct names, distinct status
/// codes, and a status code is known exactly when some layer has a row for it.
pub open spec fn response_view_wf(v: ResponseView) -> bool {
    &&& forall|i: int| 0 <= i < v.layers.len() ==> layer_wf(#[trigger] v.layers[i])
    &&& forall|i: int, j: int| 0 <= i < j < v.layers.len() ==> #[trigger] v.layers[i].name != #[trigger] v.layers[j].name
    &&& forall|i: int, j: int| 0 <= i < j < v.codes.len() ==> #[trigger] v.codes[i] != #[trigger] v.codes[j]
    &&& forall|c: u16| #[trigger] v.codes.contains(c) <==> exists|i: int| 0 <= i < v.layers.len() && #[trigger] has_row(v.layers[i], c)
}

// ---------------------------------------------------------------------------
// Queries, over the model
// ---------------------------------------------------------------------------

/// All responses of a row when its code is `code`.
pub open spec fn row_total(code: u16) -> spec_fn(StatusRowView) -> int {
    |r: StatusRowView| if r.code == code { sum_u64(r.counts) } else { 0 }
}

/// All responses of `code` for a layer.
pub open spec fn layer_status_total(code: u16) -> spec_fn(LayerResponseView) -> int {
    |l: LayerResponseView| sum_of(l.rows, row_total(code))
}

/// Responses of a row at zoom level `z`.
pub open spec fn row_at_zoom(z: int) -> spec_fn(StatusRowView) -> int {
    |r: StatusRowView| if 0 <= z < r.counts.len() { r.counts[z] as int } else { 0 }
}

/// Responses of any code for a layer at zoom level `z`.
pub open spec fn layer_zoom_total(z: int) -> spec_fn(LayerResponseView) -> int {
    |l: LayerResponseView| sum_of(l.rows, row_at_zoom(z))
}

/// Responses of a row at zoom level `z` when its code is `code`.
pub open spec fn row_code_at_zoom(code: u16, z: int) -> spec_fn(StatusRowView) -> int {
    |r: StatusRowView| if r.code == code && 0 <= z < r.counts.len() { r.counts[z] as int } else { 0 }
}

/// Responses of `code` for a layer at zoom level `z`.
pub open spec fn layer_code_zoom_total(code: u16, z: int) -> spec_fn(LayerResponseView) -> int {
    |l: LayerResponseView| sum_of(l.rows, row_code_at_zoom(code, z))
}

/// Tile responses of a layer.
pub open spec fn layer_tile_total() -> spec_fn(LayerResponseView) -> int {
    |l: LayerResponseView| sum_u64(l.tile_counts)
}

/// Tile responses of a layer at zoom level `z`.
pub open spec fn layer_tile_at_zoom(z: int) -> spec_fn(LayerResponseView) -> int {
    |l: LayerResponseView| if 0 <= z < l.tile_counts.len() { l.tile_counts[z] as int } else { 0 }
}

/// Whole seconds spent on the tile responses of a layer at zoom level `z`,
/// as an unsigned count (a negative count wraps around).
pub open spec fn layer_seconds_at_zoom(z: int) -> spec_fn(LayerResponseView) -> int {
    |l: LayerResponseView| if 0 <= z < l.tile_durations.len() {
        (whole_seconds(l.tile_durations[z].nanos as int) as u64) as int
    } else {
        0
    }
}

/// Responses of `code` for the layer named `name`.
pub open spec fn named_layer_status_total(name: Seq<char>, code: u16) -> spec_fn(LayerResponseView) -> int {
    |l: LayerResponseView| if l.name == name { sum_of(l.rows, row_total(code)) } else { 0 }
}

/// Adding up the time spent on tile responses layer by layer, each layer's
/// zoom levels first; `None` when a partial sum leaves the duration range.
pub open spec fn fold_layer_durations(layers: Seq<LayerResponseView>) -> Option<int>
    decreases layers.len(),
{
    if layers.len() == 0 {
        Some(0)
    } else {
        match (fold_layer_durations(layers.drop_last()), fold_durations(layers.last().tile_durations)) {
            (Some(t), Some(s)) => if duration_in_range(t + s) { Some(t + s) } else { None },
            _ => None,
        }
    }
}

/// Responses with status `code`, over all layers and zoom levels.
pub open spec fn spec_count_response_by_status_code(v: ResponseView, code: u16) -> int {
    sum_of(v.layers, layer_status_total(code))
}

/// Responses at zoom level `z`, over all layers and status codes.
pub open spec fn spec_count_response_by_zoom_level(v: ResponseView, z: int) -> int {
    sum_of(v.layers, layer_zoom_total(z))
}

/// Responses with status `code` at zoom level `z`, over all layers.
pub open spec fn spec_count_response_by_status_code_and_zoom_level(v: ResponseView, code: u16, z: int) -> int {
    sum_of(v.layers, layer_code_zoom_total(code, z))
}

/// Tile responses, over all layers and zoom levels.
pub open spec fn spec_count_total_tile_response(v: ResponseView) -> int {
    sum_of(v.layers, layer_tile_total())
}

/// Tile responses at zoom level `z`, over all layers.
pub open spec fn spec_count_tile_response_by_zoom_level(v: ResponseView, z: int) -> int {
    sum_of(v.layers, layer_tile_at_zoom(z))
}

/// Seconds of tile responses at zoom level `z`, layer by layer, over all layers.
pub open spec fn spec_tally_tile_response_duration_by_zoom_level(v: ResponseView, z: int) -> int {
    sum_of(v.layers, layer_seconds_at_zoom(z))
}

/// Responses with status `code` for the layer named `name`.
pub open spec fn spec_count_response_by_layer_and_status_code(v: ResponseView, name: Seq<char>, code: u16) -> int {
    sum_of(v.layers, named_layer_status_total(name, code))
}

/// The step of a sum over a prefix, and its bound by the whole sum when `f` is never negative.
pub proof fn lemma_sum_of_step<A>(s: Seq<A>, f: spec_fn(A) -> int, i: int)
    requires
        0 <= i < s.len(),
        forall|a: A| #[trigger] f(a) >= 0,
    ensures
        sum_of(s.take(i + 1), f) == sum_of(s.take(i), f) + f(s[i]),
        sum_of(s.take(i + 1), f) <= sum_of(s, f),
        sum_of(s.take(i), f) >= 0,
        f(s[i]) >= 0,
{
    assert(s.take(i + 1).drop_last() =~= s.take(i));
    lemma_sum_of_prefix(s, f, i + 1);
    lemma_sum_of_prefix(s, f, i);
}

pub proof fn lemma_take_all<A>(s: Seq<A>)
    ensures
        s.take(s.len() as int) == s,
{
    assert(s.take(s.len() as int) =~= s);
}

// ---------------------------------------------------------------------------
// The analysis
// ---------------------------------------------------------------------------

/// The responses of one status code, by zoom level.
pub struct StatusRow {
    pub status_code: u16,
    pub count_by_zoom: Vec<u64>,
}

impl View for StatusRow {
    type V = StatusRowView;

    open spec fn view(&self) -> StatusRowView {
        StatusRowView { code: self.status_code, counts: self.count_by_zoom@ }
    }
}

/// The responses of one layer.
pub struct LayerResponseAnalysis {
    pub layer: String,
    pub response_count_by_status_and_zoom: Vec<StatusRow>,
    pub tile_response_count_by_zoom: Vec<u64>,
    pub tile_response_duration_by_zoom: Vec<Duration>,
}

impl View for LayerResponseAnalysis {
    type V = LayerResponseView;

    open spec fn view(&self) -> LayerResponseView {
        LayerResponseView {
            name: self.layer@,
            rows: self.response_count_by_status_and_zoom@.map_values(|r: StatusRow| r@),
            tile_counts: self.tile_response_count_by_zoom@,
            tile_durations: self.tile_response_duration_by_zoom@,
        }
    }
}

/// Counters of zero, one per zoom level.
pub fn new_zero_counts() -> (v: Vec<u64>)
    ensures
        v@ == zero_counts(),
{
    let v: Vec<u64> = vec![0u64; ZOOM_LEVEL_COUNT];
    assert(v@ =~= zero_counts());
    v
}

impl LayerResponseAnalysis {
    /// The analysis of a layer that nothing was responded for yet.
    pub fn new(layer: String) -> (l: LayerResponseAnalysis)
        ensures
            l@ == empty_layer(layer@),
            layer_wf(l@),
    {
        let durations: Vec<Duration> = vec![Duration::zero(); ZOOM_LEVEL_COUNT];
        let l = LayerResponseAnalysis {
            layer,
            response_count_by_status_and_zoom: Vec::new(),
            tile_response_count_by_zoom: new_zero_counts(),
            tile_response_duration_by_zoom: durations,
        };
        assert(l@.rows =~= Seq::<StatusRowView>::empty());
        assert(l@.tile_durations =~= zero_durations());
        l
    }

    /// The position of the row of `code`, if the layer has one.
    pub fn find_row(&self, code: u16) -> (r: Option<usize>)
        ensures
            r is None <==> !has_row(self@, code),
            r matches Some(k) ==> k < self@.rows.len() && self@.rows[k as int].code == code,
    {
        let mut k: usize = 0;
        while k < self.response_count_by_status_and_zoom.len()
            invariant
                k <= self@.rows.len(),
                self@.rows.len() == self.response_count_by_status_and_zoom@.len(),
                forall|j: int| 0 <= j < k ==> self@.rows[j].code != code,
            decreases self@.rows.len() - k,
        {
            if self.response_count_by_status_and_zoom[k].status_code == code {
                assert(self@.rows[k as int].code == code);
                return Some(k);
            }
            k = k + 1;
        }
        None
    }

    /// All responses of `code` for the layer.
    pub fn count_by_status_code(&self, code: u16) -> (total: u64)
        requires
            layer_wf(self@),
            layer_status_total(code)(self@) <= u64::MAX,
        ensures
            total == layer_status_total(code)(self@),
    {
        let rows = &self.response_count_by_status_and_zoom;
        let ghost f = row_total(code);
        let mut total: u64 = 0;
        let mut k: usize = 0;
        while k < rows.len()
            invariant
                k <= rows@.len(),
                self@.rows.len() == rows@.len(),
                self@.rows == rows@.map_values(|r: StatusRow| r@),
                layer_wf(self@),
                sum_of(self@.rows, f) <= u64::MAX,
                total == sum_of(self@.rows.take(k as int), f),
                f == row_total(code),
            decreases rows@.len() - k,
        {
            proof {
                crate::sums::lemma_sum_u64_nonneg(self@.rows[k as int].counts);
                assert forall|a: StatusRowView| #[trigger] f(a) >= 0 by {
                    crate::sums::lemma_sum_u64_nonneg(a.counts);
                }
                lemma_sum_of_step(self@.rows, f, k as int);
            }
            assert(self@.rows[k as int] == rows@[k as int]@);
            if rows[k].status_code == code {
                total = total + sum_counters(&rows[k].count_by_zoom);
            }
            k = k + 1;
        }
        proof {
            lemma_take_all(self@.rows);
        }
        total
    }
}

impl LayerResponseAnalysis {
    /// Responses of any code for the layer at zoom level `z`.
    pub fn count_at_zoom(&self, z: u32) -> (total: u64)
        requires
            layer_wf(self@),
            layer_zoom_total(z as int)(self@) <= u64::MAX,
        ensures
            total == layer_zoom_total(z as int)(self@),
    {
        let rows = &self.response_count_by_status_and_zoom;
        let ghost f = row_at_zoom(z as int);
        let mut total: u64 = 0;
        let mut k: usize = 0;
        while k < rows.len()
            invariant
                k <= rows@.len(),
                self@.rows == rows@.map_values(|r: StatusRow| r@),
                layer_wf(self@),
                sum_of(self@.rows, f) <= u64::MAX,
                total == sum_of(self@.rows.take(k as int), f),
                f == row_at_zoom(z as int),
            decreases rows@.len() - k,
        {
            proof {
                lemma_sum_of_step(self@.rows, f, k as int);
            }
            assert(self@.rows[k as int] == rows@[k as int]@);
            if (z as usize) < rows[k].count_by_zoom.len() {
                total = total + rows[k].count_by_zoom[z as usize];
            }
            k = k + 1;
        }
        proof {
            lemma_take_all(self@.rows);
        }
        total
    }

    /// Responses of `code` for the layer at zoom level `z`.
    pub fn count_code_at_zoom(&self, code: u16, z: u32) -> (total: u64)
        requires
            layer_wf(self@),
            layer_code_zoom_total(code, z as int)(self@) <= u64::MAX,
        ensures
            total == layer_code_zoom_total(code, z as int)(self@),
    {
        let rows = &self.response_count_by_status_and_zoom;
        let ghost f = row_code_at_zoom(code, z as int);
        let mut total: u64 = 0;
        let mut k: usize = 0;
        while k < rows.len()
            invariant
                k <= rows@.len(),
                self@.rows == rows@.map_values(|r: StatusRow| r@),
                layer_wf(self@),
                sum_of(self@.rows, f) <= u64::MAX,
                total == sum_of(self@.rows.take(k as int), f),
                f == row_code_at_zoom(code, z as int),
            decreases rows@.len() - k,
        {
            proof {
                lemma_sum_of_step(self@.rows, f, k as int);
            }
            assert(self@.rows[k as int] == rows@[k as int]@);
            if rows[k].status_code == code && (z as usize) < rows[k].count_by_zoom.len() {
                total = total + rows[k].count_by_zoom[z as usize];
            }
            k = k + 1;
        }
        proof {
            lemma_take_all(self@.rows);
        }
        total
    }
}

/// The responses of the server, by layer.
pub struct ResponseAnalysis {
    analysis_by_layer: Vec<LayerResponseAnalysis>,
    status_codes_responded: Vec<u16>,
}

impl View for ResponseAnalysis {
    type V = ResponseView;

    closed spec fn view(&self) -> ResponseView {
        ResponseView {
            layers: self.analysis_by_layer@.map_values(|l: LayerResponseAnalysis| l@),
            codes: self.status_codes_responded@,
        }
    }
}

impl ResponseAnalysis {
    /// The analysis is well formed.
    pub open spec fn wf(&self) -> bool {
        response_view_wf(self@)
    }

    /// An analysis of no responses.
    pub fn new(_config: &crate::config::ModuleConfig) -> (r: Result<ResponseAnalysis, crate::config::InvalidConfigError>)
        ensures
            r matches Ok(a) && a.wf() && a@.layers.len() == 0 && a@.codes.len() == 0,
    {
        let a = ResponseAnalysis { analysis_by_layer: Vec::new(), status_codes_responded: Vec::new() };
        assert(a@.layers =~= Seq::<LayerResponseView>::empty());
        Ok(a)
    }

    /// The position of the layer named `name`, if it is analysed.
    fn find_layer(&self, name: &String) -> (r: Option<usize>)
        ensures
            r is None <==> !has_layer(self@.layers, name@),
            r matches Some(i) ==> i < self@.layers.len() && self@.layers[i as int].name == name@,
    {
        let mut i: usize = 0;
        while i < self.analysis_by_layer.len()
            invariant
                i <= self@.layers.len(),
                self@.layers.len() == self.analysis_by_layer@.len(),
                forall|j: int| 0 <= j < i ==> self@.layers[j].name != name@,
            decreases self@.layers.len() - i,
        {
            if self.analysis_by_layer[i].layer == *name {
                assert(self@.layers[i as int].name == name@);
                return Some(i);
            }
            i = i + 1;
        }
        None
    }

    /// Makes the layer named `name` known, and gives its position.
    fn mut_layer(&mut self, name: &String) -> (i: usize)
        requires
            old(self).wf(),
        ensures
            final(self).wf(),
            final(self)@ == (ResponseView { layers: ensure_layer(old(self)@.layers, name@), codes: old(self)@.codes }),
            i < final(self)@.layers.len(),
            final(self)@.layers[i as int].name == name@,
    {
        match self.find_layer(name) {
            Some(i) => i,
            None => {
                let ghost before = self@;
                self.analysis_by_layer.push(LayerResponseAnalysis::new(name.clone()));
                proof {
                    assert(self@.layers =~= before.layers.push(empty_layer(name@)));
                    lemma_new_layer_keeps_wf(before, name@);
                }
                self.analysis_by_layer.len() - 1
            },
        }
    }
}


impl ResponseAnalysis {
    /// Records a tile response to `request` that took `duration`.
    fn on_tile_write(&mut self, request: &SlippyRequest, duration: &Duration)
        requires
            old(self).wf(),
            duration.wf(),
            tile_room(old(self)@, request.header.layer@, requested_zoom(request.body), *duration),
        ensures
            final(self).wf(),
            final(self)@ == tile_written(old(self)@, request.header.layer@, requested_zoom(request.body), *duration),
    {
        match zoom_of(&request.body) {
            None => {},
            Some(z) => {
                let ghost before = self@;
                let i = self.mut_layer(&request.header.layer);
                if (z as usize) < ZOOM_LEVEL_COUNT {
                    let zi = z as usize;
                    let ghost mid = self@;
                    proof {
                        lemma_layer_after_ensure(before, request.header.layer@, i as int);
                    }
                    let current = self.analysis_by_layer[i].tile_response_duration_by_zoom[zi];
                    let count = self.analysis_by_layer[i].tile_response_count_by_zoom[zi];
                    let updated = current.plus(duration);
                    self.analysis_by_layer[i].tile_response_duration_by_zoom[zi] = updated;
                    self.analysis_by_layer[i].tile_response_count_by_zoom[zi] = count + 1;
                    proof {
                        let name = request.header.layer@;
                        let f = add_tile_response(z as int, *duration);
                        assert(self@.layers[i as int] =~~= f(mid.layers[i as int]));
                        assert forall|j: int| 0 <= j < self@.layers.len() && j != i implies #[trigger] self@.layers[j] == mid.layers[j] by {}
                        lemma_update_single_layer(mid, name, i as int, f, self@);
                        assert(self@.layers =~= mid.layers.update(i as int, f(mid.layers[i as int])));
                        lemma_tile_update_keeps_wf(mid, i as int, z as int, *duration);
                    }
                }
            },
        }
    }

    /// Records an HTTP response of `code` to `request`.
    fn on_http_response_write(&mut self, request: &SlippyRequest, code: u16)
        requires
            old(self).wf(),
            http_room(
                tile_written(old(self)@, request.header.layer@, None, Duration { nanos: 0 }),
                request.header.layer@,
                requested_zoom(request.body),
                code,
            ),
        ensures
            final(self).wf(),
            final(self)@ == http_written(old(self)@, request.header.layer@, requested_zoom(request.body), code),
    {
        let ghost name = request.header.layer@;
        let ghost before = self@;
        let i = self.mut_layer(&request.header.layer);
        let ghost after_layer = self@;
        proof {
            lemma_layer_after_ensure(before, name, i as int);
        }
        assert(after_layer.layers[i as int] == self.analysis_by_layer@[i as int]@);
        let r = match self.analysis_by_layer[i].find_row(code) {
            Some(r) => {
                proof {
                    assert(self@.layers[i as int] == ensure_row(code)(self@.layers[i as int]));
                    assert forall|j: int| 0 <= j < self@.layers.len() && j != i implies #[trigger] self@.layers[j] == after_layer.layers[j] by {}
                    lemma_update_single_layer(after_layer, name, i as int, ensure_row(code), self@);
                }
                r
            },
            None => {
                let row = StatusRow { status_code: code, count_by_zoom: new_zero_counts() };
                self.analysis_by_layer[i].response_count_by_status_and_zoom.push(row);
                proof {
                    assert(!has_row(after_layer.layers[i as int], code));
                    assert(self@.layers[i as int].name == after_layer.layers[i as int].name);
                    assert(self@.layers[i as int].tile_counts == after_layer.layers[i as int].tile_counts);
                    assert(self@.layers[i as int].tile_durations == after_layer.layers[i as int].tile_durations);
                    assert(self@.layers[i as int].rows =~= after_layer.layers[i as int].rows.push(
                        StatusRowView { code, counts: zero_counts() },
                    ));
                    assert(self@.layers[i as int] =~~= ensure_row(code)(after_layer.layers[i as int]));
                    assert forall|j: int| 0 <= j < self@.layers.len() && j != i implies #[trigger] self@.layers[j] == after_layer.layers[j] by {}
                    lemma_update_single_layer(after_layer, name, i as int, ensure_row(code), self@);
                }
                self.analysis_by_layer[i].response_count_by_status_and_zoom.len() - 1
            },
        };
        let ghost after_row = self@;
        if !contains_code(&self.status_codes_responded, code) {
            self.status_codes_responded.push(code);
        }
        proof {
            lemma_row_added_keeps_wf(after_layer, name, i as int, code, self@);
        }
        match zoom_of(&request.body) {
            Some(z) => {
                if (z as usize) < ZOOM_LEVEL_COUNT {
                    let zi = z as usize;
                    let ghost mid = self@;
                    let count = self.analysis_by_layer[i].response_count_by_status_and_zoom[r].count_by_zoom[zi];
                    self.analysis_by_layer[i].response_count_by_status_and_zoom[r].count_by_zoom[zi] = count + 1;
                    proof {
                        let f = add_http_response(code, z as int);
                        assert(self@.layers[i as int].rows =~~= f(mid.layers[i as int]).rows);
                        assert(self@.layers[i as int] =~~= f(mid.layers[i as int]));
                        assert forall|j: int| 0 <= j < self@.layers.len() && j != i implies #[trigger] self@.layers[j] == mid.layers[j] by {}
                        lemma_update_single_layer(mid, name, i as int, f, self@);
                        assert(self@.layers =~= mid.layers.update(i as int, f(mid.layers[i as int])));
                        lemma_http_update_keeps_wf(mid, i as int, code, z as int);
                    }
                }
            },
            None => {},
        }
    }

    /// Records the outcomes of reading, handling and writing one request: a
    /// tile response when a tile request was read and a tile handled, and an
    /// HTTP response when a request was read and its response written.
    fn observe_write(&mut self, read_outcome: &ReadOutcome, handle_outcome: &HandleOutcome, write_outcome: &WriteOutcome)
        requires
            old(self).wf(),
            can_observe(old(self)@, *read_outcome, *handle_outcome, *write_outcome),
        ensures
            final(self).wf(),
            final(self)@ == observed(old(self)@, *read_outcome, *handle_outcome, *write_outcome),
    {
        let ghost v0 = self@;
        if let ReadOutcome::Processed(Ok(request)) = read_outcome {
            if let HandleOutcome::Processed(handle_result) = handle_outcome {
                if let Ok(response) = &handle_result.result {
                    if let ResponseBody::Tile(_) = &response.body {
                        let duration = handle_result.after_timestamp.duration_since(&handle_result.before_timestamp);
                        self.on_tile_write(request, &duration);
                    }
                }
            }
        }
        let ghost v1 = self@;
        assert(v1 == match tile_event(*read_outcome, *handle_outcome) {
            Some((request, d)) => tile_written(v0, request.header.layer@, requested_zoom(request.body), d),
            None => v0,
        });
        if let ReadOutcome::Processed(Ok(request)) = read_outcome {
            if let WriteOutcome::Processed(Ok(http_response)) = write_outcome {
                proof {
                    lemma_http_room_ignores_known_layer(v1, request.header.layer@, requested_zoom(request.body), http_response.status_code);
                }
                self.on_http_response_write(request, http_response.status_code);
            }
        }
    }
}


impl WriteResponseObserver for ResponseAnalysis {
    open spec fn can_write(&self, read_outcome: ReadOutcome, handle_outcome: HandleOutcome, write_outcome: WriteOutcome) -> bool {
        self.wf() && can_observe(self@, read_outcome, handle_outcome, write_outcome)
    }

    open spec fn write_into(
        &self,
        read_outcome: ReadOutcome,
        handle_outcome: HandleOutcome,
        write_outcome: WriteOutcome,
        after: Self,
    ) -> bool {
        after.wf() && after@ == observed(self@, read_outcome, handle_outcome, write_outcome)
    }

    fn on_write(&mut self, read_outcome: &ReadOutcome, handle_outcome: &HandleOutcome, write_outcome: &WriteOutcome) {
        self.observe_write(read_outcome, handle_outcome, write_outcome);
    }
}

impl ResponseMetrics for ResponseAnalysis {
    open spec fn metrics_wf(&self) -> bool {
        self.wf()
    }

    open spec fn status_codes_view(&self) -> Seq<u16> {
        self@.codes
    }

    open spec fn zoom_range_view(&self) -> (u32, u32) {
        (0, ZOOM_LEVEL_COUNT as u32)
    }

    open spec fn layers_view(&self) -> Seq<Seq<char>> {
        self@.layers.map_values(|l: LayerResponseView| l.name)
    }

    open spec fn response_count_by_status_code(&self, code: u16) -> int {
        spec_count_response_by_status_code(self@, code)
    }

    open spec fn response_count_by_zoom_level(&self, zoom: u32) -> int {
        spec_count_response_by_zoom_level(self@, zoom as int)
    }

    open spec fn response_count_by_status_code_and_zoom_level(&self, code: u16, zoom: u32) -> int {
        spec_count_response_by_status_code_and_zoom_level(self@, code, zoom as int)
    }

    open spec fn total_tile_response_count(&self) -> int {
        spec_count_total_tile_response(self@)
    }

    open spec fn total_tile_response_seconds(&self) -> Option<int> {
        match fold_layer_durations(self@.layers) {
            Some(nanos) => Some(whole_seconds(nanos)),
            None => None,
        }
    }

    open spec fn tile_response_count_by_zoom_level(&self, zoom: u32) -> int {
        spec_count_tile_response_by_zoom_level(self@, zoom as int)
    }

    open spec fn tile_response_seconds_by_zoom_level(&self, zoom: u32) -> int {
        spec_tally_tile_response_duration_by_zoom_level(self@, zoom as int)
    }

    open spec fn response_count_by_layer_and_status_code(&self, layer: Seq<char>, code: u16) -> int {
        spec_count_response_by_layer_and_status_code(self@, layer, code)
    }

    /// The status codes responded with, each once.
    fn iterate_status_codes_responded(&self) -> (codes: Vec<u16>)
    {
        let codes = self.status_codes_responded.clone();
        proof {
            assert forall|i: int, j: int| 0 <= i < codes@.len() && 0 <= j < codes@.len() && i != j
                implies codes@[i] != codes@[j] by {
                if i < j {
                    assert(self@.codes[i] != self@.codes[j]);
                } else {
                    assert(self@.codes[j] != self@.codes[i]);
                }
            }
        }
        codes
    }

    /// The zoom levels the server handles: `0..=MAX_ZOOM_SERVER`.
    fn iterate_valid_zoom_levels(&self) -> (r: std::ops::Range<u32>)
    {
        0..(ZOOM_LEVEL_COUNT as u32)
    }

    /// The layers responded for, each once.
    fn iterate_layers_responded(&self) -> (names: Vec<String>)
    {
        let mut names: Vec<String> = Vec::new();
        let mut i: usize = 0;
        while i < self.analysis_by_layer.len()
            invariant
                i <= self@.layers.len(),
                self@.layers.len() == self.analysis_by_layer@.len(),
                names@.len() == i,
                forall|j: int| 0 <= j < i ==> #[trigger] names@[j]@ == self@.layers[j].name,
            decreases self@.layers.len() - i,
        {
            assert(self@.layers[i as int] == self.analysis_by_layer@[i as int]@);
            names.push(self.analysis_by_layer[i].layer.clone());
            i = i + 1;
        }
        names
    }

    /// Responses with status `code`, over all layers and zoom levels.
    fn count_response_by_status_code(&self, status_code: u16) -> (total: u64)
    {
        let ghost f = layer_status_total(status_code);
        proof {
            lemma_status_totals_nonneg(status_code);
        }
        let mut total: u64 = 0;
        let mut i: usize = 0;
        while i < self.analysis_by_layer.len()
            invariant
                i <= self@.layers.len(),
                self@.layers.len() == self.analysis_by_layer@.len(),
                self.wf(),
                f == layer_status_total(status_code),
                forall|a: LayerResponseView| #[trigger] f(a) >= 0,
                sum_of(self@.layers, f) <= u64::MAX,
                total == sum_of(self@.layers.take(i as int), f),
            decreases self@.layers.len() - i,
        {
            proof {
                lemma_sum_of_step(self@.layers, f, i as int);
            }
            assert(self@.layers[i as int] == self.analysis_by_layer@[i as int]@);
            total = total + self.analysis_by_layer[i].count_by_status_code(status_code);
            i = i + 1;
        }
        proof {
            lemma_take_all(self@.layers);
        }
        total
    }

    /// Responses at zoom level `zoom`, over all layers and status codes.
    fn count_response_by_zoom_level(&self, zoom: u32) -> (total: u64)
    {
        let ghost f = layer_zoom_total(zoom as int);
        proof {
            lemma_zoom_totals_nonneg(zoom as int);
        }
        let mut total: u64 = 0;
        let mut i: usize = 0;
        while i < self.analysis_by_layer.len()
            invariant
                i <= self@.layers.len(),
                self@.layers.len() == self.analysis_by_layer@.len(),
                self.wf(),
                f == layer_zoom_total(zoom as int),
                forall|a: LayerResponseView| #[trigger] f(a) >= 0,
                sum_of(self@.layers, f) <= u64::MAX,
                total == sum_of(self@.layers.take(i as int), f),
            decreases self@.layers.len() - i,
        {
            proof {
                lemma_sum_of_step(self@.layers, f, i as int);
            }
            assert(self@.layers[i as int] == self.analysis_by_layer@[i as int]@);
            total = total + self.analysis_by_layer[i].count_at_zoom(zoom);
            i = i + 1;
        }
        proof {
            lemma_take_all(self@.layers);
        }
        total
    }

    /// Responses with status `code` at zoom level `zoom`, over all layers.
    fn count_response_by_status_code_and_zoom_level(&self, status_code: u16, zoom: u32) -> (total: u64)
    {
        let ghost f = layer_code_zoom_total(status_code, zoom as int);
        proof {
            lemma_code_zoom_totals_nonneg(status_code, zoom as int);
        }
        let mut total: u64 = 0;
        let mut i: usize = 0;
        while i < self.analysis_by_layer.len()
            invariant
                i <= self@.layers.len(),
                self@.layers.len() == self.analysis_by_layer@.len(),
                self.wf(),
                f == layer_code_zoom_total(status_code, zoom as int),
                forall|a: LayerResponseView| #[trigger] f(a) >= 0,
                sum_of(self@.layers, f) <= u64::MAX,
                total == sum_of(self@.layers.take(i as int), f),
            decreases self@.layers.len() - i,
        {
            proof {
                lemma_sum_of_step(self@.layers, f, i as int);
            }
            assert(self@.layers[i as int] == self.analysis_by_layer@[i as int]@);
            total = total + self.analysis_by_layer[i].count_code_at_zoom(status_code, zoom);
            i = i + 1;
        }
        proof {
            lemma_take_all(self@.layers);
        }
        total
    }

    /// Tile responses, over all layers and zoom levels.
    fn count_total_tile_response(&self) -> (total: u64)
    {
        let ghost f = layer_tile_total();
        proof {
            assert forall|a: LayerResponseView| #[trigger] f(a) >= 0 by {
                crate::sums::lemma_sum_u64_nonneg(a.tile_counts);
            }
        }
        let mut total: u64 = 0;
        let mut i: usize = 0;
        while i < self.analysis_by_layer.len()
            invariant
                i <= self@.layers.len(),
                self@.layers.len() == self.analysis_by_layer@.len(),
                self.wf(),
                f == layer_tile_total(),
                forall|a: LayerResponseView| #[trigger] f(a) >= 0,
                sum_of(self@.layers, f) <= u64::MAX,
                total == sum_of(self@.layers.take(i as int), f),
            decreases self@.layers.len() - i,
        {
            proof {
                lemma_sum_of_step(self@.layers, f, i as int);
            }
            assert(self@.layers[i as int] == self.analysis_by_layer@[i as int]@);
            total = total + sum_counters(&self.analysis_by_layer[i].tile_response_count_by_zoom);
            i = i + 1;
        }
        proof {
            lemma_take_all(self@.layers);
        }
        total
    }

    /// Whole seconds spent on tile responses, over all layers and zoom levels,
    /// as an unsigned count (a negative count wraps around).
    fn tally_total_tile_response_duration(&self) -> (secs: u64)
    {
        let mut total = Duration::zero();
        let mut i: usize = 0;
        while i < self.analysis_by_layer.len()
            invariant
                i <= self@.layers.len(),
                self@.layers.len() == self.analysis_by_layer@.len(),
                self.wf(),
                fold_layer_durations(self@.layers) is Some,
                fold_layer_durations(self@.layers.take(i as int)) == Some(total.nanos as int),
                total.wf(),
            decreases self@.layers.len() - i,
        {
            proof {
                lemma_fold_layers_prefix_some(self@.layers, i as int + 1);
                assert(self@.layers.take(i as int + 1).drop_last() =~= self@.layers.take(i as int));
            }
            assert(self@.layers[i as int] == self.analysis_by_layer@[i as int]@);
            assert(layer_wf(self@.layers[i as int]));
            let layer_duration = sum_durations(&self.analysis_by_layer[i].tile_response_duration_by_zoom);
            total = total.plus(&layer_duration);
            i = i + 1;
        }
        proof {
            lemma_take_all(self@.layers);
        }
        total.num_seconds() as u64
    }

    /// Tile responses at zoom level `zoom`, over all layers.
    fn count_tile_response_by_zoom_level(&self, zoom: u32) -> (total: u64)
    {
        let ghost f = layer_tile_at_zoom(zoom as int);
        let mut total: u64 = 0;
        let mut i: usize = 0;
        while i < self.analysis_by_layer.len()
            invariant
                i <= self@.layers.len(),
                self@.layers.len() == self.analysis_by_layer@.len(),
                self.wf(),
                f == layer_tile_at_zoom(zoom as int),
                sum_of(self@.layers, f) <= u64::MAX,
                total == sum_of(self@.layers.take(i as int), f),
            decreases self@.layers.len() - i,
        {
            proof {
                lemma_sum_of_step(self@.layers, f, i as int);
            }
            assert(self@.layers[i as int] == self.analysis_by_layer@[i as int]@);
            if (zoom as usize) < self.analysis_by_layer[i].tile_response_count_by_zoom.len() {
                total = total + self.analysis_by_layer[i].tile_response_count_by_zoom[zoom as usize];
            }
            i = i + 1;
        }
        proof {
            lemma_take_all(self@.layers);
        }
        total
    }

    /// Whole seconds spent on tile responses at zoom level `zoom`, layer by
    /// layer, each as an unsigned count (a negative count wraps around).
    fn tally_tile_response_duration_by_zoom_level(&self, zoom: u32) -> (total: u64)
    {
        let ghost f = layer_seconds_at_zoom(zoom as int);
        let mut total: u64 = 0;
        let mut i: usize = 0;
        while i < self.analysis_by_layer.len()
            invariant
                i <= self@.layers.len(),
                self@.layers.len() == self.analysis_by_layer@.len(),
                self.wf(),
                f == layer_seconds_at_zoom(zoom as int),
                sum_of(self@.layers, f) <= u64::MAX,
                total == sum_of(self@.layers.take(i as int), f),
            decreases self@.layers.len() - i,
        {
            proof {
                lemma_sum_of_step(self@.layers, f, i as int);
            }
            assert(self@.layers[i as int] == self.analysis_by_layer@[i as int]@);
            let durations = &self.analysis_by_layer[i].tile_response_duration_by_zoom;
            if (zoom as usize) < durations.len() {
                proof {
                    assert(layer_wf(self@.layers[i as int]));
                    assert(durations@[zoom as int].wf());
                }
                total = total + (durations[zoom as usize].num_seconds() as u64);
            }
            i = i + 1;
        }
        proof {
            lemma_take_all(self@.layers);
        }
        total
    }

    /// Responses with status `code` for the layer named `layer`.
    fn count_response_by_layer_and_status_code(&self, layer: &String, status_code: u16) -> (total: u64)
    {
        let ghost f = named_layer_status_total(layer@, status_code);
        proof {
            lemma_status_totals_nonneg(status_code);
            assert forall|a: LayerResponseView| #[trigger] f(a) >= 0 by {
                assert(layer_status_total(status_code)(a) >= 0);
            }
        }
        let mut total: u64 = 0;
        let mut i: usize = 0;
        while i < self.analysis_by_layer.len()
            invariant
                i <= self@.layers.len(),
                self@.layers.len() == self.analysis_by_layer@.len(),
                self.wf(),
                f == named_layer_status_total(layer@, status_code),
                forall|a: LayerResponseView| #[trigger] f(a) >= 0,
                sum_of(self@.layers, f) <= u64::MAX,
                total == sum_of(self@.layers.take(i as int), f),
            decreases self@.layers.len() - i,
        {
            proof {
                lemma_sum_of_step(self@.layers, f, i as int);
            }
            assert(self@.layers[i as int] == self.analysis_by_layer@[i as int]@);
            if self.analysis_by_layer[i].layer == *layer {
                total = total + self.analysis_by_layer[i].count_by_status_code(status_code);
            }
            i = i + 1;
        }
        proof {
            lemma_take_all(self@.layers);
        }
        total
    }
}

/// Whether `code` is among the codes.
pub fn contains_code(codes: &Vec<u16>, code: u16) -> (b: bool)
    ensures
        b == codes@.contains(code),
{
    let mut k: usize = 0;
    while k < codes.len()
        invariant
            k <= codes@.len(),
            forall|j: int| 0 <= j < k ==> codes@[j] != code,
        decreases codes@.len() - k,
    {
        if codes[k] == code {
            assert(codes@[k as int] == code);
            return true;
        }
        k = k + 1;
    }
    false
}

/// Appending the empty analysis of a layer not yet known keeps the analysis well formed.
pub proof fn lemma_new_layer_keeps_wf(v: ResponseView, name: Seq<char>)
    requires
        response_view_wf(v),
        !has_layer(v.layers, name),
    ensures
        response_view_wf(ResponseView { layers: v.layers.push(empty_layer(name)), codes: v.codes }),
{
    let w = ResponseView { layers: v.layers.push(empty_layer(name)), codes: v.codes };
    let n = v.layers.len() as int;
    assert(w.layers[n] == empty_layer(name));
    assert(layer_wf(empty_layer(name))) by {
        assert(crate::sums::all_wf(zero_durations()));
    }
    assert forall|i: int| 0 <= i < w.layers.len() implies layer_wf(#[trigger] w.layers[i]) by {
        if i < n {
            assert(w.layers[i] == v.layers[i]);
        }
    }
    assert forall|i: int, j: int| 0 <= i < j < w.layers.len() implies #[trigger] w.layers[i].name != #[trigger] w.layers[j].name by {
        if j == n {
            assert(w.layers[i] == v.layers[i]);
            if v.layers[i].name == name {
                assert(has_layer(v.layers, name));
            }
        } else {
            assert(w.layers[i] == v.layers[i]);
            assert(w.layers[j] == v.layers[j]);
        }
    }
    assert forall|c: u16| #[trigger] w.codes.contains(c) <==> exists|i: int| 0 <= i < w.layers.len() && #[trigger] has_row(w.layers[i], c) by {
        if w.codes.contains(c) {
            assert(v.codes.contains(c));
            let i = choose|i: int| 0 <= i < v.layers.len() && #[trigger] has_row(v.layers[i], c);
            assert(w.layers[i] == v.layers[i]);
            assert(has_row(w.layers[i], c));
        }
        if exists|i: int| 0 <= i < w.layers.len() && #[trigger] has_row(w.layers[i], c) {
            let i = choose|i: int| 0 <= i < w.layers.len() && #[trigger] has_row(w.layers[i], c);
            if i == n {
                assert(w.layers[i].rows.len() == 0);
                assert(false);
            } else {
                assert(w.layers[i] == v.layers[i]);
                assert(has_row(v.layers[i], c));
            }
            assert(v.codes.contains(c));
        }
    }
}

/// After making the layer known, the layer at `i` is either the new empty one
/// or the one that was there.
pub proof fn lemma_layer_after_ensure(v: ResponseView, name: Seq<char>, i: int)
    requires
        response_view_wf(v),
        0 <= i < ensure_layer(v.layers, name).len(),
        ensure_layer(v.layers, name)[i].name == name,
    ensures
        has_layer(v.layers, name) ==> i < v.layers.len() && ensure_layer(v.layers, name)[i] == v.layers[i],
        !has_layer(v.layers, name) ==> i == v.layers.len() && ensure_layer(v.layers, name)[i] == empty_layer(name),
        forall|j: int| 0 <= j < v.layers.len() && #[trigger] v.layers[j].name == name ==> j == i,
{
    if !has_layer(v.layers, name) {
        if i < v.layers.len() {
            assert(ensure_layer(v.layers, name)[i] == v.layers[i]);
            assert(has_layer(v.layers, name));
        }
    }
    assert forall|j: int| 0 <= j < v.layers.len() && #[trigger] v.layers[j].name == name implies j == i by {
        if has_layer(v.layers, name) {
            if j < i {
                assert(v.layers[j].name != v.layers[i].name);
            } else if i < j {
                assert(v.layers[i].name != v.layers[j].name);
            }
        } else {
            assert(has_layer(v.layers, name));
        }
    }
}

/// Changing only the layer at `i`, the one named `name`, by `f` is `update_layer`.
pub proof fn lemma_update_single_layer(
    v: ResponseView,
    name: Seq<char>,
    i: int,
    f: spec_fn(LayerResponseView) -> LayerResponseView,
    w: ResponseView,
)
    requires
        response_view_wf(v),
        0 <= i < v.layers.len(),
        v.layers[i].name == name,
        w.layers.len() == v.layers.len(),
        w.codes == v.codes,
        w.layers[i] == f(v.layers[i]),
        forall|j: int| 0 <= j < w.layers.len() && j != i ==> #[trigger] w.layers[j] == v.layers[j],
    ensures
        w == (ResponseView { layers: update_layer(v.layers, name, f), codes: v.codes }),
{
    assert forall|j: int| 0 <= j < v.layers.len() && j != i implies #[trigger] v.layers[j].name != name by {
        if j < i {
            assert(v.layers[j].name != v.layers[i].name);
        } else {
            assert(v.layers[i].name != v.layers[j].name);
        }
    }
    assert(w.layers =~= update_layer(v.layers, name, f));
}

/// Counting a tile response at a handled zoom level keeps the analysis well formed.
pub proof fn lemma_tile_update_keeps_wf(v: ResponseView, i: int, z: int, d: Duration)
    requires
        response_view_wf(v),
        0 <= i < v.layers.len(),
        0 <= z < ZOOM_LEVEL_COUNT,
        duration_in_range(v.layers[i].tile_durations[z].nanos + d.nanos),
    ensures
        response_view_wf(ResponseView {
            layers: v.layers.update(i, add_tile_response(z, d)(v.layers[i])),
            codes: v.codes,
        }),
{
    let w = ResponseView { layers: v.layers.update(i, add_tile_response(z, d)(v.layers[i])), codes: v.codes };
    let l = add_tile_response(z, d)(v.layers[i]);
    assert(layer_wf(v.layers[i]));
    assert(layer_wf(l));
    assert forall|j: int| 0 <= j < w.layers.len() implies layer_wf(#[trigger] w.layers[j]) by {
        if j != i {
            assert(w.layers[j] == v.layers[j]);
        }
    }
    assert forall|a: int, b: int| 0 <= a < b < w.layers.len() implies #[trigger] w.layers[a].name != #[trigger] w.layers[b].name by {
        assert(w.layers[a].name == v.layers[a].name);
        assert(w.layers[b].name == v.layers[b].name);
    }
    assert forall|c: u16| #[trigger] w.codes.contains(c) <==> exists|j: int| 0 <= j < w.layers.len() && #[trigger] has_row(w.layers[j], c) by {
        if w.codes.contains(c) {
            let j = choose|j: int| 0 <= j < v.layers.len() && #[trigger] has_row(v.layers[j], c);
            assert(w.layers[j].rows == v.layers[j].rows);
            assert(has_row(w.layers[j], c));
        }
        if exists|j: int| 0 <= j < w.layers.len() && #[trigger] has_row(w.layers[j], c) {
            let j = choose|j: int| 0 <= j < w.layers.len() && #[trigger] has_row(w.layers[j], c);
            assert(w.layers[j].rows == v.layers[j].rows);
            assert(has_row(v.layers[j], c));
        }
    }
}

/// Making sure of a row for `code` in the layer at `i`, and of `code` among
/// the known codes, keeps the analysis well formed.
pub proof fn lemma_row_added_keeps_wf(v: ResponseView, name: Seq<char>, i: int, code: u16, w: ResponseView)
    requires
        response_view_wf(v),
        0 <= i < v.layers.len(),
        v.layers[i].name == name,
        w.layers == update_layer(v.layers, name, ensure_row(code)),
        w.codes == (if v.codes.contains(code) { v.codes } else { v.codes.push(code) }),
    ensures
        response_view_wf(w),
        has_row(w.layers[i], code),
{
    assert forall|j: int| 0 <= j < v.layers.len() && j != i implies #[trigger] v.layers[j].name != name by {
        if j < i {
            assert(v.layers[j].name != v.layers[i].name);
        } else {
            assert(v.layers[i].name != v.layers[j].name);
        }
    }
    let l = v.layers[i];
    let nl = ensure_row(code)(l);
    assert(w.layers[i] == nl);
    assert(layer_wf(l));
    if !has_row(l, code) {
        let n = l.rows.len() as int;
        assert(nl.rows[n].code == code);
        assert(has_row(nl, code));
        assert forall|r: int| 0 <= r < nl.rows.len() implies (#[trigger] nl.rows[r]).counts.len() == ZOOM_LEVEL_COUNT by {
            if r < n {
                assert(nl.rows[r] == l.rows[r]);
            }
        }
        assert forall|r: int, s: int| 0 <= r < s < nl.rows.len() implies #[trigger] nl.rows[r].code != #[trigger] nl.rows[s].code by {
            assert(nl.rows[r] == l.rows[r]);
            if s < n {
                assert(nl.rows[s] == l.rows[s]);
            } else {
                if l.rows[r].code == code {
                    assert(has_row(l, code));
                }
            }
        }
    }
    assert(layer_wf(nl));
    assert(has_row(w.layers[i], code));
    assert forall|j: int| 0 <= j < w.layers.len() implies layer_wf(#[trigger] w.layers[j]) by {
        if j != i {
            assert(w.layers[j] == v.layers[j]);
        }
    }
    assert forall|a: int, b: int| 0 <= a < b < w.layers.len() implies #[trigger] w.layers[a].name != #[trigger] w.layers[b].name by {
        assert(w.layers[a].name == v.layers[a].name);
        assert(w.layers[b].name == v.layers[b].name);
    }
    assert forall|a: int, b: int| 0 <= a < b < w.codes.len() implies #[trigger] w.codes[a] != #[trigger] w.codes[b] by {
        if !v.codes.contains(code) {
            if b == v.codes.len() {
                assert(w.codes[a] == v.codes[a]);
                if v.codes[a] == code {
                    assert(v.codes.contains(code));
                }
            } else {
                assert(w.codes[a] == v.codes[a]);
                assert(w.codes[b] == v.codes[b]);
            }
        }
    }
    assert forall|c: u16| #[trigger] w.codes.contains(c) <==> exists|j: int| 0 <= j < w.layers.len() && #[trigger] has_row(w.layers[j], c) by {
        if c == code {
            assert(has_row(w.layers[i], c));
            if !v.codes.contains(code) {
                assert(w.codes[v.codes.len() as int] == code);
            }
            assert(w.codes.contains(c));
        } else {
            if w.codes.contains(c) {
                let k = choose|k: int| 0 <= k < w.codes.len() && w.codes[k] == c;
                if !v.codes.contains(code) && k == v.codes.len() {
                    assert(false);
                }
                assert(v.codes[k] == c);
                assert(v.codes.contains(c));
                let j = choose|j: int| 0 <= j < v.layers.len() && #[trigger] has_row(v.layers[j], c);
                let r = choose|r: int| 0 <= r < v.layers[j].rows.len() && #[trigger] v.layers[j].rows[r].code == c;
                if j == i {
                    assert(nl.rows[r] == l.rows[r]);
                    assert(has_row(w.layers[j], c));
                } else {
                    assert(w.layers[j] == v.layers[j]);
                    assert(has_row(w.layers[j], c));
                }
            }
            if exists|j: int| 0 <= j < w.layers.len() && #[trigger] has_row(w.layers[j], c) {
                let j = choose|j: int| 0 <= j < w.layers.len() && #[trigger] has_row(w.layers[j], c);
                let r = choose|r: int| 0 <= r < w.layers[j].rows.len() && #[trigger] w.layers[j].rows[r].code == c;
                if j == i {
                    if r < l.rows.len() {
                        assert(nl.rows[r] == l.rows[r]);
                        assert(has_row(v.layers[j], c));
                    } else {
                        assert(nl.rows[r].code == code);
                    }
                } else {
                    assert(w.layers[j] == v.layers[j]);
                    assert(has_row(v.layers[j], c));
                }
                assert(v.codes.contains(c));
                let k = choose|k: int| 0 <= k < v.codes.len() && v.codes[k] == c;
                assert(w.codes[k] == c);
            }
        }
    }
}

/// Counting an HTTP response at a handled zoom level keeps the analysis well formed.
pub proof fn lemma_http_update_keeps_wf(v: ResponseView, i: int, code: u16, z: int)
    requires
        response_view_wf(v),
        0 <= i < v.layers.len(),
        0 <= z < ZOOM_LEVEL_COUNT,
    ensures
        response_view_wf(ResponseView {
            layers: v.layers.update(i, add_http_response(code, z)(v.layers[i])),
            codes: v.codes,
        }),
{
    let w = ResponseView { layers: v.layers.update(i, add_http_response(code, z)(v.layers[i])), codes: v.codes };
    let l = v.layers[i];
    let nl = add_http_response(code, z)(l);
    assert(layer_wf(l));
    assert forall|r: int| 0 <= r < nl.rows.len() implies (#[trigger] nl.rows[r]).code == l.rows[r].code
        && nl.rows[r].counts.len() == ZOOM_LEVEL_COUNT by {}
    assert forall|r: int, s: int| 0 <= r < s < nl.rows.len() implies #[trigger] nl.rows[r].code != #[trigger] nl.rows[s].code by {
        assert(nl.rows[r].code == l.rows[r].code);
        assert(nl.rows[s].code == l.rows[s].code);
    }
    assert(layer_wf(nl));
    assert forall|r: int| 0 <= r < nl.rows.len() implies #[trigger] nl.rows[r].code == l.rows[r].code by {}
    assert forall|c: u16| has_row(nl, c) <==> has_row(l, c) by {
        if has_row(nl, c) {
            let r = choose|r: int| 0 <= r < nl.rows.len() && #[trigger] nl.rows[r].code == c;
            assert(l.rows[r].code == c);
        }
        if has_row(l, c) {
            let r = choose|r: int| 0 <= r < l.rows.len() && #[trigger] l.rows[r].code == c;
            assert(nl.rows[r].code == c);
        }
    }
    assert forall|j: int| 0 <= j < w.layers.len() implies layer_wf(#[trigger] w.layers[j]) by {
        if j != i {
            assert(w.layers[j] == v.layers[j]);
        }
    }
    assert forall|a: int, b: int| 0 <= a < b < w.layers.len() implies #[trigger] w.layers[a].name != #[trigger] w.layers[b].name by {
        assert(w.layers[a].name == v.layers[a].name);
        assert(w.layers[b].name == v.layers[b].name);
    }
    assert forall|c: u16| #[trigger] w.codes.contains(c) <==> exists|j: int| 0 <= j < w.layers.len() && #[trigger] has_row(w.layers[j], c) by {
        if w.codes.contains(c) {
            let j = choose|j: int| 0 <= j < v.layers.len() && #[trigger] has_row(v.layers[j], c);
            if j != i {
                assert(w.layers[j] == v.layers[j]);
            }
            assert(has_row(w.layers[j], c));
        }
        if exists|j: int| 0 <= j < w.layers.len() && #[trigger] has_row(w.layers[j], c) {
            let j = choose|j: int| 0 <= j < w.layers.len() && #[trigger] has_row(w.layers[j], c);
            if j != i {
                assert(w.layers[j] == v.layers[j]);
            }
            assert(has_row(v.layers[j], c));
        }
    }
}

/// Whether there is room to count an HTTP response does not depend on making its layer known.
pub proof fn lemma_http_room_ignores_known_layer(v: ResponseView, name: Seq<char>, zoom: Option<u32>, code: u16)
    requires
        http_room(v, name, zoom, code),
    ensures
        http_room(tile_written(v, name, None, Duration { nanos: 0 }), name, zoom, code),
{
}

/// The responses of a code for any layer are never negative.
pub proof fn lemma_status_totals_nonneg(code: u16)
    ensures
        forall|a: LayerResponseView| #[trigger] layer_status_total(code)(a) >= 0,
{
    assert forall|a: LayerResponseView| #[trigger] layer_status_total(code)(a) >= 0 by {
        assert forall|r: StatusRowView| #[trigger] row_total(code)(r) >= 0 by {
            crate::sums::lemma_sum_u64_nonneg(r.counts);
        }
        crate::sums::lemma_sum_of_nonneg(a.rows, row_total(code));
    }
}

/// The responses at a zoom level for any layer are never negative.
pub proof fn lemma_zoom_totals_nonneg(z: int)
    ensures
        forall|a: LayerResponseView| #[trigger] layer_zoom_total(z)(a) >= 0,
{
    assert forall|a: LayerResponseView| #[trigger] layer_zoom_total(z)(a) >= 0 by {
        crate::sums::lemma_sum_of_nonneg(a.rows, row_at_zoom(z));
    }
}

/// The responses of a code at a zoom level for any layer are never negative.
pub proof fn lemma_code_zoom_totals_nonneg(code: u16, z: int)
    ensures
        forall|a: LayerResponseView| #[trigger] layer_code_zoom_total(code, z)(a) >= 0,
{
    assert forall|a: LayerResponseView| #[trigger] layer_code_zoom_total(code, z)(a) >= 0 by {
        crate::sums::lemma_sum_of_nonneg(a.rows, row_code_at_zoom(code, z));
    }
}

/// When the fold over all layers succeeds, so does the fold over every prefix.
pub proof fn lemma_fold_layers_prefix_some(s: Seq<LayerResponseView>, i: int)
    requires
        0 <= i <= s.len(),
        fold_layer_durations(s) is Some,
    ensures
        fold_layer_durations(s.take(i)) is Some,
        i > 0 ==> fold_durations(s[i - 1].tile_durations) is Some,
    decreases s.len() - i,
{
    if i < s.len() {
        lemma_fold_layers_prefix_some(s, i + 1);
        assert(s.take(i + 1).drop_last() =~= s.take(i));
        if i > 0 {
            assert(s.take(i).last() == s[i - 1]);
            assert(s.take(i).drop_last() =~= s.take(i - 1));
        }
    } else {
        assert(s.take(i) =~= s);
        if i > 0 {
            assert(s.last() == s[i - 1]);
        }
    }
}

// ---------------------------------------------------------------------------
// Laws of the response analysis
// ---------------------------------------------------------------------------

/// Applying `f` to the layer named `name`, when it is the layer at `i`, changes only that layer.
pub proof fn lemma_update_layer_is_update(
    ls: Seq<LayerResponseView>,
    name: Seq<char>,
    f: spec_fn(LayerResponseView) -> LayerResponseView,
    i: int,
)
    requires
        forall|a: int, b: int| 0 <= a < b < ls.len() ==> #[trigger] ls[a].name != #[trigger] ls[b].name,
        0 <= i < ls.len(),
        ls[i].name == name,
    ensures
        update_layer(ls, name, f) == ls.update(i, f(ls[i])),
{
    assert forall|j: int| 0 <= j < ls.len() && j != i implies #[trigger] ls[j].name != name by {
        if j < i {
            assert(ls[j].name != ls[i].name);
        } else {
            assert(ls[i].name != ls[j].name);
        }
    }
    assert(update_layer(ls, name, f) =~= ls.update(i, f(ls[i])));
}

/// Making a layer known adds nothing to a sum to which an empty layer adds nothing.
pub proof fn lemma_sum_ensure_layer(ls: Seq<LayerResponseView>, name: Seq<char>, f: spec_fn(LayerResponseView) -> int)
    requires
        f(empty_layer(name)) == 0,
    ensures
        sum_of(ensure_layer(ls, name), f) == sum_of(ls, f),
{
    if !has_layer(ls, name) {
        lemma_sum_of_push(ls, f, empty_layer(name));
    }
}

/// The position of the layer named `name` once it is known.
pub proof fn lemma_known_layer(v: ResponseView, name: Seq<char>) -> (i: int)
    requires
        response_view_wf(v),
    ensures
        response_view_wf(ResponseView { layers: ensure_layer(v.layers, name), codes: v.codes }),
        0 <= i < ensure_layer(v.layers, name).len(),
        ensure_layer(v.layers, name)[i].name == name,
        i < v.layers.len() ==> ensure_layer(v.layers, name)[i] == v.layers[i],
        i == v.layers.len() ==> ensure_layer(v.layers, name)[i] == empty_layer(name),
{
    if has_layer(v.layers, name) {
        let i = choose|i: int| 0 <= i < v.layers.len() && #[trigger] v.layers[i].name == name;
        i
    } else {
        lemma_new_layer_keeps_wf(v, name);
        v.layers.len() as int
    }
}

/// A tile response at a zoom level the server handles is counted once, at
/// that zoom level and no other.
pub proof fn law_tile_response_counted_once(v: ResponseView, name: Seq<char>, z: u32, d: Duration, z2: int)
    requires
        response_view_wf(v),
        z < ZOOM_LEVEL_COUNT,
        tile_room(v, name, Some(z), d),
    ensures
        spec_count_tile_response_by_zoom_level(tile_written(v, name, Some(z), d), z2)
            == spec_count_tile_response_by_zoom_level(v, z2) + (if z2 == z { 1int } else { 0int }),
{
    let f = layer_tile_at_zoom(z2);
    let ls = ensure_layer(v.layers, name);
    let i = lemma_known_layer(v, name);
    lemma_sum_ensure_layer(v.layers, name, f);
    let g = add_tile_response(z as int, d);
    lemma_update_layer_is_update(ls, name, g, i);
    lemma_sum_of_update(ls, f, i, g(ls[i]));
    if i < v.layers.len() {
        assert(v.layers[i].tile_counts[z as int] < u64::MAX);
    }
    assert(layer_wf(ls[i]));
}

/// An HTTP response to a tile request at a zoom level the server handles is
/// counted once, for its status code at that zoom level and no other.
pub proof fn law_http_response_counted_once(v: ResponseView, name: Seq<char>, z: u32, code: u16, c2: u16, z2: int)
    requires
        response_view_wf(v),
        z < ZOOM_LEVEL_COUNT,
        http_room(v, name, Some(z), code),
    ensures
        spec_count_response_by_status_code_and_zoom_level(http_written(v, name, Some(z), code), c2, z2)
            == spec_count_response_by_status_code_and_zoom_level(v, c2, z2) + (if c2 == code && z2 == z { 1int } else { 0int }),
{
    let f = layer_code_zoom_total(c2, z2);
    let ls = ensure_layer(v.layers, name);
    let i = lemma_known_layer(v, name);
    let v1 = ResponseView { layers: ls, codes: v.codes };
    lemma_sum_ensure_layer(v.layers, name, f);
    lemma_update_layer_is_update(ls, name, ensure_row(code), i);
    let l = ls[i];
    let rl = ensure_row(code)(l);
    assert(layer_wf(l));
    lemma_ensure_row_sum(l, code, row_code_at_zoom(c2, z2));
    lemma_sum_of_update(ls, f, i, rl);
    let ls2 = ls.update(i, rl);
    let codes2 = if v.codes.contains(code) { v.codes } else { v.codes.push(code) };
    lemma_row_added_keeps_wf(v1, name, i, code, ResponseView { layers: ls2, codes: codes2 });
    let g = add_http_response(code, z as int);
    lemma_update_layer_is_update(ls2, name, g, i);
    lemma_sum_of_update(ls2, f, i, g(rl));
    let r = choose|r: int| 0 <= r < rl.rows.len() && #[trigger] rl.rows[r].code == code;
    assert(layer_wf(rl));
    lemma_row_increment_sum(rl, code, z as int, r, c2, z2);
    if i < v.layers.len() {
        if r < l.rows.len() {
            assert(rl.rows[r] == l.rows[r]);
            assert(l.rows[r].counts[z as int] < u64::MAX);
        }
    }
}

/// An HTTP response to a request for no tile, such as a layer description,
/// or for a tile at a zoom level the server does not handle, is counted nowhere.
pub proof fn law_http_response_without_handled_zoom_counts_nothing(
    v: ResponseView,
    name: Seq<char>,
    zoom: Option<u32>,
    code: u16,
    c2: u16,
    z2: int,
)
    requires
        response_view_wf(v),
        zoom matches Some(z) ==> z >= ZOOM_LEVEL_COUNT,
    ensures
        spec_count_response_by_status_code_and_zoom_level(http_written(v, name, zoom, code), c2, z2)
            == spec_count_response_by_status_code_and_zoom_level(v, c2, z2),
        spec_count_response_by_status_code(http_written(v, name, zoom, code), c2) == spec_count_response_by_status_code(v, c2),
        spec_count_response_by_zoom_level(http_written(v, name, zoom, code), z2) == spec_count_response_by_zoom_level(v, z2),
        spec_count_total_tile_response(http_written(v, name, zoom, code)) == spec_count_total_tile_response(v),
{
    let ls = ensure_layer(v.layers, name);
    let i = lemma_known_layer(v, name);
    lemma_update_layer_is_update(ls, name, ensure_row(code), i);
    let l = ls[i];
    let rl = ensure_row(code)(l);
    assert(layer_wf(l));
    let f1 = layer_code_zoom_total(c2, z2);
    lemma_sum_ensure_layer(v.layers, name, f1);
    lemma_ensure_row_sum(l, code, row_code_at_zoom(c2, z2));
    lemma_sum_of_update(ls, f1, i, rl);
    let f2 = layer_status_total(c2);
    lemma_sum_ensure_layer(v.layers, name, f2);
    crate::sums::lemma_sum_u64_zeros(zero_counts());
    lemma_ensure_row_sum(l, code, row_total(c2));
    lemma_sum_of_update(ls, f2, i, rl);
    let f3 = layer_zoom_total(z2);
    lemma_sum_ensure_layer(v.layers, name, f3);
    lemma_ensure_row_sum(l, code, row_at_zoom(z2));
    lemma_sum_of_update(ls, f3, i, rl);
    let f4 = layer_tile_total();
    crate::sums::lemma_sum_u64_zeros(empty_layer(name).tile_counts);
    lemma_sum_ensure_layer(v.layers, name, f4);
    lemma_sum_of_update(ls, f4, i, rl);
}

/// A zero row adds nothing to a row sum to which zero counters add nothing.
pub proof fn lemma_ensure_row_sum(l: LayerResponseView, code: u16, f: spec_fn(StatusRowView) -> int)
    requires
        f(StatusRowView { code, counts: zero_counts() }) == 0,
    ensures
        sum_of(ensure_row(code)(l).rows, f) == sum_of(l.rows, f),
{
    if !has_row(l, code) {
        lemma_sum_of_push(l.rows, f, StatusRowView { code, counts: zero_counts() });
    }
}

/// Incrementing the row of `code` at zoom level `z` adds one to the
/// responses of `code` at `z`, and nothing to any other code or zoom level.
pub proof fn lemma_row_increment_sum(l: LayerResponseView, code: u16, z: int, r: int, c2: u16, z2: int)
    requires
        layer_wf(l),
        0 <= z < ZOOM_LEVEL_COUNT,
        0 <= r < l.rows.len(),
        l.rows[r].code == code,
        l.rows[r].counts[z] < u64::MAX,
    ensures
        sum_of(add_http_response(code, z)(l).rows, row_code_at_zoom(c2, z2))
            == sum_of(l.rows, row_code_at_zoom(c2, z2)) + (if c2 == code && z2 == z { 1int } else { 0int }),
{
    let f = row_code_at_zoom(c2, z2);
    let nr = StatusRowView { code, counts: l.rows[r].counts.update(z, (l.rows[r].counts[z] + 1) as u64) };
    assert forall|q: int| 0 <= q < l.rows.len() && q != r implies #[trigger] l.rows[q].code != code by {
        if q < r {
            assert(l.rows[q].code != l.rows[r].code);
        } else {
            assert(l.rows[r].code != l.rows[q].code);
        }
    }
    assert(add_http_response(code, z)(l).rows =~= l.rows.update(r, nr));
    lemma_sum_of_update(l.rows, f, r, nr);
}

/// The zoom levels the server handles, in order.
pub open spec fn zoom_levels() -> Seq<int> {
    Seq::new(ZOOM_LEVEL_COUNT as nat, |i: int| i)
}

/// The tile responses counted at each zoom level the server handles add up
/// to all the tile responses counted.
pub proof fn law_tile_responses_add_up_over_zoom_levels(analysis: &ResponseAnalysis)
    requires
        analysis.wf(),
    ensures
        analysis.total_tile_response_count()
            == sum_of(zoom_levels(), |z: int| analysis.tile_response_count_by_zoom_level(z as u32)),
{
    let v = analysis@;
    let g = |l: LayerResponseView, z: int| if 0 <= z < l.tile_counts.len() { l.tile_counts[z] as int } else { 0 };
    assert forall|i: int| 0 <= i < v.layers.len() implies
        #[trigger] layer_tile_total()(v.layers[i]) == sum_of(zoom_levels(), |z: int| g(v.layers[i], z)) by {
        let l = v.layers[i];
        assert(layer_wf(l));
        crate::sums::lemma_sum_u64_by_position(l.tile_counts);
        assert(Seq::new(l.tile_counts.len(), |j: int| j) =~= zoom_levels());
        crate::sums::lemma_sum_of_pointwise(
            zoom_levels(),
            |z: int| if 0 <= z < l.tile_counts.len() { l.tile_counts[z] as int } else { 0 },
            zoom_levels(),
            |z: int| g(l, z),
        );
    }
    crate::sums::lemma_sum_of_pointwise(
        v.layers,
        layer_tile_total(),
        v.layers,
        |l: LayerResponseView| sum_of(zoom_levels(), |z: int| g(l, z)),
    );
    crate::sums::lemma_sum_exchange(v.layers, zoom_levels(), g);
    assert forall|k: int| #![trigger zoom_levels()[k]] 0 <= k < zoom_levels().len() implies
        sum_of(v.layers, |l: LayerResponseView| g(l, zoom_levels()[k]))
            == analysis.tile_response_count_by_zoom_level(zoom_levels()[k] as u32) by {
        let z = zoom_levels()[k];
        assert(z == k);
        assert(layer_tile_at_zoom(z) =~= (|l: LayerResponseView| g(l, z)));
    }
    crate::sums::lemma_sum_of_pointwise(
        zoom_levels(),
        |z: int| sum_of(v.layers, |l: LayerResponseView| g(l, z)),
        zoom_levels(),
        |z: int| analysis.tile_response_count_by_zoom_level(z as u32),
    );
}

/// An indicator of `x` adds up, over distinct elements, to its weight when
/// `x` is among them and to zero otherwise.
pub proof fn lemma_sum_of_indicator(s: Seq<u16>, x: u16, w: int)
    requires
        forall|i: int, j: int| 0 <= i < j < s.len() ==> s[i] != s[j],
    ensures
        sum_of(s, |a: u16| if a == x { w } else { 0 }) == if s.contains(x) { w } else { 0 },
    decreases s.len(),
{
    if s.len() > 0 {
        let t = s.drop_last();
        assert forall|i: int, j: int| 0 <= i < j < t.len() implies t[i] != t[j] by {
            assert(t[i] == s[i] && t[j] == s[j]);
        }
        lemma_sum_of_indicator(t, x, w);
        if t.contains(x) {
            let k = choose|k: int| 0 <= k < t.len() && t[k] == x;
            assert(s[k] == x);
            assert(s.last() != x) by {
                assert(s[k] != s[s.len() - 1]);
            }
        }
        if s.contains(x) {
            let k = choose|k: int| 0 <= k < s.len() && s[k] == x;
            if k < s.len() - 1 {
                assert(t[k] == x);
            }
        }
        if s.last() == x {
            assert(s[s.len() - 1] == x);
        }
    }
}

/// The responses of a layer counted under every status code it has, over
/// distinct codes among which all of its codes are, add up to all of its responses.
pub proof fn lemma_layer_responses_by_code(l: LayerResponseView, codes: Seq<u16>)
    requires
        forall|i: int, j: int| 0 <= i < j < codes.len() ==> codes[i] != codes[j],
        forall|r: int| 0 <= r < l.rows.len() ==> codes.contains(#[trigger] l.rows[r].code),
    ensures
        sum_of(codes, |c: u16| sum_of(l.rows, row_total(c)))
            == sum_of(l.rows, |r: StatusRowView| sum_u64(r.counts)),
{
    let h = |r: StatusRowView, c: u16| row_total(c)(r);
    crate::sums::lemma_sum_exchange(l.rows, codes, h);
    assert forall|k: int| #![trigger codes[k]] 0 <= k < codes.len() implies
        sum_of(l.rows, |r: StatusRowView| h(r, codes[k])) == sum_of(l.rows, row_total(codes[k])) by {
        assert((|r: StatusRowView| h(r, codes[k])) =~= row_total(codes[k]));
    }
    crate::sums::lemma_sum_of_pointwise(
        codes,
        |c: u16| sum_of(l.rows, |r: StatusRowView| h(r, c)),
        codes,
        |c: u16| sum_of(l.rows, row_total(c)),
    );
    assert forall|k: int| #![trigger l.rows[k]] 0 <= k < l.rows.len() implies
        sum_of(codes, |c: u16| h(l.rows[k], c)) == sum_u64(l.rows[k].counts) by {
        assert(codes.contains(l.rows[k].code));
        lemma_sum_of_indicator(codes, l.rows[k].code, sum_u64(l.rows[k].counts));
        crate::sums::lemma_sum_of_pointwise(
            codes,
            |c: u16| h(l.rows[k], c),
            codes,
            |a: u16| if a == l.rows[k].code { sum_u64(l.rows[k].counts) } else { 0 },
        );
    }
    crate::sums::lemma_sum_of_pointwise(
        l.rows,
        |r: StatusRowView| sum_of(codes, |c: u16| h(r, c)),
        l.rows,
        |r: StatusRowView| sum_u64(r.counts),
    );
}

/// The responses of a well-formed layer counted at every zoom level the
/// server handles add up to all of its responses.
pub proof fn lemma_layer_responses_by_zoom(l: LayerResponseView)
    requires
        layer_wf(l),
    ensures
        sum_of(zoom_levels(), |z: int| sum_of(l.rows, row_at_zoom(z)))
            == sum_of(l.rows, |r: StatusRowView| sum_u64(r.counts)),
{
    let a = |r: StatusRowView, z: int| row_at_zoom(z)(r);
    crate::sums::lemma_sum_exchange(l.rows, zoom_levels(), a);
    assert forall|k: int| #![trigger zoom_levels()[k]] 0 <= k < zoom_levels().len() implies
        sum_of(l.rows, |r: StatusRowView| a(r, zoom_levels()[k])) == sum_of(l.rows, row_at_zoom(zoom_levels()[k])) by {
        assert((|r: StatusRowView| a(r, zoom_levels()[k])) =~= row_at_zoom(zoom_levels()[k]));
    }
    crate::sums::lemma_sum_of_pointwise(
        zoom_levels(),
        |z: int| sum_of(l.rows, |r: StatusRowView| a(r, z)),
        zoom_levels(),
        |z: int| sum_of(l.rows, row_at_zoom(z)),
    );
    assert forall|k: int| #![trigger l.rows[k]] 0 <= k < l.rows.len() implies
        sum_of(zoom_levels(), |z: int| a(l.rows[k], z)) == sum_u64(l.rows[k].counts) by {
        let row = l.rows[k];
        crate::sums::lemma_sum_u64_by_position(row.counts);
        assert(Seq::new(row.counts.len(), |j: int| j) =~= zoom_levels());
        crate::sums::lemma_sum_of_pointwise(
            zoom_levels(),
            |z: int| a(row, z),
            zoom_levels(),
            |z: int| if 0 <= z < row.counts.len() { row.counts[z] as int } else { 0 },
        );
    }
    crate::sums::lemma_sum_of_pointwise(
        l.rows,
        |r: StatusRowView| sum_of(zoom_levels(), |z: int| a(r, z)),
        l.rows,
        |r: StatusRowView| sum_u64(r.counts),
    );
}

/// Every HTTP response counted at a zoom level is counted under its status
/// code: the responses of the status codes responded with add up to the
/// responses of the zoom levels the server handles.
pub proof fn law_responses_by_code_add_up_to_responses_by_zoom(analysis: &ResponseAnalysis)
    requires
        analysis.wf(),
    ensures
        sum_of(analysis.status_codes_view(), |c: u16| analysis.response_count_by_status_code(c))
            == sum_of(zoom_levels(), |z: int| analysis.response_count_by_zoom_level(z as u32)),
{
    let v = analysis@;
    let g = |l: LayerResponseView, c: u16| sum_of(l.rows, row_total(c));
    let k = |l: LayerResponseView, z: int| sum_of(l.rows, row_at_zoom(z));
    let t = |l: LayerResponseView| sum_of(l.rows, |r: StatusRowView| sum_u64(r.counts));
    // By status code.
    assert forall|i: int| #![trigger v.codes[i]] 0 <= i < v.codes.len() implies
        analysis.response_count_by_status_code(v.codes[i]) == sum_of(v.layers, |l: LayerResponseView| g(l, v.codes[i])) by {
        assert(layer_status_total(v.codes[i]) =~= (|l: LayerResponseView| g(l, v.codes[i])));
    }
    crate::sums::lemma_sum_of_pointwise(
        v.codes,
        |c: u16| analysis.response_count_by_status_code(c),
        v.codes,
        |c: u16| sum_of(v.layers, |l: LayerResponseView| g(l, c)),
    );
    crate::sums::lemma_sum_exchange(v.layers, v.codes, g);
    assert forall|i: int| #![trigger v.layers[i]] 0 <= i < v.layers.len() implies
        sum_of(v.codes, |c: u16| g(v.layers[i], c)) == t(v.layers[i]) by {
        let l = v.layers[i];
        assert forall|r: int| 0 <= r < l.rows.len() implies v.codes.contains(#[trigger] l.rows[r].code) by {
            assert(has_row(v.layers[i], l.rows[r].code));
        }
        lemma_layer_responses_by_code(l, v.codes);
        crate::sums::lemma_sum_of_pointwise(
            v.codes,
            |c: u16| g(l, c),
            v.codes,
            |c: u16| sum_of(l.rows, row_total(c)),
        );
    }
    crate::sums::lemma_sum_of_pointwise(
        v.layers,
        |l: LayerResponseView| sum_of(v.codes, |c: u16| g(l, c)),
        v.layers,
        t,
    );
    // By zoom level.
    assert forall|i: int| #![trigger zoom_levels()[i]] 0 <= i < zoom_levels().len() implies
        analysis.response_count_by_zoom_level(zoom_levels()[i] as u32)
            == sum_of(v.layers, |l: LayerResponseView| k(l, zoom_levels()[i])) by {
        assert(layer_zoom_total(zoom_levels()[i]) =~= (|l: LayerResponseView| k(l, zoom_levels()[i])));
    }
    crate::sums::lemma_sum_of_pointwise(
        zoom_levels(),
        |z: int| analysis.response_count_by_zoom_level(z as u32),
        zoom_levels(),
        |z: int| sum_of(v.layers, |l: LayerResponseView| k(l, z)),
    );
    crate::sums::lemma_sum_exchange(v.layers, zoom_levels(), k);
    assert forall|i: int| #![trigger v.layers[i]] 0 <= i < v.layers.len() implies
        sum_of(zoom_levels(), |z: int| k(v.layers[i], z)) == t(v.layers[i]) by {
        let l = v.layers[i];
        assert(layer_wf(l));
        lemma_layer_responses_by_zoom(l);
        crate::sums::lemma_sum_of_pointwise(
            zoom_levels(),
            |z: int| k(l, z),
            zoom_levels(),
            |z: int| sum_of(l.rows, row_at_zoom(z)),
        );
    }
    crate::sums::lemma_sum_of_pointwise(
        v.layers,
        |l: LayerResponseView| sum_of(zoom_levels(), |z: int| k(l, z)),
        v.layers,
        t,
    );
}

/// Over elements of which exactly the one at `k` has the property `p`, a
/// weight counted for the elements that have it adds up to that weight.
pub proof fn lemma_sum_of_single_match<A>(s: Seq<A>, p: spec_fn(A) -> bool, k: int, w: int)
    requires
        0 <= k < s.len(),
        p(s[k]),
        forall|i: int| 0 <= i < s.len() && i != k ==> !p(#[trigger] s[i]),
    ensures
        sum_of(s, |a: A| if p(a) { w } else { 0 }) == w,
    decreases s.len(),
{
    let f = |a: A| if p(a) { w } else { 0 };
    let t = s.drop_last();
    if k == s.len() - 1 {
        assert forall|i: int| 0 <= i < t.len() implies f(#[trigger] t[i]) == (|a: A| 0int)(t[i]) by {
            assert(t[i] == s[i]);
        }
        crate::sums::lemma_sum_of_pointwise(t, f, t, |a: A| 0int);
        crate::sums::lemma_sum_of_zero(t);
    } else {
        assert forall|i: int| 0 <= i < t.len() && i != k implies !p(#[trigger] t[i]) by {
            assert(t[i] == s[i]);
        }
        assert(t[k] == s[k]);
        lemma_sum_of_single_match(t, p, k, w);
        assert(!p(s[s.len() - 1]));
    }
}

/// Every response counted under a status code is counted for its layer:
/// for each status code, the responses of the layers responded for with
/// that code add up to the responses with that code.
pub proof fn law_responses_by_code_add_up_over_layers(analysis: &ResponseAnalysis, code: u16)
    requires
        analysis.wf(),
    ensures
        analysis.response_count_by_status_code(code) == sum_of(
            analysis.layers_view(),
            |name: Seq<char>| analysis.response_count_by_layer_and_status_code(name, code),
        ),
{
    let v = analysis@;
    let names = analysis.layers_view();
    let g = layer_status_total(code);
    let h = |l: LayerResponseView, m: LayerResponseView| if m.name == l.name { g(m) } else { 0 };
    // From names to layers.
    assert forall|i: int| 0 <= i < names.len() implies
        (|name: Seq<char>| analysis.response_count_by_layer_and_status_code(name, code))(#[trigger] names[i])
            == (|l: LayerResponseView| sum_of(v.layers, |m: LayerResponseView| h(l, m)))(v.layers[i]) by {
        assert(names[i] == v.layers[i].name);
        assert(named_layer_status_total(v.layers[i].name, code)
            =~= (|m: LayerResponseView| h(v.layers[i], m)));
    }
    crate::sums::lemma_sum_of_pointwise(
        names,
        |name: Seq<char>| analysis.response_count_by_layer_and_status_code(name, code),
        v.layers,
        |l: LayerResponseView| sum_of(v.layers, |m: LayerResponseView| h(l, m)),
    );
    crate::sums::lemma_sum_exchange(v.layers, v.layers, h);
    // Each layer is counted once, under its own name.
    assert forall|j: int| 0 <= j < v.layers.len() implies
        (|m: LayerResponseView| sum_of(v.layers, |l: LayerResponseView| h(l, m)))(#[trigger] v.layers[j])
            == g(v.layers[j]) by {
        let m = v.layers[j];
        let p = |l: LayerResponseView| l.name == m.name;
        assert forall|i: int| 0 <= i < v.layers.len() && i != j implies !p(#[trigger] v.layers[i]) by {
            if i < j {
                assert(v.layers[i].name != v.layers[j].name);
            } else {
                assert(v.layers[j].name != v.layers[i].name);
            }
        }
        lemma_sum_of_single_match(v.layers, p, j, g(m));
        assert((|l: LayerResponseView| h(l, m)) =~= (|l: LayerResponseView| if p(l) { g(m) } else { 0 }));
    }
    crate::sums::lemma_sum_of_pointwise(
        v.layers,
        |m: LayerResponseView| sum_of(v.layers, |l: LayerResponseView| h(l, m)),
        v.layers,
        g,
    );
}

} // verus!
