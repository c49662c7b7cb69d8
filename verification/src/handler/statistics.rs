//! The statistics report of the server: responses by status code, zoom level
//! and layer, tiles handled by source and age, and the time spent on tiles.

use vstd::prelude::*;
use crate::config::{InvalidConfigError, ModuleConfig, ZOOM_LEVEL_COUNT};
use crate::handler::context::HandleContext;
use crate::slippy::{
    zero_by_zoom, BodyVariant, HandleOutcome, HandleRequestResult, LayerCount, ResponseBody,
    ResponseHeader, SlippyRequest, SlippyResponse, Statistics,
};
use crate::sums::sum_of;
use crate::telemetry::interface::{ResponseMetrics, TileHandlingMetrics};
use crate::tile::{MediaType, TileAge, TileSource};
use crate::time::Timestamp;

verus! {

/// The status codes the report counts under a field of their own:
/// 200, 304, 404, 503 and 500.
pub open spec fn reported_separately(code: u16) -> bool {
    code == 200 || code == 304 || code == 404 || code == 503 || code == 500
}

/// Responses with status `code`, or zero when the code was never responded with.
pub open spec fn responded_count<R: ResponseMetrics>(metrics: &R, code: u16) -> int {
    if metrics.status_codes_view().contains(code) {
        metrics.response_count_by_status_code(code)
    } else {
        0
    }
}

/// Responses with status `code` when it has no field of its own.
pub open spec fn other_count<R: ResponseMetrics>(metrics: &R) -> spec_fn(u16) -> int {
    |code: u16| if reported_separately(code) { 0 } else { metrics.response_count_by_status_code(code) }
}

/// Responses with the status codes that have no field of their own.
pub open spec fn other_responses<R: ResponseMetrics>(metrics: &R) -> int {
    sum_of(metrics.status_codes_view(), other_count(metrics))
}

/// One counter per zoom level the server handles: `f` at the zoom levels of
/// `range`, zero elsewhere.
pub open spec fn by_zoom_in(range: (u32, u32), f: spec_fn(u32) -> int) -> Seq<u64> {
    Seq::new(ZOOM_LEVEL_COUNT as nat, |i: int| if range.0 <= i < range.1 { f(i as u32) as u64 } else { 0u64 })
}

/// Responses of every zoom level.
pub open spec fn responses_at<R: ResponseMetrics>(metrics: &R) -> spec_fn(u32) -> int {
    |z: u32| metrics.response_count_by_zoom_level(z)
}

/// Tile responses of every zoom level.
pub open spec fn tile_responses_at<R: ResponseMetrics>(metrics: &R) -> spec_fn(u32) -> int {
    |z: u32| metrics.tile_response_count_by_zoom_level(z)
}

/// Seconds spent on the tile responses of every zoom level.
pub open spec fn tile_seconds_at<R: ResponseMetrics>(metrics: &R) -> spec_fn(u32) -> int {
    |z: u32| metrics.tile_response_seconds_by_zoom_level(z)
}

/// One entry per layer responded for, in order, with its responses of status `code`.
pub open spec fn counts_by_layer<R: ResponseMetrics>(counts: Seq<LayerCount>, metrics: &R, code: u16) -> bool {
    &&& counts.len() == metrics.layers_view().len()
    &&& forall|i: int| 0 <= i < counts.len() ==> {
        &&& (#[trigger] counts[i]).layer@ == metrics.layers_view()[i]
        &&& counts[i].count == metrics.response_count_by_layer_and_status_code(metrics.layers_view()[i], code)
    }
}

/// Every figure of the report fits its field: the metrics are well formed,
/// every count fits a counter, the zoom levels lie within those the server
/// handles, and the time spent on tiles adds up.
pub open spec fn can_report<R: ResponseMetrics, T: TileHandlingMetrics>(rm: &R, tm: &T) -> bool {
    &&& rm.metrics_wf()
    &&& tm.metrics_wf()
    &&& forall|c: u16| rm.status_codes_view().contains(c)
        ==> 0 <= #[trigger] rm.response_count_by_status_code(c) <= u64::MAX
    &&& other_responses(rm) <= u64::MAX
    &&& forall|s: TileSource, a: TileAge| #[trigger] tm.handled_tile_count(s, a) <= u64::MAX
    &&& rm.zoom_range_view().1 <= ZOOM_LEVEL_COUNT
    &&& forall|z: u32| rm.zoom_range_view().0 <= z < rm.zoom_range_view().1 ==> {
        &&& #[trigger] rm.response_count_by_zoom_level(z) <= u64::MAX
        &&& rm.tile_response_count_by_zoom_level(z) <= u64::MAX
        &&& rm.tile_response_seconds_by_zoom_level(z) <= u64::MAX
    }
    &&& rm.total_tile_response_count() <= u64::MAX
    &&& rm.total_tile_response_seconds() is Some
    &&& layer_counts_fit(rm)
}

/// The responses of status 200 and of status 404 of every layer fit a counter.
pub open spec fn layer_counts_fit<R: ResponseMetrics>(rm: &R) -> bool {
    forall|l: Seq<char>| rm.layers_view().contains(l) ==> {
        &&& #[trigger] rm.response_count_by_layer_and_status_code(l, 200) <= u64::MAX
        &&& rm.response_count_by_layer_and_status_code(l, 404) <= u64::MAX
    }
}

/// `s` reports the metrics `rm` and `tm`.
pub open spec fn reports<R: ResponseMetrics, T: TileHandlingMetrics>(s: Statistics, rm: &R, tm: &T) -> bool {
    &&& s.number_response_200 == responded_count(rm, 200)
    &&& s.number_response_304 == responded_count(rm, 304)
    &&& s.number_response_404 == responded_count(rm, 404)
    &&& s.number_response_503 == responded_count(rm, 503)
    &&& s.number_response_5xx == responded_count(rm, 500)
    &&& s.number_response_other == other_responses(rm)
    &&& s.number_fresh_cache == tm.handled_tile_count(TileSource::Cache, TileAge::Fresh)
    &&& s.number_old_cache == tm.handled_tile_count(TileSource::Cache, TileAge::Old)
    &&& s.number_very_old_cache == tm.handled_tile_count(TileSource::Cache, TileAge::VeryOld)
    &&& s.number_fresh_render == tm.handled_tile_count(TileSource::Render, TileAge::Fresh)
    &&& s.number_old_render == tm.handled_tile_count(TileSource::Render, TileAge::Old)
    &&& s.number_very_old_render == tm.handled_tile_count(TileSource::Render, TileAge::VeryOld)
    &&& s.number_successful_response_by_zoom@ == by_zoom_in(rm.zoom_range_view(), responses_at(rm))
    &&& s.number_tile_response_by_zoom@ == by_zoom_in(rm.zoom_range_view(), tile_responses_at(rm))
    &&& s.duration_tile_response_by_zoom@ == by_zoom_in(rm.zoom_range_view(), tile_seconds_at(rm))
    &&& s.total_number_tile_response == rm.total_tile_response_count()
    &&& s.total_duration_tile_response == rm.total_tile_response_seconds().unwrap() as u64
    &&& counts_by_layer(s.number_response_200_by_layer@, rm, 200)
    &&& counts_by_layer(s.number_response_404_by_layer@, rm, 404)
}

/// Whether the code appears among the first `k` codes.
pub open spec fn seen_within(codes: Seq<u16>, k: int, code: u16) -> bool {
    exists|j: int| 0 <= j < k && codes[j] == code
}

/// The count of `code` when it appears among the first `k` codes, else zero.
pub open spec fn count_if_seen<R: ResponseMetrics>(metrics: &R, codes: Seq<u16>, k: int, code: u16) -> int {
    if seen_within(codes, k, code) { metrics.response_count_by_status_code(code) } else { 0 }
}

/// The counts by status code of `a` and `b` are the same.
spec fn same_status_counts(a: Statistics, b: Statistics) -> bool {
    &&& a.number_response_200 == b.number_response_200
    &&& a.number_response_304 == b.number_response_304
    &&& a.number_response_404 == b.number_response_404
    &&& a.number_response_503 == b.number_response_503
    &&& a.number_response_5xx == b.number_response_5xx
    &&& a.number_response_other == b.number_response_other
}

/// The counts of tiles handled by source and age of `a` and `b` are the same.
spec fn same_tile_counts(a: Statistics, b: Statistics) -> bool {
    &&& a.number_fresh_cache == b.number_fresh_cache
    &&& a.number_old_cache == b.number_old_cache
    &&& a.number_very_old_cache == b.number_very_old_cache
    &&& a.number_fresh_render == b.number_fresh_render
    &&& a.number_old_render == b.number_old_render
    &&& a.number_very_old_render == b.number_very_old_render
}

/// The counters by zoom level of `a` and `b` are the same.
spec fn same_zoom_counts(a: Statistics, b: Statistics) -> bool {
    &&& a.number_successful_response_by_zoom == b.number_successful_response_by_zoom
    &&& a.number_tile_response_by_zoom == b.number_tile_response_by_zoom
    &&& a.duration_tile_response_by_zoom == b.duration_tile_response_by_zoom
}

/// The totals of tile responses of `a` and `b` are the same.
spec fn same_totals(a: Statistics, b: Statistics) -> bool {
    &&& a.total_number_tile_response == b.total_number_tile_response
    &&& a.total_duration_tile_response == b.total_duration_tile_response
}

/// The counts by layer of `a` and `b` are the same.
spec fn same_layer_counts(a: Statistics, b: Statistics) -> bool {
    &&& a.number_response_200_by_layer == b.number_response_200_by_layer
    &&& a.number_response_404_by_layer == b.number_response_404_by_layer
}

/// The counts of the status codes, each under its field or added to the others.
fn report_status_codes<R: ResponseMetrics>(rm: &R, stats: &mut Statistics)
    requires
        rm.metrics_wf(),
        forall|c: u16| rm.status_codes_view().contains(c)
            ==> 0 <= #[trigger] rm.response_count_by_status_code(c) <= u64::MAX,
        other_responses(rm) <= u64::MAX,
        old(stats).number_response_200 == 0,
        old(stats).number_response_304 == 0,
        old(stats).number_response_404 == 0,
        old(stats).number_response_503 == 0,
        old(stats).number_response_5xx == 0,
        old(stats).number_response_other == 0,
    ensures
        final(stats).number_response_200 == responded_count(rm, 200),
        final(stats).number_response_304 == responded_count(rm, 304),
        final(stats).number_response_404 == responded_count(rm, 404),
        final(stats).number_response_503 == responded_count(rm, 503),
        final(stats).number_response_5xx == responded_count(rm, 500),
        final(stats).number_response_other == other_responses(rm),
        same_tile_counts(*final(stats), *old(stats)),
        same_zoom_counts(*final(stats), *old(stats)),
        same_totals(*final(stats), *old(stats)),
        same_layer_counts(*final(stats), *old(stats)),
{
    let codes = rm.iterate_status_codes_responded();
    let ghost all = rm.status_codes_view();
    let ghost f = other_count(rm);
    proof {
        crate::sums::lemma_sum_of_prefix_within(all, f, 0);
    }
    let mut k: usize = 0;
    while k < codes.len()
        invariant
            codes@ == all,
            all == rm.status_codes_view(),
            f == other_count(rm),
            rm.metrics_wf(),
            forall|c: u16| rm.status_codes_view().contains(c)
                ==> 0 <= #[trigger] rm.response_count_by_status_code(c) <= u64::MAX,
            other_responses(rm) <= u64::MAX,
            k <= all.len(),
            stats.number_response_200 == count_if_seen(rm, all, k as int, 200),
            stats.number_response_304 == count_if_seen(rm, all, k as int, 304),
            stats.number_response_404 == count_if_seen(rm, all, k as int, 404),
            stats.number_response_503 == count_if_seen(rm, all, k as int, 503),
            stats.number_response_5xx == count_if_seen(rm, all, k as int, 500),
            stats.number_response_other == sum_of(all.take(k as int), f),
            same_tile_counts(*stats, *old(stats)),
            same_zoom_counts(*stats, *old(stats)),
            same_totals(*stats, *old(stats)),
            same_layer_counts(*stats, *old(stats)),
        decreases all.len() - k,
    {
        let code = codes[k];
        assert(all.contains(code)) by {
            assert(all[k as int] == code);
        }
        let count = rm.count_response_by_status_code(code);
        proof {
            assert(all.take(k as int + 1).drop_last() =~= all.take(k as int));
            assert forall|f_code: u16| #[trigger] seen_within(all, k as int + 1, f_code)
                == (seen_within(all, k as int, f_code) || code == f_code) by {
                if code == f_code {
                    assert(all[k as int] == f_code);
                }
            }
            crate::sums::lemma_sum_of_prefix_within(all, f, k as int + 1);
        }
        if code == 200 {
            stats.number_response_200 = count;
        } else if code == 304 {
            stats.number_response_304 = count;
        } else if code == 404 {
            stats.number_response_404 = count;
        } else if code == 503 {
            stats.number_response_503 = count;
        } else if code == 500 {
            stats.number_response_5xx = count;
        } else {
            stats.number_response_other = stats.number_response_other + count;
        }
        k = k + 1;
    }
    proof {
        assert(all.take(all.len() as int) =~= all);
        assert forall|c: u16| seen_within(all, all.len() as int, c) == all.contains(c) by {
            if all.contains(c) {
                let j = choose|j: int| 0 <= j < all.len() && all[j] == c;
                assert(seen_within(all, all.len() as int, c));
            }
        }
    }
}

/// Counters of zero, one per zoom level, are the counters of an empty range.
proof fn lemma_empty_range(start: u32, f: spec_fn(u32) -> int)
    ensures
        zero_by_zoom() == by_zoom_in((start, start), f),
{
    assert(zero_by_zoom() =~= by_zoom_in((start, start), f));
}

/// The counts of the zoom levels of the range the metrics cover.
fn report_zoom_levels<R: ResponseMetrics>(rm: &R, stats: &mut Statistics)
    requires
        rm.metrics_wf(),
        rm.zoom_range_view().1 <= ZOOM_LEVEL_COUNT,
        forall|z: u32| rm.zoom_range_view().0 <= z < rm.zoom_range_view().1 ==> {
            &&& #[trigger] rm.response_count_by_zoom_level(z) <= u64::MAX
            &&& rm.tile_response_count_by_zoom_level(z) <= u64::MAX
            &&& rm.tile_response_seconds_by_zoom_level(z) <= u64::MAX
        },
        old(stats).number_successful_response_by_zoom@ == zero_by_zoom(),
        old(stats).number_tile_response_by_zoom@ == zero_by_zoom(),
        old(stats).duration_tile_response_by_zoom@ == zero_by_zoom(),
    ensures
        final(stats).number_successful_response_by_zoom@ == by_zoom_in(rm.zoom_range_view(), responses_at(rm)),
        final(stats).number_tile_response_by_zoom@ == by_zoom_in(rm.zoom_range_view(), tile_responses_at(rm)),
        final(stats).duration_tile_response_by_zoom@ == by_zoom_in(rm.zoom_range_view(), tile_seconds_at(rm)),
        same_status_counts(*final(stats), *old(stats)),
        same_tile_counts(*final(stats), *old(stats)),
        same_totals(*final(stats), *old(stats)),
        same_layer_counts(*final(stats), *old(stats)),
{
    let range = rm.iterate_valid_zoom_levels();
    let start = range.start;
    let end = range.end;
    let ghost fa = responses_at(rm);
    let ghost ft = tile_responses_at(rm);
    let ghost fs = tile_seconds_at(rm);
    proof {
        lemma_empty_range(start, fa);
        lemma_empty_range(start, ft);
        lemma_empty_range(start, fs);
    }
    let mut zoom_level = start;
    while zoom_level < end
        invariant
            (start, end) == rm.zoom_range_view(),
            rm.metrics_wf(),
            end <= ZOOM_LEVEL_COUNT,
            forall|z: u32| rm.zoom_range_view().0 <= z < rm.zoom_range_view().1 ==> {
                &&& #[trigger] rm.response_count_by_zoom_level(z) <= u64::MAX
                &&& rm.tile_response_count_by_zoom_level(z) <= u64::MAX
                &&& rm.tile_response_seconds_by_zoom_level(z) <= u64::MAX
            },
            fa == responses_at(rm),
            ft == tile_responses_at(rm),
            fs == tile_seconds_at(rm),
            start <= zoom_level,
            zoom_level <= end || zoom_level == start,
            stats.number_successful_response_by_zoom@ == by_zoom_in((start, zoom_level), fa),
            stats.number_tile_response_by_zoom@ == by_zoom_in((start, zoom_level), ft),
            stats.duration_tile_response_by_zoom@ == by_zoom_in((start, zoom_level), fs),
            same_status_counts(*stats, *old(stats)),
            same_tile_counts(*stats, *old(stats)),
            same_totals(*stats, *old(stats)),
            same_layer_counts(*stats, *old(stats)),
        decreases end - zoom_level,
    {
        let index = zoom_level as usize;
        let any_count = rm.count_response_by_zoom_level(zoom_level);
        stats.number_successful_response_by_zoom.set(index, any_count);
        let tile_count = rm.count_tile_response_by_zoom_level(zoom_level);
        stats.number_tile_response_by_zoom.set(index, tile_count);
        let tile_duration = rm.tally_tile_response_duration_by_zoom_level(zoom_level);
        stats.duration_tile_response_by_zoom.set(index, tile_duration);
        proof {
            assert(stats.number_successful_response_by_zoom@ =~= by_zoom_in((start, (zoom_level + 1) as u32), fa));
            assert(stats.number_tile_response_by_zoom@ =~= by_zoom_in((start, (zoom_level + 1) as u32), ft));
            assert(stats.duration_tile_response_by_zoom@ =~= by_zoom_in((start, (zoom_level + 1) as u32), fs));
        }
        zoom_level = zoom_level + 1;
    }
    proof {
        assert(by_zoom_in((start, zoom_level), fa) =~= by_zoom_in((start, end), fa));
        assert(by_zoom_in((start, zoom_level), ft) =~= by_zoom_in((start, end), ft));
        assert(by_zoom_in((start, zoom_level), fs) =~= by_zoom_in((start, end), fs));
    }
}

/// The responses of status 200 and 404 of every layer responded for.
fn report_layers<R: ResponseMetrics>(rm: &R, stats: &mut Statistics)
    requires
        rm.metrics_wf(),
        layer_counts_fit(rm),
        old(stats).number_response_200_by_layer@.len() == 0,
        old(stats).number_response_404_by_layer@.len() == 0,
    ensures
        counts_by_layer(final(stats).number_response_200_by_layer@, rm, 200),
        counts_by_layer(final(stats).number_response_404_by_layer@, rm, 404),
        same_status_counts(*final(stats), *old(stats)),
        same_tile_counts(*final(stats), *old(stats)),
        same_zoom_counts(*final(stats), *old(stats)),
        same_totals(*final(stats), *old(stats)),
{
    let layers = rm.iterate_layers_responded();
    let mut i: usize = 0;
    while i < layers.len()
        invariant
            rm.metrics_wf(),
            layer_counts_fit(rm),
            layers@.len() == rm.layers_view().len(),
            forall|j: int| 0 <= j < layers@.len() ==> #[trigger] layers@[j]@ == rm.layers_view()[j],
            i <= layers@.len(),
            stats.number_response_200_by_layer@.len() == i,
            stats.number_response_404_by_layer@.len() == i,
            forall|j: int| 0 <= j < i ==> {
                &&& (#[trigger] stats.number_response_200_by_layer@[j]).layer@ == rm.layers_view()[j]
                &&& stats.number_response_200_by_layer@[j].count
                    == rm.response_count_by_layer_and_status_code(rm.layers_view()[j], 200)
            },
            forall|j: int| 0 <= j < i ==> {
                &&& (#[trigger] stats.number_response_404_by_layer@[j]).layer@ == rm.layers_view()[j]
                &&& stats.number_response_404_by_layer@[j].count
                    == rm.response_count_by_layer_and_status_code(rm.layers_view()[j], 404)
            },
            same_status_counts(*stats, *old(stats)),
            same_tile_counts(*stats, *old(stats)),
            same_zoom_counts(*stats, *old(stats)),
            same_totals(*stats, *old(stats)),
        decreases layers@.len() - i,
    {
        let layer = &layers[i];
        assert(rm.layers_view().contains(layer@)) by {
            assert(rm.layers_view()[i as int] == layer@);
        }
        let count_200 = rm.count_response_by_layer_and_status_code(layer, 200);
        stats.number_response_200_by_layer.push(LayerCount { layer: layer.clone(), count: count_200 });
        let count_404 = rm.count_response_by_layer_and_status_code(layer, 404);
        stats.number_response_404_by_layer.push(LayerCount { layer: layer.clone(), count: count_404 });
        i = i + 1;
    }
}

/// The statistics report of the metrics `rm` and `tm`.
pub fn report_metrics<R: ResponseMetrics, T: TileHandlingMetrics>(rm: &R, tm: &T) -> (s: Statistics)
    requires
        can_report(rm, tm),
    ensures
        reports(s, rm, tm),
{
    let mut stats = Statistics::new();
    report_status_codes(rm, &mut stats);
    stats.number_fresh_cache = tm.count_handled_tile_by_source_and_age(&TileSource::Cache, &TileAge::Fresh);
    stats.number_old_cache = tm.count_handled_tile_by_source_and_age(&TileSource::Cache, &TileAge::Old);
    stats.number_very_old_cache = tm.count_handled_tile_by_source_and_age(&TileSource::Cache, &TileAge::VeryOld);
    stats.number_fresh_render = tm.count_handled_tile_by_source_and_age(&TileSource::Render, &TileAge::Fresh);
    stats.number_old_render = tm.count_handled_tile_by_source_and_age(&TileSource::Render, &TileAge::Old);
    stats.number_very_old_render = tm.count_handled_tile_by_source_and_age(&TileSource::Render, &TileAge::VeryOld);
    report_zoom_levels(rm, &mut stats);
    stats.total_number_tile_response = rm.count_total_tile_response();
    stats.total_duration_tile_response = rm.tally_total_tile_response_duration();
    report_layers(rm, &mut stats);
    stats
}

/// Answers the requests for the statistics report.
pub struct StatisticsHandlerState {}

impl StatisticsHandlerState {
    /// A handler of statistics requests; every configuration is accepted.
    pub fn new(_config: &ModuleConfig) -> (r: Result<StatisticsHandlerState, InvalidConfigError>)
        ensures
            r is Ok,
    {
        Ok(StatisticsHandlerState {})
    }

    /// The report of the telemetry of the context.
    pub fn report(&self, context: &HandleContext) -> (s: Statistics)
        requires
            can_report(&context.telemetry.responses(), &context.telemetry.tiles_handled()),
        ensures
            reports(s, &context.telemetry.responses(), &context.telemetry.tiles_handled()),
    {
        report_metrics(context.telemetry.response_metrics(), context.telemetry.tile_handling_metrics())
    }

    /// Reports the statistics for a statistics request, as plain text; leaves
    /// every other request to another handler.
    pub fn handle(&mut self, context: &HandleContext, request: &SlippyRequest) -> (outcome: HandleOutcome)
        requires
            request.body is ReportStatistics
                ==> can_report(&context.telemetry.responses(), &context.telemetry.tiles_handled()),
        ensures
            !(request.body is ReportStatistics) <==> outcome is Ignored,
            outcome matches HandleOutcome::Processed(r) ==> {
                &&& r.before_timestamp.wf()
                &&& r.after_timestamp.wf()
                &&& r.result matches Ok(response)
                &&& response.header.mime_type == MediaType::TextPlain
                &&& response.body matches ResponseBody::Statistics(s)
                &&& reports(s, &context.telemetry.responses(), &context.telemetry.tiles_handled())
            },
    {
        let before_timestamp = Timestamp::now();
        match request.body {
            BodyVariant::ReportStatistics => {},
            _ => {
                return HandleOutcome::Ignored;
            },
        }
        let statistics = self.report(context);
        let response = SlippyResponse {
            header: ResponseHeader { mime_type: MediaType::TextPlain },
            body: ResponseBody::Statistics(statistics),
        };
        let after_timestamp = Timestamp::now();
        HandleOutcome::Processed(HandleRequestResult { before_timestamp, after_timestamp, result: Ok(response) })
    }
}

} // verus!
