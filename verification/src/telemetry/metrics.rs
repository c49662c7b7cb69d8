//! Counts of the tiles served from the cache and of the tiles rendered, by
//! age, and the inventory of the metrics the handlers read.

pub mod response;

use vstd::prelude::*;
use crate::slippy::{HandleOutcome, ReadOutcome, ResponseBody, WriteOutcome};
use crate::telemetry::interface::{CacheMetrics, RenderMetrics};
use crate::telemetry::observer::{HandleRequestObserver, WriteResponseObserver};
use crate::telemetry::response::ResponseAnalysis;
use crate::telemetry::tile_handling::TileHandlingAnalysis;
use crate::slippy::TileResponse;
use crate::tile::{age_rank, all_tile_ages, TileAge, TileSource};

verus! {

/// The age of the tile of `source` that a request read and handled into a
/// tile response, if there is one.
pub open spec fn sourced_tile_age(read: ReadOutcome, handle: HandleOutcome, source: TileSource) -> Option<TileAge> {
    match (read, handle) {
        (ReadOutcome::Processed(Ok(_)), HandleOutcome::Processed(r)) => match r.result {
            Ok(response) => match response.body {
                ResponseBody::Tile(t) => if t.source == source { Some(t.age) } else { None },
                _ => None,
            },
            Err(_) => None,
        },
        _ => None,
    }
}

/// Counts per age after one more tile of age `age`, if there is one.
pub open spec fn counted(counts: Seq<u64>, age: Option<TileAge>) -> Seq<u64> {
    match age {
        Some(a) => counts.update(age_rank(a), (counts[age_rank(a)] + 1) as u64),
        None => counts,
    }
}

/// Whether the count of the age, if there is one, can take one more tile.
pub open spec fn count_room(counts: Seq<u64>, age: Option<TileAge>) -> bool {
    match age {
        Some(a) => counts[age_rank(a)] < u64::MAX,
        None => true,
    }
}

/// The position of an age in the order `Fresh`, `Old`, `VeryOld`.
fn age_index(age: &TileAge) -> (i: usize)
    ensures
        i == age_rank(*age),
{
    match age {
        TileAge::Fresh => 0,
        TileAge::Old => 1,
        TileAge::VeryOld => 2,
    }
}

/// The counts of the tiles served from the cache, by age.
pub struct CacheAnalysis {
    hit_count_by_age: Vec<u64>,
}

impl View for CacheAnalysis {
    type V = Seq<u64>;

    closed spec fn view(&self) -> Seq<u64> {
        self.hit_count_by_age@
    }
}

impl CacheAnalysis {
    /// A count for every age.
    pub open spec fn wf(&self) -> bool {
        self@.len() == 3
    }

    /// No tile served yet.
    pub fn new() -> (a: CacheAnalysis)
        ensures
            a.wf(),
            a@ == seq![0u64, 0u64, 0u64],
    {
        let a = CacheAnalysis { hit_count_by_age: vec![0u64; 3] };
        assert(a@ =~= seq![0u64, 0u64, 0u64]);
        a
    }

    /// Counts a tile served from the cache.
    pub fn on_cache_sourced_tile(&mut self, tile_response: &TileResponse)
        requires
            old(self).wf(),
            old(self)@[age_rank(tile_response.age)] < u64::MAX,
        ensures
            final(self).wf(),
            final(self)@ == counted(old(self)@, Some(tile_response.age)),
    {
        let i = age_index(&tile_response.age);
        let count = self.hit_count_by_age[i];
        self.hit_count_by_age.set(i, count + 1);
    }
}

impl HandleRequestObserver for CacheAnalysis {
    open spec fn can_handle(&self, read_outcome: ReadOutcome, handle_outcome: HandleOutcome) -> bool {
        self.wf() && count_room(self@, sourced_tile_age(read_outcome, handle_outcome, TileSource::Cache))
    }

    open spec fn handle_into(&self, read_outcome: ReadOutcome, handle_outcome: HandleOutcome, after: Self) -> bool {
        after.wf() && after@ == counted(self@, sourced_tile_age(read_outcome, handle_outcome, TileSource::Cache))
    }

    fn on_handle(&mut self, read_outcome: &ReadOutcome, handle_outcome: &HandleOutcome) {
        if let ReadOutcome::Processed(Ok(_)) = read_outcome {
            if let HandleOutcome::Processed(result) = handle_outcome {
                if let Ok(response) = &result.result {
                    if let ResponseBody::Tile(tile_response) = &response.body {
                        if let TileSource::Cache = tile_response.source {
                            self.on_cache_sourced_tile(tile_response);
                        }
                    }
                }
            }
        }
    }
}

impl CacheMetrics for CacheAnalysis {
    open spec fn metrics_wf(&self) -> bool {
        self.wf()
    }

    open spec fn cache_hit_count(&self, age: TileAge) -> int {
        self@[age_rank(age)] as int
    }

    fn iterate_valid_cache_ages(&self) -> (ages: Vec<TileAge>) {
        all_tile_ages()
    }

    fn count_tile_cache_hit_by_age(&self, age: &TileAge) -> (count: u64) {
        self.hit_count_by_age[age_index(age)]
    }
}

/// The counts of the tiles rendered, by age.
pub struct RenderAnalysis {
    render_count_by_age: Vec<u64>,
}

impl View for RenderAnalysis {
    type V = Seq<u64>;

    closed spec fn view(&self) -> Seq<u64> {
        self.render_count_by_age@
    }
}

impl RenderAnalysis {
    /// A count for every age.
    pub open spec fn wf(&self) -> bool {
        self@.len() == 3
    }

    /// No tile rendered yet.
    pub fn new() -> (a: RenderAnalysis)
        ensures
            a.wf(),
            a@ == seq![0u64, 0u64, 0u64],
    {
        let a = RenderAnalysis { render_count_by_age: vec![0u64; 3] };
        assert(a@ =~= seq![0u64, 0u64, 0u64]);
        a
    }

    /// Counts a rendered tile.
    pub fn on_rendered_tile(&mut self, tile_response: &TileResponse)
        requires
            old(self).wf(),
            old(self)@[age_rank(tile_response.age)] < u64::MAX,
        ensures
            final(self).wf(),
            final(self)@ == counted(old(self)@, Some(tile_response.age)),
    {
        let i = age_index(&tile_response.age);
        let count = self.render_count_by_age[i];
        self.render_count_by_age.set(i, count + 1);
    }
}

impl WriteResponseObserver for RenderAnalysis {
    open spec fn can_write(&self, read_outcome: ReadOutcome, handle_outcome: HandleOutcome, write_outcome: WriteOutcome) -> bool {
        self.wf() && count_room(self@, sourced_tile_age(read_outcome, handle_outcome, TileSource::Render))
    }

    open spec fn write_into(
        &self,
        read_outcome: ReadOutcome,
        handle_outcome: HandleOutcome,
        write_outcome: WriteOutcome,
        after: Self,
    ) -> bool {
        after.wf() && after@ == counted(self@, sourced_tile_age(read_outcome, handle_outcome, TileSource::Render))
    }

    fn on_write(&mut self, read_outcome: &ReadOutcome, handle_outcome: &HandleOutcome, _write_outcome: &WriteOutcome) {
        if let ReadOutcome::Processed(Ok(_)) = read_outcome {
            if let HandleOutcome::Processed(result) = handle_outcome {
                if let Ok(response) = &result.result {
                    if let ResponseBody::Tile(tile_response) = &response.body {
                        if let TileSource::Render = tile_response.source {
                            self.on_rendered_tile(tile_response);
                        }
                    }
                }
            }
        }
    }
}

impl RenderMetrics for RenderAnalysis {
    open spec fn metrics_wf(&self) -> bool {
        self.wf()
    }

    open spec fn render_count(&self, age: TileAge) -> int {
        self@[age_rank(age)] as int
    }

    fn iterate_valid_render_ages(&self) -> (ages: Vec<TileAge>) {
        all_tile_ages()
    }

    fn count_tile_renders_by_age(&self, age: &TileAge) -> (count: u64) {
        self.render_count_by_age[age_index(age)]
    }
}

/// The analyses of the responses written and of the tiles handled.
pub struct MetricsState {
    pub response_analysis: ResponseAnalysis,
    pub tile_handling_analysis: TileHandlingAnalysis,
}

impl MetricsState {
    /// Analyses of nothing yet.
    pub fn new(config: &crate::config::ModuleConfig) -> (r: Result<MetricsState, crate::config::InvalidConfigError>)
        ensures
            r matches Ok(m) && m.response_analysis.wf() && m.tile_handling_analysis.wf()
                && m.response_analysis@.layers.len() == 0 && m.response_analysis@.codes.len() == 0
                && m.tile_handling_analysis@.layers.len() == 0,
    {
        let response_analysis = match ResponseAnalysis::new(config) {
            Ok(a) => a,
            Err(e) => return Err(e),
        };
        let tile_handling_analysis = match TileHandlingAnalysis::new(config) {
            Ok(a) => a,
            Err(e) => return Err(e),
        };
        Ok(MetricsState { response_analysis, tile_handling_analysis })
    }

    /// The metrics of the responses written.
    pub fn response_metrics(&self) -> (m: &ResponseAnalysis)
        ensures
            *m == self.response_analysis,
    {
        &self.response_analysis
    }

    /// The metrics of the tiles handled.
    pub fn tile_handling_metrics(&self) -> (m: &TileHandlingAnalysis)
        ensures
            *m == self.tile_handling_analysis,
    {
        &self.tile_handling_analysis
    }

    /// Hands the outcomes of reading, handling and writing a request to both analyses.
    pub fn on_write(&mut self, read_outcome: &ReadOutcome, handle_outcome: &HandleOutcome, write_outcome: &WriteOutcome)
        requires
            old(self).response_analysis.can_write(*read_outcome, *handle_outcome, *write_outcome),
            old(self).tile_handling_analysis.can_write(*read_outcome, *handle_outcome, *write_outcome),
        ensures
            old(self).response_analysis.write_into(*read_outcome, *handle_outcome, *write_outcome, final(self).response_analysis),
            old(self).tile_handling_analysis.write_into(*read_outcome, *handle_outcome, *write_outcome, final(self).tile_handling_analysis),
    {
        self.response_analysis.on_write(read_outcome, handle_outcome, write_outcome);
        self.tile_handling_analysis.on_write(read_outcome, handle_outcome, write_outcome);
    }
}

/// The metrics a handler reads.
pub struct MetricsInventory<'i> {
    pub response_metrics: &'i ResponseAnalysis,
    pub tile_handling_metrics: &'i TileHandlingAnalysis,
}

/// Picks the metrics of an inventory: those it was given in place of the
/// analyses of the metrics state, and the analyses of the state otherwise.
pub struct MetricsFactory<'f> {
    pub response_metrics: Option<&'f ResponseAnalysis>,
    pub tile_handling_metrics: Option<&'f TileHandlingAnalysis>,
}

impl<'f> MetricsFactory<'f> {
    /// A factory that takes every metric from the metrics state.
    pub fn new() -> (f: MetricsFactory<'f>)
        ensures
            f.response_metrics is None,
            f.tile_handling_metrics is None,
    {
        MetricsFactory { response_metrics: None, tile_handling_metrics: None }
    }

    /// The inventory of the metrics: each one given to the factory, or else
    /// the one of the metrics state.
    pub fn metrics_inventory<'a>(&'a self, metrics_state: &'a MetricsState) -> (inventory: MetricsInventory<'a>)
        ensures
            *inventory.response_metrics == match self.response_metrics {
                Some(m) => *m,
                None => metrics_state.response_analysis,
            },
            *inventory.tile_handling_metrics == match self.tile_handling_metrics {
                Some(m) => *m,
                None => metrics_state.tile_handling_analysis,
            },
    {
        let response_metrics = match self.response_metrics {
            Some(m) => m,
            None => metrics_state.response_metrics(),
        };
        let tile_handling_metrics = match self.tile_handling_metrics {
            Some(m) => m,
            None => metrics_state.tile_handling_metrics(),
        };
        MetricsInventory { response_metrics, tile_handling_metrics }
    }
}

} // verus!
