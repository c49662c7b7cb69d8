//! Tile handling analysis by layer: tiles handled by source and age, and how
//! long their handling took.

use vstd::prelude::*;
use crate::slippy::{HandleOutcome, ReadOutcome, ResponseBody, SlippyRequest, WriteOutcome};
use crate::sums::{lemma_sum_of_push, lemma_sum_of_update, sum_of, all_wf};
use crate::telemetry::metric_table::{cell_index, TileMetricTable, TILE_METRIC_CELLS};
use crate::telemetry::response::{handle_timestamps_wf, lemma_sum_of_step, lemma_take_all};
use crate::tile::{all_tile_ages, TileAge, TileSource};
use crate::time::{duration_in_range, whole_seconds, Duration};
use crate::telemetry::interface::TileHandlingMetrics;
use crate::telemetry::observer::WriteResponseObserver;

verus! {

/// What is known of the tiles handled for one layer, cell by cell.
pub struct TileLayerView {
    pub name: Seq<char>,
    pub counts: Seq<u64>,
    pub durations: Seq<Duration>,
}

/// What is known of all tiles handled: the layers in the order they were first handled for.
pub struct TileHandlingView {
    pub layers: Seq<TileLayerView>,
}

/// The analysis of a layer that no tile was handled for yet.
pub open spec fn empty_tile_layer(name: Seq<char>) -> TileLayerView {
    TileLayerView {
        name,
        counts: Seq::new(TILE_METRIC_CELLS as nat, |i: int| 0u64),
        durations: Seq::new(TILE_METRIC_CELLS as nat, |i: int| Duration { nanos: 0 }),
    }
}

/// Whether a layer of the given name is analysed.
pub open spec fn has_tile_layer(layers: Seq<TileLayerView>, name: Seq<char>) -> bool {
    exists|i: int| 0 <= i < layers.len() && #[trigger] layers[i].name == name
}

/// The layers, with an empty analysis for `name` appended when there is none.
pub open spec fn ensure_tile_layer(layers: Seq<TileLayerView>, name: Seq<char>) -> Seq<TileLayerView> {
    if has_tile_layer(layers, name) { layers } else { layers.push(empty_tile_layer(name)) }
}

/// The layer, with one more tile handled in cell `c` that took `d`.
pub open spec fn add_handled(c: int, d: Duration) -> spec_fn(TileLayerView) -> TileLayerView {
    |l: TileLayerView| TileLayerView {
        name: l.name,
        counts: l.counts.update(c, (l.counts[c] + 1) as u64),
        durations: l.durations.update(c, Duration { nanos: (l.durations[c].nanos + d.nanos) as i128 }),
    }
}

/// The layers, with `f` applied to the layer named `name`.
pub open spec fn update_tile_layer(
    layers: Seq<TileLayerView>,
    name: Seq<char>,
    f: spec_fn(TileLayerView) -> TileLayerView,
) -> Seq<TileLayerView> {
    Seq::new(layers.len(), |i: int| if layers[i].name == name { f(layers[i]) } else { layers[i] })
}

/// The analysis after a tile from `source`, of age `age`, handled for `name` in `d`.
pub open spec fn tile_handled(v: TileHandlingView, name: Seq<char>, source: TileSource, age: TileAge, d: Duration) -> TileHandlingView {
    TileHandlingView {
        layers: update_tile_layer(ensure_tile_layer(v.layers, name), name, add_handled(cell_index(source, age), d)),
    }
}

/// The tile request, where its tile came from, how old it was and how long
/// its handling took, when a tile was read and handled.
pub open spec fn tile_handle_event(read: ReadOutcome, handle: HandleOutcome) -> Option<(SlippyRequest, TileSource, TileAge, Duration)> {
    match (read, handle) {
        (ReadOutcome::Processed(Ok(request)), HandleOutcome::Processed(handled)) => match handled.result {
            Ok(response) => match response.body {
                ResponseBody::Tile(tile) => Some(
                    (
                        request,
                        tile.source,
                        tile.age,
                        Duration { nanos: (handled.after_timestamp.nanos - handled.before_timestamp.nanos) as i128 },
                    ),
                ),
                _ => None,
            },
            Err(_) => None,
        },
        _ => None,
    }
}

/// The analysis after the outcomes of one request.
pub open spec fn handling_observed(v: TileHandlingView, read: ReadOutcome, handle: HandleOutcome) -> TileHandlingView {
    match tile_handle_event(read, handle) {
        Some((request, source, age, d)) => tile_handled(v, request.header.layer@, source, age, d),
        None => v,
    }
}

/// Recording a handled tile overflows no counter and no duration.
pub open spec fn handled_room(v: TileHandlingView, name: Seq<char>, c: int, d: Duration) -> bool {
    forall|i: int| 0 <= i < v.layers.len() && #[trigger] v.layers[i].name == name
        ==> v.layers[i].counts[c] < u64::MAX && duration_in_range(v.layers[i].durations[c].nanos + d.nanos)
}

/// Recording the outcomes of one request overflows no counter and no duration.
pub open spec fn can_observe_handling(v: TileHandlingView, read: ReadOutcome, handle: HandleOutcome) -> bool {
    &&& handle_timestamps_wf(handle)
    &&& match tile_handle_event(read, handle) {
        Some((request, source, age, d)) => handled_room(v, request.header.layer@, cell_index(source, age), d),
        None => true,
    }
}

/// A well-formed layer analysis: a counter and a well-formed duration per cell.
pub open spec fn tile_layer_wf(l: TileLayerView) -> bool {
    &&& l.counts.len() == TILE_METRIC_CELLS
    &&& l.durations.len() == TILE_METRIC_CELLS
    &&& all_wf(l.durations)
}

/// A well-formed analysis: well-formed layers of distinct names.
pub open spec fn handling_view_wf(v: TileHandlingView) -> bool {
    &&& forall|i: int| 0 <= i < v.layers.len() ==> tile_layer_wf(#[trigger] v.layers[i])
    &&& forall|i: int, j: int| 0 <= i < j < v.layers.len() ==> #[trigger] v.layers[i].name != #[trigger] v.layers[j].name
}

/// Tiles handled for a layer in cell `c`.
pub open spec fn layer_cell_count(c: int) -> spec_fn(TileLayerView) -> int {
    |l: TileLayerView| l.counts[c] as int
}

/// Tiles from `source` of age `age`, over all layers.
pub open spec fn spec_count_handled_tile_by_source_and_age(v: TileHandlingView, source: TileSource, age: TileAge) -> int {
    sum_of(v.layers, layer_cell_count(cell_index(source, age)))
}

/// Adding up the handling time of cell `c` layer by layer; `None` when a
/// partial sum leaves the duration range.
pub open spec fn fold_cell_durations(layers: Seq<TileLayerView>, c: int) -> Option<int>
    decreases layers.len(),
{
    if layers.len() == 0 {
        Some(0)
    } else {
        match fold_cell_durations(layers.drop_last(), c) {
            Some(t) => if duration_in_range(t + layers.last().durations[c].nanos) {
                Some(t + layers.last().durations[c].nanos)
            } else {
                None
            },
            None => None,
        }
    }
}

/// The tiles handled for one layer.
pub struct TileLayerHandlingAnalysis {
    pub layer: String,
    pub tile_handle_count_by_source_and_age: TileMetricTable<u64>,
    pub tile_handle_duration_by_source_and_age: TileMetricTable<Duration>,
}

impl View for TileLayerHandlingAnalysis {
    type V = TileLayerView;

    open spec fn view(&self) -> TileLayerView {
        TileLayerView {
            name: self.layer@,
            counts: self.tile_handle_count_by_source_and_age@,
            durations: self.tile_handle_duration_by_source_and_age@,
        }
    }
}

impl TileLayerHandlingAnalysis {
    /// The analysis of a layer that no tile was handled for yet.
    pub fn new(layer: String) -> (l: TileLayerHandlingAnalysis)
        ensures
            l@ == empty_tile_layer(layer@),
    {
        let l = TileLayerHandlingAnalysis {
            layer,
            tile_handle_count_by_source_and_age: TileMetricTable::new(),
            tile_handle_duration_by_source_and_age: TileMetricTable::new(),
        };
        assert(l@.counts =~= empty_tile_layer(l.layer@).counts);
        assert(l@.durations =~= empty_tile_layer(l.layer@).durations);
        l
    }
}

/// The tiles handled by the server, by layer.
pub struct TileHandlingAnalysis {
    analysis_by_layer: Vec<TileLayerHandlingAnalysis>,
}

impl View for TileHandlingAnalysis {
    type V = TileHandlingView;

    closed spec fn view(&self) -> TileHandlingView {
        TileHandlingView { layers: self.analysis_by_layer@.map_values(|l: TileLayerHandlingAnalysis| l@) }
    }
}

impl TileHandlingAnalysis {
    /// The analysis is well formed.
    pub open spec fn wf(&self) -> bool {
        handling_view_wf(self@)
    }

    /// An analysis of no tiles.
    pub fn new(_config: &crate::config::ModuleConfig) -> (r: Result<TileHandlingAnalysis, crate::config::InvalidConfigError>)
        ensures
            r matches Ok(a) && a.wf() && a@.layers.len() == 0,
    {
        let a = TileHandlingAnalysis { analysis_by_layer: Vec::new() };
        assert(a@.layers =~= Seq::<TileLayerView>::empty());
        Ok(a)
    }

    /// Makes the layer named `name` known, and gives its position.
    fn mut_layer(&mut self, name: &String) -> (i: usize)
        requires
            old(self).wf(),
        ensures
            final(self).wf(),
            final(self)@.layers == ensure_tile_layer(old(self)@.layers, name@),
            i < final(self)@.layers.len(),
            final(self)@.layers[i as int].name == name@,
    {
        let mut i: usize = 0;
        while i < self.analysis_by_layer.len()
            invariant
                i <= self@.layers.len(),
                self@.layers.len() == self.analysis_by_layer@.len(),
                self.wf(),
                self@ == old(self)@,
                forall|j: int| 0 <= j < i ==> self@.layers[j].name != name@,
            decreases self@.layers.len() - i,
        {
            if self.analysis_by_layer[i].layer == *name {
                assert(self@.layers[i as int].name == name@);
                return i;
            }
            i = i + 1;
        }
        let ghost before = self@;
        self.analysis_by_layer.push(TileLayerHandlingAnalysis::new(name.clone()));
        proof {
            assert(self@.layers =~= before.layers.push(empty_tile_layer(name@)));
            let n = before.layers.len() as int;
            assert(tile_layer_wf(empty_tile_layer(name@))) by {
                assert(all_wf(empty_tile_layer(name@).durations));
            }
            assert forall|k: int| 0 <= k < self@.layers.len() implies tile_layer_wf(#[trigger] self@.layers[k]) by {
                if k < n {
                    assert(self@.layers[k] == before.layers[k]);
                }
            }
            assert forall|a: int, b: int| 0 <= a < b < self@.layers.len() implies #[trigger] self@.layers[a].name
                != #[trigger] self@.layers[b].name by {
                assert(self@.layers[a] == before.layers[a]);
                if b < n {
                    assert(self@.layers[b] == before.layers[b]);
                }
            }
        }
        self.analysis_by_layer.len() - 1
    }

    /// Records a tile handled for `request` from `source`, of age `age`, in `duration`.
    fn on_handled_tile(&mut self, request: &SlippyRequest, source: &TileSource, age: &TileAge, duration: &Duration)
        requires
            old(self).wf(),
            duration.wf(),
            handled_room(old(self)@, request.header.layer@, cell_index(*source, *age), *duration),
        ensures
            final(self).wf(),
            final(self)@ == tile_handled(old(self)@, request.header.layer@, *source, *age, *duration),
    {
        let ghost before = self@;
        let ghost name = request.header.layer@;
        let ghost c = cell_index(*source, *age);
        let i = self.mut_layer(&request.header.layer);
        let ghost mid = self@;
        proof {
            assert forall|j: int| 0 <= j < mid.layers.len() && j != i implies #[trigger] mid.layers[j].name != name by {
                if j < i {
                    assert(mid.layers[j].name != mid.layers[i as int].name);
                } else {
                    assert(mid.layers[i as int].name != mid.layers[j].name);
                }
            }
            if (i as int) < before.layers.len() {
                assert(mid.layers[i as int] == before.layers[i as int]);
            } else {
                assert(mid.layers[i as int] == empty_tile_layer(name));
            }
            assert(tile_layer_wf(mid.layers[i as int]));
        }
        {
            let counter = self.analysis_by_layer[i].tile_handle_count_by_source_and_age.update(source, age);
            *counter = *counter + 1;
        }
        {
            let tally = self.analysis_by_layer[i].tile_handle_duration_by_source_and_age.update(source, age);
            proof {
                assert(mid.layers[i as int].durations[c].wf());
            }
            *tally = tally.plus(duration);
        }
        proof {
            let f = add_handled(c, *duration);
            assert(self@.layers[i as int] =~~= f(mid.layers[i as int]));
            assert(self@.layers =~= update_tile_layer(mid.layers, name, f));
            assert(tile_layer_wf(self@.layers[i as int]));
            assert forall|k: int| 0 <= k < self@.layers.len() implies tile_layer_wf(#[trigger] self@.layers[k]) by {
                if k != i {
                    assert(self@.layers[k] == mid.layers[k]);
                }
            }
            assert forall|a: int, b: int| 0 <= a < b < self@.layers.len() implies #[trigger] self@.layers[a].name
                != #[trigger] self@.layers[b].name by {
                assert(self@.layers[a].name == mid.layers[a].name);
                assert(self@.layers[b].name == mid.layers[b].name);
            }
        }
    }

    /// Records the outcomes of reading and handling one request: a tile when
    /// a tile request was read and a tile handled for it.
    fn observe_write(&mut self, read_outcome: &ReadOutcome, handle_outcome: &HandleOutcome, _write_outcome: &WriteOutcome)
        requires
            old(self).wf(),
            can_observe_handling(old(self)@, *read_outcome, *handle_outcome),
        ensures
            final(self).wf(),
            final(self)@ == handling_observed(old(self)@, *read_outcome, *handle_outcome),
    {
        if let ReadOutcome::Processed(Ok(request)) = read_outcome {
            if let HandleOutcome::Processed(handle_result) = handle_outcome {
                if let Ok(response) = &handle_result.result {
                    if let ResponseBody::Tile(tile_response) = &response.body {
                        let duration = handle_result.after_timestamp.duration_since(&handle_result.before_timestamp);
                        self.on_handled_tile(request, &tile_response.source, &tile_response.age, &duration);
                    }
                }
            }
        }
    }
}

impl TileHandlingMetrics for TileHandlingAnalysis {
    open spec fn metrics_wf(&self) -> bool {
        self.wf()
    }

    open spec fn handled_tile_count(&self, source: TileSource, age: TileAge) -> int {
        spec_count_handled_tile_by_source_and_age(self@, source, age)
    }

    open spec fn handled_tile_seconds(&self, source: TileSource, age: TileAge) -> Option<int> {
        match fold_cell_durations(self@.layers, cell_index(source, age)) {
            Some(nanos) => Some(whole_seconds(nanos)),
            None => None,
        }
    }

    /// Every tile age a cached tile can have.
    fn iterate_valid_cache_ages(&self) -> (ages: Vec<TileAge>)
    {
        all_tile_ages()
    }

    /// Every tile age a rendered tile can have.
    fn iterate_valid_render_ages(&self) -> (ages: Vec<TileAge>)
    {
        all_tile_ages()
    }

    /// Tiles handled from `source` of age `age`, over all layers.
    fn count_handled_tile_by_source_and_age(&self, source: &TileSource, age: &TileAge) -> (total: u64)
    {
        let ghost f = layer_cell_count(cell_index(*source, *age));
        let mut total: u64 = 0;
        let mut i: usize = 0;
        while i < self.analysis_by_layer.len()
            invariant
                i <= self@.layers.len(),
                self@.layers.len() == self.analysis_by_layer@.len(),
                self.wf(),
                f == layer_cell_count(cell_index(*source, *age)),
                sum_of(self@.layers, f) <= u64::MAX,
                total == sum_of(self@.layers.take(i as int), f),
            decreases self@.layers.len() - i,
        {
            proof {
                lemma_sum_of_step(self@.layers, f, i as int);
            }
            assert(self@.layers[i as int] == self.analysis_by_layer@[i as int]@);
            assert(tile_layer_wf(self@.layers[i as int]));
            total = total + *self.analysis_by_layer[i].tile_handle_count_by_source_and_age.read(source, age);
            i = i + 1;
        }
        proof {
            lemma_take_all(self@.layers);
        }
        total
    }

    /// Whole seconds spent handling tiles from `source` of age `age`, over all
    /// layers, as an unsigned count (a negative count wraps around).
    fn tally_tile_handle_duration_by_source_and_age(&self, source: &TileSource, age: &TileAge) -> (secs: u64)
    {
        let ghost c = cell_index(*source, *age);
        let mut total = Duration::zero();
        let mut i: usize = 0;
        while i < self.analysis_by_layer.len()
            invariant
                i <= self@.layers.len(),
                self@.layers.len() == self.analysis_by_layer@.len(),
                self.wf(),
                c == cell_index(*source, *age),
                0 <= c < TILE_METRIC_CELLS,
                fold_cell_durations(self@.layers, c) is Some,
                fold_cell_durations(self@.layers.take(i as int), c) == Some(total.nanos as int),
                total.wf(),
            decreases self@.layers.len() - i,
        {
            proof {
                lemma_fold_cells_prefix_some(self@.layers, c, i as int + 1);
                assert(self@.layers.take(i as int + 1).drop_last() =~= self@.layers.take(i as int));
            }
            assert(self@.layers[i as int] == self.analysis_by_layer@[i as int]@);
            assert(tile_layer_wf(self@.layers[i as int]));
            let tally = self.analysis_by_layer[i].tile_handle_duration_by_source_and_age.read(source, age);
            proof {
                assert(self@.layers[i as int].durations[c].wf());
            }
            total = total.plus(tally);
            i = i + 1;
        }
        proof {
            lemma_take_all(self@.layers);
        }
        total.num_seconds() as u64
    }
}

impl WriteResponseObserver for TileHandlingAnalysis {
    open spec fn can_write(&self, read_outcome: ReadOutcome, handle_outcome: HandleOutcome, write_outcome: WriteOutcome) -> bool {
        self.wf() && can_observe_handling(self@, read_outcome, handle_outcome)
    }

    open spec fn write_into(
        &self,
        read_outcome: ReadOutcome,
        handle_outcome: HandleOutcome,
        write_outcome: WriteOutcome,
        after: Self,
    ) -> bool {
        after.wf() && after@ == handling_observed(self@, read_outcome, handle_outcome)
    }

    fn on_write(&mut self, read_outcome: &ReadOutcome, handle_outcome: &HandleOutcome, write_outcome: &WriteOutcome) {
        self.observe_write(read_outcome, handle_outcome, write_outcome);
    }
}

/// When the fold over all layers succeeds, so does the fold over every prefix.
pub proof fn lemma_fold_cells_prefix_some(s: Seq<TileLayerView>, c: int, i: int)
    requires
        0 <= i <= s.len(),
        fold_cell_durations(s, c) is Some,
    ensures
        fold_cell_durations(s.take(i), c) is Some,
    decreases s.len() - i,
{
    if i < s.len() {
        lemma_fold_cells_prefix_some(s, c, i + 1);
        assert(s.take(i + 1).drop_last() =~= s.take(i));
    } else {
        assert(s.take(i) =~= s);
    }
}

/// A handled tile is counted once, for its source and age and no other.
pub proof fn law_handled_tile_counted_once(
    v: TileHandlingView,
    name: Seq<char>,
    source: TileSource,
    age: TileAge,
    d: Duration,
    source2: TileSource,
    age2: TileAge,
)
    requires
        handling_view_wf(v),
        handled_room(v, name, cell_index(source, age), d),
    ensures
        spec_count_handled_tile_by_source_and_age(tile_handled(v, name, source, age, d), source2, age2)
            == spec_count_handled_tile_by_source_and_age(v, source2, age2)
                + (if source2 == source && age2 == age { 1int } else { 0int }),
{
    let c = cell_index(source, age);
    let c2 = cell_index(source2, age2);
    let f = layer_cell_count(c2);
    let ls = ensure_tile_layer(v.layers, name);
    let i: int = if has_tile_layer(v.layers, name) {
        choose|i: int| 0 <= i < v.layers.len() && #[trigger] v.layers[i].name == name
    } else {
        v.layers.len() as int
    };
    if !has_tile_layer(v.layers, name) {
        lemma_sum_of_push(v.layers, f, empty_tile_layer(name));
    }
    assert(ls[i].name == name);
    assert forall|j: int| 0 <= j < ls.len() && j != i implies #[trigger] ls[j].name != name by {
        if has_tile_layer(v.layers, name) {
            if j < i {
                assert(v.layers[j].name != v.layers[i].name);
            } else {
                assert(v.layers[i].name != v.layers[j].name);
            }
        } else {
            assert(ls[j] == v.layers[j]);
            if v.layers[j].name == name {
                assert(has_tile_layer(v.layers, name));
            }
        }
    }
    let g = add_handled(c, d);
    assert(update_tile_layer(ls, name, g) =~= ls.update(i, g(ls[i])));
    lemma_sum_of_update(ls, f, i, g(ls[i]));
    if has_tile_layer(v.layers, name) {
        assert(tile_layer_wf(v.layers[i]));
        assert(v.layers[i].counts[c] < u64::MAX);
    }
    if c != c2 {
        assert(source2 != source || age2 != age);
    } else {
        assert(source2 == source && age2 == age) by {
            reveal(crate::tile::source_rank);
        }
    }
}

} // verus!
