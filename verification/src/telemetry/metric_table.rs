//! A table of one metric per tile source and tile age.

use vstd::prelude::*;
use crate::tile::{age_rank, source_rank, TileAge, TileSource, TILE_AGE_COUNT, TILE_SOURCE_COUNT};
use crate::time::Duration;

verus! {

/// Cells in a table: one per source and age.
pub const TILE_METRIC_CELLS: usize = 6;

/// The cell of a source and an age: sources in the order `Render`, `Cache`,
/// ages in the order `Fresh`, `Old`, `VeryOld`, ages varying fastest.
pub open spec fn cell_index(source: TileSource, age: TileAge) -> int {
    source_rank(source) * TILE_AGE_COUNT + age_rank(age)
}

/// A metric's starting value.
pub trait DefaultMetric: Sized {
    /// The starting value.
    spec fn spec_default() -> Self;

    /// The starting value.
    fn default() -> (r: Self)
        ensures
            r == Self::spec_default(),
    ;
}

impl DefaultMetric for u64 {
    open spec fn spec_default() -> u64 {
        0
    }

    fn default() -> (r: u64) {
        0
    }
}

impl DefaultMetric for Duration {
    open spec fn spec_default() -> Duration {
        Duration { nanos: 0 }
    }

    fn default() -> (r: Duration) {
        Duration::zero()
    }
}

/// One metric per tile source and tile age.
pub struct TileMetricTable<T> {
    table: Vec<T>,
}

impl<T> View for TileMetricTable<T> {
    type V = Seq<T>;

    closed spec fn view(&self) -> Seq<T> {
        self.table@
    }
}

impl<T: DefaultMetric> TileMetricTable<T> {
    /// A table of starting values.
    pub fn new() -> (t: TileMetricTable<T>)
        ensures
            t@.len() == TILE_METRIC_CELLS,
            forall|i: int| 0 <= i < TILE_METRIC_CELLS ==> #[trigger] t@[i] == T::spec_default(),
    {
        let mut table: Vec<T> = Vec::new();
        let mut i: usize = 0;
        while i < TILE_METRIC_CELLS
            invariant
                i <= TILE_METRIC_CELLS,
                table@.len() == i,
                forall|j: int| 0 <= j < i ==> #[trigger] table@[j] == T::spec_default(),
            decreases TILE_METRIC_CELLS - i,
        {
            table.push(T::default());
            i = i + 1;
        }
        TileMetricTable { table }
    }
}

impl<T> TileMetricTable<T> {
    /// The cell of a source and an age.
    pub fn index(source: &TileSource, age: &TileAge) -> (i: usize)
        ensures
            i == cell_index(*source, *age),
            i < TILE_METRIC_CELLS,
    {
        let s: usize = match source {
            TileSource::Render => 0,
            TileSource::Cache => 1,
        };
        let a: usize = match age {
            TileAge::Fresh => 0,
            TileAge::Old => 1,
            TileAge::VeryOld => 2,
        };
        s * TILE_AGE_COUNT + a
    }

    /// The metric of a source and an age.
    pub fn read(&self, source: &TileSource, age: &TileAge) -> (r: &T)
        requires
            self@.len() == TILE_METRIC_CELLS,
        ensures
            *r == self@[cell_index(*source, *age)],
    {
        &self.table[Self::index(source, age)]
    }

    /// The metric of a source and an age, to be changed.
    pub fn update(&mut self, source: &TileSource, age: &TileAge) -> (r: &mut T)
        requires
            old(self)@.len() == TILE_METRIC_CELLS,
        ensures
            *r == old(self)@[cell_index(*source, *age)],
            final(self)@ == old(self)@.update(cell_index(*source, *age), *final(r)),
    {
        let i = Self::index(source, age);
        &mut self.table[i]
    }

    /// All metrics, cell by cell.
    pub fn iter(&self) -> (r: &Vec<T>)
        ensures
            r@ == self@,
    {
        &self.table
    }
}

} // verus!
