//! The telemetry of the module: every analysis, trace and counter, and the
//! dispatch of each stage's outcome to the observers of that stage.

use vstd::prelude::*;
use crate::config::{InvalidConfigError, ModuleConfig};
use crate::slippy::{HandleOutcome, ReadOutcome, WriteOutcome};
use crate::telemetry::counters::{HandleCounter, ReadCounter, WriteCounter};
use crate::telemetry::observer::{HandleRequestObserver, ReadRequestObserver, WriteResponseObserver};
use crate::telemetry::response::{can_observe, observed, ResponseAnalysis};
use crate::telemetry::tile_handling::{can_observe_handling, handling_observed, TileHandlingAnalysis};
use crate::telemetry::transaction::TransactionTrace;

verus! {

/// The telemetry of the module.
pub struct TelemetryState {
    response_analysis: ResponseAnalysis,
    tile_handling_analysis: TileHandlingAnalysis,
    trans_trace: TransactionTrace,
    read_counter: ReadCounter,
    handle_counter: HandleCounter,
    write_counter: WriteCounter,
}

impl TelemetryState {
    /// The analysis of the responses written.
    pub closed spec fn responses(&self) -> ResponseAnalysis {
        self.response_analysis
    }

    /// The analysis of the tiles handled.
    pub closed spec fn tiles_handled(&self) -> TileHandlingAnalysis {
        self.tile_handling_analysis
    }

    /// Requests read so far.
    pub closed spec fn reads(&self) -> u32 {
        self.read_counter.count
    }

    /// Requests handled so far.
    pub closed spec fn handles(&self) -> u32 {
        self.handle_counter.count
    }

    /// Responses written so far.
    pub closed spec fn writes(&self) -> u32 {
        self.write_counter.count
    }

    /// Both analyses are well formed.
    pub open spec fn wf(&self) -> bool {
        self.responses().wf() && self.tiles_handled().wf()
    }

    /// Telemetry that has observed nothing yet.
    pub fn new(config: &ModuleConfig) -> (r: Result<TelemetryState, InvalidConfigError>)
        ensures
            r matches Ok(t) && t.wf() && t.responses()@.layers.len() == 0 && t.responses()@.codes.len() == 0
                && t.tiles_handled()@.layers.len() == 0 && t.reads() == 0 && t.handles() == 0 && t.writes() == 0,
    {
        let response_analysis = match ResponseAnalysis::new(config) {
            Ok(a) => a,
            Err(e) => return Err(e),
        };
        let tile_handling_analysis = match TileHandlingAnalysis::new(config) {
            Ok(a) => a,
            Err(e) => return Err(e),
        };
        let trans_trace = match TransactionTrace::new(config) {
            Ok(t) => t,
            Err(e) => return Err(e),
        };
        let read_counter = match ReadCounter::new(config) {
            Ok(c) => c,
            Err(e) => return Err(e),
        };
        let handle_counter = match HandleCounter::new(config) {
            Ok(c) => c,
            Err(e) => return Err(e),
        };
        let write_counter = match WriteCounter::new(config) {
            Ok(c) => c,
            Err(e) => return Err(e),
        };
        Ok(TelemetryState {
            response_analysis,
            tile_handling_analysis,
            trans_trace,
            read_counter,
            handle_counter,
            write_counter,
        })
    }

    /// The metrics of the responses written.
    pub fn response_metrics(&self) -> (m: &ResponseAnalysis)
        ensures
            *m == self.responses(),
    {
        &self.response_analysis
    }

    /// The metrics of the tiles handled.
    pub fn tile_handling_metrics(&self) -> (m: &TileHandlingAnalysis)
        ensures
            *m == self.tiles_handled(),
    {
        &self.tile_handling_analysis
    }

    /// The counter of the requests read.
    pub fn read_counter(&self) -> (c: &ReadCounter)
        ensures
            c.count == self.reads(),
    {
        &self.read_counter
    }

    /// The counter of the requests handled.
    pub fn handle_counter(&self) -> (c: &HandleCounter)
        ensures
            c.count == self.handles(),
    {
        &self.handle_counter
    }

    /// The counter of the responses written.
    pub fn write_counter(&self) -> (c: &WriteCounter)
        ensures
            c.count == self.writes(),
    {
        &self.write_counter
    }

    /// Hands the outcome of reading a request to the trace and the read counter.
    pub fn on_read(&mut self, read_outcome: &ReadOutcome)
        requires
            old(self).reads() < u32::MAX,
        ensures
            final(self).reads() == old(self).reads() + 1,
            final(self).handles() == old(self).handles(),
            final(self).writes() == old(self).writes(),
            final(self).responses() == old(self).responses(),
            final(self).tiles_handled() == old(self).tiles_handled(),
    {
        self.trans_trace.on_read(read_outcome);
        self.read_counter.on_read(read_outcome);
    }

    /// Hands the outcome of handling a request to the trace and the handle counter.
    pub fn on_handle(&mut self, read_outcome: &ReadOutcome, handle_outcome: &HandleOutcome)
        requires
            old(self).handles() < u32::MAX,
        ensures
            final(self).handles() == old(self).handles() + 1,
            final(self).reads() == old(self).reads(),
            final(self).writes() == old(self).writes(),
            final(self).responses() == old(self).responses(),
            final(self).tiles_handled() == old(self).tiles_handled(),
    {
        self.trans_trace.on_handle(read_outcome, handle_outcome);
        self.handle_counter.on_handle(read_outcome, handle_outcome);
    }

    /// Hands the outcomes of reading, handling and writing a request to the
    /// trace, both analyses and the write counter.
    pub fn on_write(&mut self, read_outcome: &ReadOutcome, handle_outcome: &HandleOutcome, write_outcome: &WriteOutcome)
        requires
            old(self).wf(),
            old(self).writes() < u32::MAX,
            can_observe(old(self).responses()@, *read_outcome, *handle_outcome, *write_outcome),
            can_observe_handling(old(self).tiles_handled()@, *read_outcome, *handle_outcome),
        ensures
            final(self).wf(),
            final(self).responses()@ == observed(old(self).responses()@, *read_outcome, *handle_outcome, *write_outcome),
            final(self).tiles_handled()@ == handling_observed(old(self).tiles_handled()@, *read_outcome, *handle_outcome),
            final(self).writes() == old(self).writes() + 1,
            final(self).reads() == old(self).reads(),
            final(self).handles() == old(self).handles(),
    {
        self.trans_trace.on_write(read_outcome, handle_outcome, write_outcome);
        self.response_analysis.on_write(read_outcome, handle_outcome, write_outcome);
        self.tile_handling_analysis.on_write(read_outcome, handle_outcome, write_outcome);
        self.write_counter.on_write(read_outcome, handle_outcome, write_outcome);
    }
}

} // verus!
