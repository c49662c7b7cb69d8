//! Tracing of the transactions a request goes through; it keeps nothing.

use vstd::prelude::*;
use crate::config::{InvalidConfigError, ModuleConfig};
use crate::slippy::{HandleOutcome, ReadOutcome, WriteOutcome};
use crate::telemetry::observer::{HandleRequestObserver, ReadRequestObserver, WriteResponseObserver};

verus! {

/// Traces the read, handle and write of each request.
pub struct TransactionTrace {}

impl TransactionTrace {
    /// A trace.
    pub fn new(_config: &ModuleConfig) -> (r: Result<TransactionTrace, InvalidConfigError>)
        ensures
            r is Ok,
    {
        Ok(TransactionTrace {})
    }
}

impl ReadRequestObserver for TransactionTrace {
    open spec fn can_read(&self, read_outcome: ReadOutcome) -> bool {
        true
    }

    open spec fn read_into(&self, read_outcome: ReadOutcome, after: Self) -> bool {
        true
    }

    fn on_read(&mut self, read_outcome: &ReadOutcome) {
    }
}

impl HandleRequestObserver for TransactionTrace {
    open spec fn can_handle(&self, read_outcome: ReadOutcome, handle_outcome: HandleOutcome) -> bool {
        true
    }

    open spec fn handle_into(&self, read_outcome: ReadOutcome, handle_outcome: HandleOutcome, after: Self) -> bool {
        true
    }

    fn on_handle(&mut self, read_outcome: &ReadOutcome, handle_outcome: &HandleOutcome) {
    }
}

impl WriteResponseObserver for TransactionTrace {
    open spec fn can_write(&self, read_outcome: ReadOutcome, handle_outcome: HandleOutcome, write_outcome: WriteOutcome) -> bool {
        true
    }

    open spec fn write_into(
        &self,
        read_outcome: ReadOutcome,
        handle_outcome: HandleOutcome,
        write_outcome: WriteOutcome,
        after: Self,
    ) -> bool {
        true
    }

    fn on_write(&mut self, read_outcome: &ReadOutcome, handle_outcome: &HandleOutcome, write_outcome: &WriteOutcome) {
    }
}

/// Observes the read, handle and write of each request; it keeps nothing.
pub struct TransactionObserver {}

impl ReadRequestObserver for TransactionObserver {
    open spec fn can_read(&self, read_outcome: ReadOutcome) -> bool {
        true
    }

    open spec fn read_into(&self, read_outcome: ReadOutcome, after: Self) -> bool {
        true
    }

    fn on_read(&mut self, read_outcome: &ReadOutcome) {
    }
}

impl HandleRequestObserver for TransactionObserver {
    open spec fn can_handle(&self, read_outcome: ReadOutcome, handle_outcome: HandleOutcome) -> bool {
        true
    }

    open spec fn handle_into(&self, read_outcome: ReadOutcome, handle_outcome: HandleOutcome, after: Self) -> bool {
        true
    }

    fn on_handle(&mut self, read_outcome: &ReadOutcome, handle_outcome: &HandleOutcome) {
    }
}

impl WriteResponseObserver for TransactionObserver {
    open spec fn can_write(&self, read_outcome: ReadOutcome, handle_outcome: HandleOutcome, write_outcome: WriteOutcome) -> bool {
        true
    }

    open spec fn write_into(
        &self,
        read_outcome: ReadOutcome,
        handle_outcome: HandleOutcome,
        write_outcome: WriteOutcome,
        after: Self,
    ) -> bool {
        true
    }

    fn on_write(&mut self, read_outcome: &ReadOutcome, handle_outcome: &HandleOutcome, write_outcome: &WriteOutcome) {
    }
}

/// The tracing of the module.
pub struct TracingState {
    pub trans_trace: TransactionTrace,
}

impl TracingState {
    /// Tracing with a transaction trace.
    pub fn new() -> (t: TracingState)
        ensures
            t.trans_trace == (TransactionTrace {}),
    {
        TracingState { trans_trace: TransactionTrace {} }
    }
}

} // verus!
