//! Counters of the requests read, handled and written.

use vstd::prelude::*;
use crate::config::{InvalidConfigError, ModuleConfig};
use crate::slippy::{HandleOutcome, ReadOutcome, WriteOutcome};
use crate::telemetry::observer::{HandleRequestObserver, ReadRequestObserver, WriteResponseObserver};

verus! {

/// Counts the requests read.
pub struct ReadCounter {
    pub count: u32,
}

impl ReadCounter {
    /// A counter at zero.
    pub fn new(_config: &ModuleConfig) -> (r: Result<ReadCounter, InvalidConfigError>)
        ensures
            r matches Ok(c) && c.count == 0,
    {
        Ok(ReadCounter { count: 0 })
    }
}

impl ReadRequestObserver for ReadCounter {
    open spec fn can_read(&self, read_outcome: ReadOutcome) -> bool {
        self.count < u32::MAX
    }

    open spec fn read_into(&self, read_outcome: ReadOutcome, after: Self) -> bool {
        after.count == self.count + 1
    }

    fn on_read(&mut self, read_outcome: &ReadOutcome) {
        self.count = self.count + 1;
    }
}

/// Counts the requests handled.
pub struct HandleCounter {
    pub count: u32,
}

impl HandleCounter {
    /// A counter at zero.
    pub fn new(_config: &ModuleConfig) -> (r: Result<HandleCounter, InvalidConfigError>)
        ensures
            r matches Ok(c) && c.count == 0,
    {
        Ok(HandleCounter { count: 0 })
    }
}

impl HandleRequestObserver for HandleCounter {
    open spec fn can_handle(&self, read_outcome: ReadOutcome, handle_outcome: HandleOutcome) -> bool {
        self.count < u32::MAX
    }

    open spec fn handle_into(&self, read_outcome: ReadOutcome, handle_outcome: HandleOutcome, after: Self) -> bool {
        after.count == self.count + 1
    }

    fn on_handle(&mut self, read_outcome: &ReadOutcome, handle_outcome: &HandleOutcome) {
        self.count = self.count + 1;
    }
}

/// Counts the responses written.
pub struct WriteCounter {
    pub count: u32,
}

impl WriteCounter {
    /// A counter at zero.
    pub fn new(_config: &ModuleConfig) -> (r: Result<WriteCounter, InvalidConfigError>)
        ensures
            r matches Ok(c) && c.count == 0,
    {
        Ok(WriteCounter { count: 0 })
    }
}

impl WriteResponseObserver for WriteCounter {
    open spec fn can_write(&self, read_outcome: ReadOutcome, handle_outcome: HandleOutcome, write_outcome: WriteOutcome) -> bool {
        self.count < u32::MAX
    }

    open spec fn write_into(
        &self,
        read_outcome: ReadOutcome,
        handle_outcome: HandleOutcome,
        write_outcome: WriteOutcome,
        after: Self,
    ) -> bool {
        after.count == self.count + 1
    }

    fn on_write(&mut self, read_outcome: &ReadOutcome, handle_outcome: &HandleOutcome, write_outcome: &WriteOutcome) {
        self.count = self.count + 1;
    }
}

/// Counts the requests read.
pub struct CountingReadObserver {
    pub count: u32,
}

impl CountingReadObserver {
    /// A counter at zero.
    pub fn new() -> (c: CountingReadObserver)
        ensures
            c.count == 0,
    {
        CountingReadObserver { count: 0 }
    }
}

impl ReadRequestObserver for CountingReadObserver {
    open spec fn can_read(&self, read_outcome: ReadOutcome) -> bool {
        self.count < u32::MAX
    }

    open spec fn read_into(&self, read_outcome: ReadOutcome, after: Self) -> bool {
        after.count == self.count + 1
    }

    fn on_read(&mut self, read_outcome: &ReadOutcome) {
        self.count = self.count + 1;
    }
}

/// Counts the requests handled.
pub struct CountingHandleObserver {
    pub count: u32,
}

impl CountingHandleObserver {
    /// A counter at zero.
    pub fn new() -> (c: CountingHandleObserver)
        ensures
            c.count == 0,
    {
        CountingHandleObserver { count: 0 }
    }
}

impl HandleRequestObserver for CountingHandleObserver {
    open spec fn can_handle(&self, read_outcome: ReadOutcome, handle_outcome: HandleOutcome) -> bool {
        self.count < u32::MAX
    }

    open spec fn handle_into(&self, read_outcome: ReadOutcome, handle_outcome: HandleOutcome, after: Self) -> bool {
        after.count == self.count + 1
    }

    fn on_handle(&mut self, read_outcome: &ReadOutcome, handle_outcome: &HandleOutcome) {
        self.count = self.count + 1;
    }
}

/// Counts the responses written.
pub struct CountingWriteObserver {
    pub count: u32,
}

impl CountingWriteObserver {
    /// A counter at zero.
    pub fn new() -> (c: CountingWriteObserver)
        ensures
            c.count == 0,
    {
        CountingWriteObserver { count: 0 }
    }
}

impl WriteResponseObserver for CountingWriteObserver {
    open spec fn can_write(&self, read_outcome: ReadOutcome, handle_outcome: HandleOutcome, write_outcome: WriteOutcome) -> bool {
        self.count < u32::MAX
    }

    open spec fn write_into(
        &self,
        read_outcome: ReadOutcome,
        handle_outcome: HandleOutcome,
        write_outcome: WriteOutcome,
        after: Self,
    ) -> bool {
        after.count == self.count + 1
    }

    fn on_write(&mut self, read_outcome: &ReadOutcome, handle_outcome: &HandleOutcome, write_outcome: &WriteOutcome) {
        self.count = self.count + 1;
    }
}

} // verus!
