//! Observers of the three stages a request goes through: reading, handling
//! and writing. Each observer states when it can take an outcome and what it
//! becomes after taking it.

use vstd::prelude::*;
use crate::slippy::{HandleOutcome, ReadOutcome, WriteOutcome};

verus! {

/// Observes the outcome of reading requests.
pub trait ReadRequestObserver: Sized {
    /// The observer can take this read outcome.
    spec fn can_read(&self, read_outcome: ReadOutcome) -> bool;

    /// `after` is this observer once it took the read outcome.
    spec fn read_into(&self, read_outcome: ReadOutcome, after: Self) -> bool;

    /// Takes the outcome of reading a request.
    fn on_read(&mut self, read_outcome: &ReadOutcome)
        requires
            old(self).can_read(*read_outcome),
        ensures
            old(self).read_into(*read_outcome, *final(self)),
    ;
}

/// Observes the outcome of handling requests.
pub trait HandleRequestObserver: Sized {
    /// The observer can take this handle outcome.
    spec fn can_handle(&self, read_outcome: ReadOutcome, handle_outcome: HandleOutcome) -> bool;

    /// `after` is this observer once it took the handle outcome.
    spec fn handle_into(&self, read_outcome: ReadOutcome, handle_outcome: HandleOutcome, after: Self) -> bool;

    /// Takes the outcome of handling a request.
    fn on_handle(&mut self, read_outcome: &ReadOutcome, handle_outcome: &HandleOutcome)
        requires
            old(self).can_handle(*read_outcome, *handle_outcome),
        ensures
            old(self).handle_into(*read_outcome, *handle_outcome, *final(self)),
    ;
}

/// Observes the outcome of writing responses.
pub trait WriteResponseObserver: Sized {
    /// The observer can take this write outcome.
    spec fn can_write(&self, read_outcome: ReadOutcome, handle_outcome: HandleOutcome, write_outcome: WriteOutcome) -> bool;

    /// `after` is this observer once it took the write outcome.
    spec fn write_into(
        &self,
        read_outcome: ReadOutcome,
        handle_outcome: HandleOutcome,
        write_outcome: WriteOutcome,
        after: Self,
    ) -> bool;

    /// Takes the outcome of writing the response to a request.
    fn on_write(&mut self, read_outcome: &ReadOutcome, handle_outcome: &HandleOutcome, write_outcome: &WriteOutcome)
        requires
            old(self).can_write(*read_outcome, *handle_outcome, *write_outcome),
        ensures
            old(self).write_into(*read_outcome, *handle_outcome, *write_outcome, *final(self)),
    ;
}

} // verus!
