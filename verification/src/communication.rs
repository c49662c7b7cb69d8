//! Communication with renderd.

use vstd::prelude::*;
use crate::handler::context::HandleContext;

verus! {

/// Why a message could not be exchanged.
#[derive(Clone, Debug, PartialEq, Eq)]
pub enum CommunicationError {
    /// No answer came in time.
    TimeoutError,
    /// The channel failed, with what the system said.
    Io(String),
}

/// The answer of renderd to a render request.
#[derive(Clone, Debug, PartialEq, Eq)]
pub enum RenderResponse {
    NotDone,
    Done(String),
}

/// A channel that sends a request and waits for its answer.
pub trait BidirectionalChannel {
    /// Sends `request` and gives back the answer, in `response_buffer` when one is given.
    fn send_blocking_request(
        &mut self,
        context: &HandleContext,
        request: &[u8],
        response_buffer: Option<Vec<u8>>,
    ) -> Result<Vec<u8>, CommunicationError>;
}

/// The channels to renderd.
pub struct RenderdCommunicationInventory<'i, C: BidirectionalChannel> {
    pub primary_comms: &'i mut C,
}

/// Gives the channel to the primary renderd.
pub trait CommunicationInventory {
    type Channel: BidirectionalChannel;

    /// The channel to the primary renderd.
    fn primary_renderd_comms(&mut self) -> &mut Self::Channel;
}

} // verus!
