//! What a chat backend and the engine tell each other: the observer a backend
//! reports its lifecycle to, and the note that a failed turn is answered with.
use vstd::prelude::*;

use crate::event::{Inbound, ReactionEvent};

verus! {

/// A hook for observing a backend's lifecycle (connection health, message flow
/// and turn outcomes), for metrics or logging. Every method defaults to a
/// no-op. Calls run on the backend's read loop: count something and return.
pub trait BackendObserver: Send + Sync {
    /// The connection is established.
    fn connected(&self) {
    }

    /// The connection ended and the backend will reopen: after a failure, or
    /// cleanly.
    fn reconnecting(&self, after_error: bool) {
        let _ = after_error;
    }

    /// A message was received; whether a turn will run for it.
    fn received(&self, inbound: &Inbound, admitted: bool) {
        let _ = inbound;
        let _ = admitted;
    }

    /// An addressed message (a mention or a direct message) was denied by the
    /// access policy.
    fn denied(&self, inbound: &Inbound) {
        let _ = inbound;
    }

    /// A turn finished; `ok` is false when it failed.
    fn turn_finished(&self, inbound: &Inbound, ok: bool) {
        let _ = inbound;
        let _ = ok;
    }

    /// An emoji reaction was added to a message. What it means is the
    /// consumer's to decide.
    fn reaction(&self, reaction: &ReactionEvent) {
        let _ = reaction;
    }
}

/// The message posted when a turn fails, so that it still gets a visible reply.
pub const TURN_FAILED_MESSAGE: &'static str = "⚠️ Sorry — that turn failed. Please try again.";

} // verus!
