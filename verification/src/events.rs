//! Events that the plugins report to the host.
use vstd::prelude::*;

verus! {

/// The kinds of event that the plugins report.
pub enum HostEvent {
    /// A model call failed with an authentication error.
    Llm401,
    /// The access key or the secret key could not be read from the keyring.
    AkskMissing,
}

/// An event to report, with its message.
pub struct EventReport {
    pub event: HostEvent,
    pub message: String,
}

impl View for EventReport {
    type V = (HostEvent, Seq<char>);

    open spec fn view(&self) -> (HostEvent, Seq<char>) {
        (self.event, self.message@)
    }
}

/// Builds a report of `event` with `message`.
pub fn event_report(event: HostEvent, message: &str) -> (r: EventReport)
    ensures
        r@ == (event, message@),
{
    EventReport { event, message: String::from_str(message) }
}

} // verus!
