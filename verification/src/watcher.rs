//! The watch-event model: one merged, time-ordered stream of filesystem
//! events feeds the fleet, whichever of the two underlying mechanisms (a
//! poller for the pseudo-filesystem, a native watcher per brightness file)
//! detected the change. The fleet consumes one event at a time and answers
//! with the actions to perform.

use vstd::prelude::*;

verus! {

/// What kind of filesystem change an event reports.
#[derive(Clone, Copy, Debug, PartialEq, Eq, Structural)]
pub enum WatchEventKind {
    /// Something appeared.
    Create,
    /// Something disappeared.
    Remove,
    /// A file's contents changed.
    Modify,
    /// Anything else; carries no information the fleet acts on.
    Other,
}

/// One filesystem event: its kind, the affected paths, and when the
/// underlying mechanism detected it.
#[derive(Debug)]
pub struct WatchEvent {
    pub kind: WatchEventKind,
    pub paths: Vec<Vec<char>>,
    pub timestamp_ms: u64,
}

/// What the fleet asks its caller to do in answer to an event.
#[derive(Debug)]
pub enum WatchAction {
    /// A matching device appeared: construct it, add it to the fleet, and
    /// begin watching its brightness file.
    AddDevice { device_name: Vec<char> },
    /// A known device disappeared: drop it and stop watching its file.
    RemoveDevice { device_name: Vec<char> },
    /// A brightness file changed and the change was not an echo of this
    /// process's own recent write: surface it.
    ExternalChange,
}

/// The specification-level value of a `WatchAction`.
#[verifier::ext_equal]
pub enum SpecWatchAction {
    AddDevice(Seq<char>),
    RemoveDevice(Seq<char>),
    ExternalChange,
}

impl View for WatchAction {
    type V = SpecWatchAction;

    open spec fn view(&self) -> SpecWatchAction {
        match self {
            WatchAction::AddDevice { device_name } => SpecWatchAction::AddDevice(device_name@),
            WatchAction::RemoveDevice { device_name } => SpecWatchAction::RemoveDevice(
                device_name@,
            ),
            WatchAction::ExternalChange => SpecWatchAction::ExternalChange,
        }
    }
}

/// The views of a sequence of actions.
pub open spec fn spec_action_views(s: Seq<WatchAction>) -> Seq<SpecWatchAction> {
    s.map_values(|a: WatchAction| a@)
}

} // verus!
