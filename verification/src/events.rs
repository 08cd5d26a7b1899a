//! Events the bridge runtime reports to its host.

use crate::lifecycle::Lifecycle;
use vstd::prelude::*;

verus! {

/// An event emitted by the runtime on its outbound channel.
#[derive(Debug, Clone, PartialEq)]
pub enum BridgeEvent {
    /// A human-readable log line.
    Log(String),
    /// The bridge lifecycle (`standby`/`running`) changed.
    LifecycleChanged(Lifecycle),
    /// A config patch was processed.
    ConfigApplied { url_changed: bool, anything_changed: bool },
    /// The runtime task panicked.
    Crashed(String),
}

} // verus!
