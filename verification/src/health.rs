//! Coherent readiness state shared by the coordinator and HTTP health route.

use vstd::prelude::*;

verus! {

/// One coherent view of bridge and dependency health.
#[derive(Debug, Clone, Copy, PartialEq, Eq, Structural)]
pub struct BridgeReadinessSnapshot {
    pub ready: bool,
    pub state_healthy: bool,
    pub app_server_connected: bool,
    pub transport_healthy: bool,
}

/// Readiness shared between the coordinator and health server.
#[derive(Debug, Clone, Copy, PartialEq, Eq, Structural)]
pub struct BridgeReadiness {
    pub snapshot: BridgeReadinessSnapshot,
}

/// The readiness of a bridge whose components have the given health: it is ready
/// exactly where all of them are.
pub open spec fn readiness_of(
    state_healthy: bool,
    app_server_connected: bool,
    transport_healthy: bool,
) -> BridgeReadinessSnapshot {
    BridgeReadinessSnapshot {
        ready: state_healthy && app_server_connected && transport_healthy,
        state_healthy,
        app_server_connected,
        transport_healthy,
    }
}

impl BridgeReadinessSnapshot {
    /// The readiness of a bridge whose components have the given health.
    pub fn of(state_healthy: bool, app_server_connected: bool, transport_healthy: bool) -> (snapshot:
        Self)
        ensures
            snapshot == readiness_of(state_healthy, app_server_connected, transport_healthy),
    {
        BridgeReadinessSnapshot {
            ready: state_healthy && app_server_connected && transport_healthy,
            state_healthy,
            app_server_connected,
            transport_healthy,
        }
    }

    /// The HTTP status of the readiness endpoint.
    pub fn http_status(&self) -> (status: u16)
        ensures
            status == if self.ready {
                200u16
            } else {
                503u16
            },
    {
        if self.ready {
            200
        } else {
            503
        }
    }
}

impl BridgeReadiness {
    /// Creates readiness state from the coordinator's startup result.
    pub fn new(snapshot: BridgeReadinessSnapshot) -> (readiness: Self)
        ensures
            readiness.snapshot == snapshot,
    {
        BridgeReadiness { snapshot }
    }

    /// Returns a coherent component snapshot for diagnostics.
    pub fn snapshot(&self) -> (snapshot: BridgeReadinessSnapshot)
        ensures
            snapshot == self.snapshot,
    {
        self.snapshot
    }

    /// Replaces the snapshot as a whole.
    pub fn update(&mut self, snapshot: BridgeReadinessSnapshot)
        ensures
            final(self).snapshot == snapshot,
    {
        self.snapshot = snapshot;
    }

    /// Records that the coordinator has stopped.
    pub fn mark_stopped(&mut self)
        ensures
            final(self).snapshot == (BridgeReadinessSnapshot {
                ready: false,
                app_server_connected: false,
                ..old(self).snapshot
            }),
    {
        self.snapshot.ready = false;
        self.snapshot.app_server_connected = false;
    }
}

} // verus!
