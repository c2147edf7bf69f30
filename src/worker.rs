//! One worker's negotiated capability and live health, and the transitions
//! its control-channel monitor applies to them.
use vstd::prelude::*;

use crate::protocol::{exceeds, is_above_threshold, Handshake, HEARTBEAT};

verus! {

/// Why a worker could not be handed out.
#[derive(Debug, Clone, Copy, PartialEq, Eq, Structural)]
pub enum ModelError {
    /// Every candidate was rejected within the retry budget.
    NoAvailableServers,
    /// The worker does not tolerate overload and is currently overloaded.
    Overloaded,
}

/// One configured worker: its stable index, what it negotiated at handshake
/// and the health flags that the monitor and connection attempts update.
#[derive(Debug, Clone, Copy, PartialEq, Eq, Structural)]
pub struct LoadBalancedStream {
    pub id: usize,
    pub can_overload: bool,
    /// Bits of the binary64 utilization threshold.
    pub max_utilization: u64,
    pub overloaded: bool,
    pub in_error: bool,
}

/// What the control-channel monitor of a worker observed.
#[derive(Debug, Clone, Copy, PartialEq, Eq, Structural)]
pub enum MonitorEvent {
    /// A frame tag byte arrived.
    Tag(u8),
    /// The utilization value after a heartbeat tag arrived (binary64 bits).
    Utilization(u64),
    /// Reading the utilization value after a heartbeat tag failed.
    UtilizationLost,
    /// Reading a tag failed: the control channel is down.
    Disconnected,
    /// A new control channel was opened after a disconnect.
    Reconnected,
    /// Opening a new control channel failed.
    ReconnectFailed,
    /// The backoff interval after a failed reconnect ran out.
    BackoffElapsed,
    /// The process is shutting down.
    Shutdown,
}

/// What the monitor does next.
#[derive(Debug, Clone, Copy, PartialEq, Eq, Structural)]
pub enum MonitorAction {
    /// Wait for the next tag byte, racing the shutdown signal.
    ReadTag,
    /// Read the 8-byte utilization value of a heartbeat.
    ReadUtilization,
    /// Open a new control channel to the worker.
    Reconnect,
    /// Sleep for `RECONNECT_BACKOFF_SECS` seconds.
    Backoff,
    /// Send `CLOSE` on a best-effort basis and stop.
    Close,
}

/// Seconds to wait after a failed reconnect before trying again.
pub const RECONNECT_BACKOFF_SECS: u64 = 1;

/// The worker state after the monitor handles `e`.
pub open spec fn after_event(w: LoadBalancedStream, e: MonitorEvent) -> LoadBalancedStream {
    match e {
        MonitorEvent::Tag(_) => LoadBalancedStream { in_error: false, ..w },
        MonitorEvent::Utilization(u) => LoadBalancedStream {
            overloaded: exceeds(u, w.max_utilization),
            ..w
        },
        MonitorEvent::Disconnected => LoadBalancedStream { in_error: true, ..w },
        MonitorEvent::Reconnected => LoadBalancedStream { in_error: false, ..w },
        _ => w,
    }
}

/// The monitor's next action after `e`.
pub open spec fn action_after(e: MonitorEvent) -> MonitorAction {
    match e {
        MonitorEvent::Tag(t) => if t == HEARTBEAT {
            MonitorAction::ReadUtilization
        } else {
            MonitorAction::ReadTag
        },
        MonitorEvent::Utilization(_) => MonitorAction::ReadTag,
        MonitorEvent::UtilizationLost => MonitorAction::ReadTag,
        MonitorEvent::Disconnected => MonitorAction::Reconnect,
        MonitorEvent::Reconnected => MonitorAction::ReadTag,
        MonitorEvent::ReconnectFailed => MonitorAction::Backoff,
        MonitorEvent::BackoffElapsed => MonitorAction::ReadTag,
        MonitorEvent::Shutdown => MonitorAction::Close,
    }
}

/// Whether `e` counts as a successful exchange with the worker.
pub open spec fn counts_success(e: MonitorEvent) -> bool {
    e == MonitorEvent::Tag(HEARTBEAT)
}

/// Whether `e` counts as a failed exchange with the worker.
pub open spec fn counts_failure(e: MonitorEvent) -> bool {
    e == MonitorEvent::Disconnected
}

impl LoadBalancedStream {
    /// Whether the selection may hand this worker out. Without the overload
    /// fallback it must be neither overloaded nor in error; with it, it must
    /// tolerate overload.
    pub open spec fn acceptable(self, allow_overload: bool) -> bool {
        if allow_overload {
            self.can_overload
        } else {
            !self.overloaded && !self.in_error
        }
    }

    /// A freshly registered worker: healthy, with what its handshake announced.
    pub fn new(id: usize, handshake: Handshake) -> (r: Self)
        ensures
            r == (LoadBalancedStream {
                id,
                can_overload: handshake.can_overload,
                max_utilization: handshake.max_utilization,
                overloaded: false,
                in_error: false,
            }),
    {
        LoadBalancedStream {
            id,
            can_overload: handshake.can_overload,
            max_utilization: handshake.max_utilization,
            overloaded: false,
            in_error: false,
        }
    }

    pub fn is_overloaded(&self) -> (r: bool)
        ensures
            r == self.overloaded,
    {
        self.overloaded
    }

    pub fn is_in_error(&self) -> (r: bool)
        ensures
            r == self.in_error,
    {
        self.in_error
    }

    pub fn can_overload(&self) -> (r: bool)
        ensures
            r == self.can_overload,
    {
        self.can_overload
    }

    /// Whether the selection may hand this worker out (see `acceptable`).
    pub fn is_acceptable(&self, allow_overload: bool) -> (r: bool)
        ensures
            r == self.acceptable(allow_overload),
    {
        if allow_overload {
            self.can_overload
        } else {
            !self.overloaded && !self.in_error
        }
    }

    /// The local check made before a data connection is opened: a worker that
    /// does not tolerate overload and is overloaded is refused at once, with
    /// no network call.
    pub fn open_connection(&self) -> (r: Result<(), ModelError>)
        ensures
            r == (if !self.can_overload && self.overloaded {
                Err::<(), ModelError>(ModelError::Overloaded)
            } else {
                Ok(())
            }),
    {
        if !self.can_overload && self.overloaded {
            Err(ModelError::Overloaded)
        } else {
            Ok(())
        }
    }

    /// Records the outcome of a data-connection attempt: a failure marks the
    /// worker in error, a success clears that mark.
    pub fn record_connection(&mut self, succeeded: bool)
        ensures
            *final(self) == (LoadBalancedStream { in_error: !succeeded, ..*old(self) }),
    {
        self.in_error = !succeeded;
    }

    /// Applies what the control-channel monitor observed and returns its next
    /// action. A tag byte proves the channel alive; a heartbeat's utilization
    /// sets the overload flag to whether it is strictly above the threshold;
    /// a disconnect marks the worker in error until a reconnect or a byte
    /// clears it.
    pub fn on_monitor_event(&mut self, e: MonitorEvent) -> (r: MonitorAction)
        ensures
            *final(self) == after_event(*old(self), e),
            r == action_after(e),
    {
        match e {
            MonitorEvent::Tag(t) => {
                self.in_error = false;
                if t == HEARTBEAT {
                    MonitorAction::ReadUtilization
                } else {
                    MonitorAction::ReadTag
                }
            },
            MonitorEvent::Utilization(u) => {
                self.overloaded = is_above_threshold(u, self.max_utilization);
                MonitorAction::ReadTag
            },
            MonitorEvent::UtilizationLost => MonitorAction::ReadTag,
            MonitorEvent::Disconnected => {
                self.in_error = true;
                MonitorAction::Reconnect
            },
            MonitorEvent::Reconnected => {
                self.in_error = false;
                MonitorAction::ReadTag
            },
            MonitorEvent::ReconnectFailed => MonitorAction::Backoff,
            MonitorEvent::BackoffElapsed => MonitorAction::ReadTag,
            MonitorEvent::Shutdown => MonitorAction::Close,
        }
    }
}

} // verus!
