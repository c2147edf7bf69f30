use scripty_stt::protocol::Handshake;
use scripty_stt::worker::{LoadBalancedStream, ModelError, MonitorAction, MonitorEvent};

fn worker(can_overload: bool) -> LoadBalancedStream {
    LoadBalancedStream::new(4, Handshake { max_utilization: 0.7f64.to_bits(), can_overload })
}

#[test]
fn heartbeat_above_threshold_overloads() {
    let mut w = worker(false);
    assert_eq!(w.on_monitor_event(MonitorEvent::Tag(0x07)), MonitorAction::ReadUtilization);
    assert_eq!(w.on_monitor_event(MonitorEvent::Utilization(0.71f64.to_bits())), MonitorAction::ReadTag);
    assert!(w.is_overloaded());
}

#[test]
fn heartbeat_at_threshold_is_not_overloaded() {
    let mut w = worker(false);
    w.on_monitor_event(MonitorEvent::Utilization(0.7f64.to_bits()));
    assert!(!w.is_overloaded());
}

#[test]
fn heartbeat_toggles_back_to_healthy() {
    let mut w = worker(false);
    w.on_monitor_event(MonitorEvent::Utilization(0.9f64.to_bits()));
    assert!(w.is_overloaded());
    w.on_monitor_event(MonitorEvent::Utilization(0.2f64.to_bits()));
    assert!(!w.is_overloaded());
    w.on_monitor_event(MonitorEvent::Utilization(0.8f64.to_bits()));
    assert!(w.is_overloaded());
}

#[test]
fn malformed_tag_discarded() {
    let mut w = worker(false);
    w.on_monitor_event(MonitorEvent::Disconnected);
    assert_eq!(w.on_monitor_event(MonitorEvent::Tag(0x42)), MonitorAction::ReadTag);
    assert!(!w.is_in_error());
    assert!(!w.is_overloaded());
}

#[test]
fn lost_utilization_keeps_flag() {
    let mut w = worker(false);
    w.on_monitor_event(MonitorEvent::Utilization(0.9f64.to_bits()));
    assert_eq!(w.on_monitor_event(MonitorEvent::UtilizationLost), MonitorAction::ReadTag);
    assert!(w.is_overloaded());
}

#[test]
fn disconnect_and_reconnect() {
    let mut w = worker(false);
    assert_eq!(w.on_monitor_event(MonitorEvent::Disconnected), MonitorAction::Reconnect);
    assert!(w.is_in_error());
    assert!(!w.is_acceptable(false));
    assert_eq!(w.on_monitor_event(MonitorEvent::ReconnectFailed), MonitorAction::Backoff);
    assert!(w.is_in_error());
    assert_eq!(w.on_monitor_event(MonitorEvent::BackoffElapsed), MonitorAction::ReadTag);
    assert_eq!(w.on_monitor_event(MonitorEvent::Reconnected), MonitorAction::ReadTag);
    assert!(!w.is_in_error());
    assert!(w.is_acceptable(false));
}

#[test]
fn shutdown_closes() {
    let mut w = worker(true);
    assert_eq!(w.on_monitor_event(MonitorEvent::Shutdown), MonitorAction::Close);
}

#[test]
fn overloaded_intolerant_worker_refused_locally() {
    let mut w = worker(false);
    w.on_monitor_event(MonitorEvent::Utilization(0.99f64.to_bits()));
    assert_eq!(w.open_connection(), Err(ModelError::Overloaded));
}

#[test]
fn overloaded_tolerant_worker_may_connect() {
    let mut w = worker(true);
    w.on_monitor_event(MonitorEvent::Utilization(0.99f64.to_bits()));
    assert_eq!(w.open_connection(), Ok(()));
    assert!(w.is_acceptable(true));
}

#[test]
fn connection_outcome_sets_error_flag() {
    let mut w = worker(false);
    w.record_connection(false);
    assert!(w.is_in_error());
    w.record_connection(true);
    assert!(!w.is_in_error());
}
