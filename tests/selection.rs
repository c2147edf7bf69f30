use scripty_stt::balancer::{LoadBalancer, NUM_STT_SERVICE_TRIES};
use scripty_stt::protocol::Handshake;
use scripty_stt::worker::{ModelError, MonitorAction, MonitorEvent};

fn handshakes(can_overload: &[bool]) -> Vec<Handshake> {
    can_overload
        .iter()
        .map(|&c| Handshake { max_utilization: 0.8f64.to_bits(), can_overload: c })
        .collect()
}

fn overload(lb: &mut LoadBalancer, id: usize) {
    lb.on_monitor_event(id, MonitorEvent::Tag(0x07));
    lb.on_monitor_event(id, MonitorEvent::Utilization(0.95f64.to_bits()));
}

#[test]
fn new_registers_workers_in_order() {
    let lb = LoadBalancer::new(&handshakes(&[false, true, false]));
    assert_eq!(lb.num_workers(), 3);
    assert_eq!(lb.cursor, 0);
    for i in 0..3 {
        let w = lb.worker(i).unwrap();
        assert_eq!(w.id, i);
        assert!(!w.is_overloaded());
        assert!(!w.is_in_error());
    }
    assert!(lb.worker(1).unwrap().can_overload());
    assert!(lb.worker(3).is_none());
}

#[test]
fn round_robin_cycles_through_healthy_workers() {
    let mut lb = LoadBalancer::new(&handshakes(&[false, false, false]));
    let picks: Vec<usize> = (0..7).map(|_| lb.find_worker().unwrap()).collect();
    assert_eq!(picks, vec![0, 1, 2, 0, 1, 2, 0]);
    let mut counts = [0usize; 3];
    for p in picks {
        counts[p] += 1;
    }
    assert_eq!(counts, [3, 2, 2]);
    assert_eq!(lb.cursor, 1);
    assert_eq!(lb.fetch_failure, 0);
}

#[test]
fn round_robin_continues_from_cursor() {
    let mut lb = LoadBalancer::new(&handshakes(&[false, false, false, false]));
    lb.find_worker().unwrap();
    lb.find_worker().unwrap();
    let picks: Vec<usize> = (0..4).map(|_| lb.find_worker().unwrap()).collect();
    assert_eq!(picks, vec![2, 3, 0, 1]);
}

#[test]
fn overloaded_worker_skipped() {
    let mut lb = LoadBalancer::new(&handshakes(&[false, false, false]));
    overload(&mut lb, 1);
    let picks: Vec<usize> = (0..6).map(|_| lb.find_worker().unwrap()).collect();
    assert_eq!(picks, vec![0, 2, 0, 2, 0, 2]);
}

#[test]
fn worker_in_error_skipped() {
    let mut lb = LoadBalancer::new(&handshakes(&[false, false]));
    assert_eq!(lb.on_monitor_event(0, MonitorEvent::Disconnected), MonitorAction::Reconnect);
    assert!(lb.worker(0).unwrap().is_in_error());
    assert_eq!(lb.find_worker(), Ok(1));
    assert_eq!(lb.find_worker(), Ok(1));
    assert_eq!(lb.on_monitor_event(0, MonitorEvent::Reconnected), MonitorAction::ReadTag);
    assert!(!lb.worker(0).unwrap().is_in_error());
    assert_eq!(lb.find_worker(), Ok(0));
}

#[test]
fn degrades_to_overload_tolerant_worker() {
    let mut lb = LoadBalancer::new(&handshakes(&[false, true, false]));
    for i in 0..3 {
        overload(&mut lb, i);
    }
    // four candidates (0, 1, 2, 0) are rejected before the fallback is on
    assert_eq!(lb.find_worker(), Ok(1));
    assert_eq!(lb.cursor, 2);
    assert_eq!(lb.fetch_failure, 0);
}

#[test]
fn no_available_servers_after_budget() {
    let mut lb = LoadBalancer::new(&handshakes(&[false, false, false]));
    for i in 0..3 {
        overload(&mut lb, i);
    }
    let failures = lb.fetch_failure;
    assert_eq!(lb.find_worker(), Err(ModelError::NoAvailableServers));
    assert_eq!(lb.cursor, (NUM_STT_SERVICE_TRIES + 1) % 3);
    assert_eq!(lb.fetch_failure, failures + 1);
}

#[test]
fn empty_registry_has_no_servers() {
    let mut lb = LoadBalancer::new(&Vec::new());
    assert_eq!(lb.find_worker(), Err(ModelError::NoAvailableServers));
    assert_eq!(lb.get_stream(), Err(ModelError::NoAvailableServers));
    assert_eq!(lb.fetch_failure, 2);
}

#[test]
fn single_worker_always_chosen() {
    let mut lb = LoadBalancer::new(&handshakes(&[false]));
    for _ in 0..5 {
        assert_eq!(lb.find_worker(), Ok(0));
    }
    assert_eq!(lb.cursor, 0);
}

#[test]
fn get_stream_and_finish_counts() {
    let mut lb = LoadBalancer::new(&handshakes(&[false, false]));
    assert_eq!(lb.get_stream(), Ok(0));
    lb.finish_stream(0, true);
    assert_eq!(lb.fetch_success, 1);
    assert_eq!(lb.get_stream(), Ok(1));
    lb.finish_stream(1, false);
    assert_eq!(lb.fetch_failure, 1);
    assert!(lb.worker(1).unwrap().is_in_error());
    assert_eq!(lb.get_stream(), Ok(0));
    assert_eq!(lb.get_stream(), Ok(0));
    lb.finish_stream(1, true);
    assert!(!lb.worker(1).unwrap().is_in_error());
}

#[test]
fn heartbeats_counted_as_success() {
    let mut lb = LoadBalancer::new(&handshakes(&[false]));
    assert_eq!(lb.on_monitor_event(0, MonitorEvent::Tag(0x07)), MonitorAction::ReadUtilization);
    assert_eq!(lb.on_monitor_event(0, MonitorEvent::Tag(0x09)), MonitorAction::ReadTag);
    assert_eq!(lb.fetch_success, 1);
    lb.on_monitor_event(0, MonitorEvent::Disconnected);
    assert_eq!(lb.fetch_failure, 1);
}
