use mikriting::models::{DomainError, VpnUser};
use mikriting::monitor::{latency_from_micros, PingMonitor};

fn user(name: &str, address: &str) -> VpnUser {
    VpnUser {
        id: format!("id-{name}"),
        name: name.to_string(),
        service: None,
        caller_id: None,
        address: address.to_string(),
        uptime: "1m".to_string(),
        comment: None,
        latency: None,
        is_active: true,
    }
}

fn monitored_names(monitor: &PingMonitor) -> Vec<String> {
    monitor.monitored_snapshot().iter().map(|u| u.name.clone()).collect()
}

#[test]
fn probe_durations_clamp_into_range() {
    assert_eq!(latency_from_micros(12400), 12400);
    assert_eq!(latency_from_micros(0), 0);
    assert_eq!(latency_from_micros(u64::MAX as u128 + 1), u64::MAX);
}

#[test]
fn keeps_its_interval() {
    let monitor = PingMonitor::new(7);
    assert_eq!(monitor.ping_interval_seconds(), 7);
}

#[test]
fn starts_and_stops_monitoring() {
    let mut monitor = PingMonitor::new(2);
    monitor.start_monitoring(&user("a", "10.0.0.1")).unwrap();
    monitor.start_monitoring(&user("b", "10.0.0.2")).unwrap();
    assert_eq!(monitored_names(&monitor), vec!["a".to_string(), "b".to_string()]);
    monitor.stop_monitoring(&"a".to_string()).unwrap();
    assert_eq!(monitored_names(&monitor), vec!["b".to_string()]);
}

#[test]
fn refuses_an_unparseable_address() {
    let mut monitor = PingMonitor::new(2);
    let r = monitor.start_monitoring(&user("a", "not-an-ip"));
    assert!(matches!(r, Err(DomainError::InvalidIpAddress(a)) if a == "not-an-ip"));
    assert!(monitored_names(&monitor).is_empty());
}

#[test]
fn restart_refreshes_the_entry() {
    let mut monitor = PingMonitor::new(2);
    monitor.start_monitoring(&user("a", "10.0.0.1")).unwrap();
    monitor.start_monitoring(&user("a", "10.0.0.9")).unwrap();
    let snapshot = monitor.monitored_snapshot();
    assert_eq!(snapshot.len(), 1);
    assert_eq!(snapshot[0].address, "10.0.0.9");
}

#[test]
fn stopping_an_unmonitored_name_is_not_an_error() {
    let mut monitor = PingMonitor::new(2);
    monitor.start_monitoring(&user("a", "10.0.0.1")).unwrap();
    monitor.start_monitoring(&user("b", "10.0.0.2")).unwrap();
    monitor.stop_monitoring(&"ghost".to_string()).unwrap();
    assert_eq!(monitored_names(&monitor), vec!["a".to_string(), "b".to_string()]);
}
