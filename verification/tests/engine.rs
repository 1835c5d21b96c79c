use mikriting::cache::InMemoryCache;
use mikriting::models::{DomainError, LatencyUpdate, VpnUser};
use mikriting::monitor::PingMonitor;
use mikriting::repository::InMemoryVpnUserRepository;
use mikriting::usecase::VpnUserUseCase;

fn user(name: &str, address: &str) -> VpnUser {
    VpnUser {
        id: format!("id-{name}"),
        name: name.to_string(),
        service: Some("pppoe".to_string()),
        caller_id: Some("caller".to_string()),
        address: address.to_string(),
        uptime: "5m".to_string(),
        comment: None,
        latency: None,
        is_active: true,
    }
}

fn engine() -> VpnUserUseCase {
    VpnUserUseCase::new(InMemoryCache::new(), PingMonitor::new(2), InMemoryVpnUserRepository::new())
}

fn names(users: &[VpnUser]) -> Vec<String> {
    users.iter().map(|u| u.name.clone()).collect()
}

fn monitored_names(engine: &VpnUserUseCase) -> Vec<String> {
    engine.monitored_snapshot().iter().map(|u| u.name.clone()).collect()
}

#[test]
fn one_session_appears_is_probed_and_disappears() {
    let mut e = engine();

    let published = e.reconcile(vec![user("bob", "10.0.0.5")]);
    assert_eq!(names(&published), vec!["bob".to_string()]);
    let listed = e.get_all_users().unwrap();
    assert_eq!(names(&listed), vec!["bob".to_string()]);
    assert_eq!(listed[0].latency, None);
    assert_eq!(monitored_names(&e), vec!["bob".to_string()]);

    // a probe cycle measures 12.4 ms (12400 microseconds) for bob
    e.update_user_latency(&LatencyUpdate { user_name: "bob".to_string(), latency: Some(12400) })
        .unwrap();
    let listed = e.get_all_users().unwrap();
    assert_eq!(listed[0].latency, Some(12400));

    let published = e.reconcile(Vec::new());
    assert!(published.is_empty());
    assert!(e.get_all_users().unwrap().is_empty());
    assert!(monitored_names(&e).is_empty());
}

#[test]
fn second_fetch_replaces_the_first_entirely() {
    let mut e = engine();
    let mut early = user("a", "10.0.0.1");
    early.uptime = "old".to_string();
    e.reconcile(vec![early, user("b", "10.0.0.2")]);

    let mut later = user("a", "10.0.0.1");
    later.uptime = "new".to_string();
    e.reconcile(vec![later, user("c", "10.0.0.3")]);

    let listed = e.get_all_users().unwrap();
    assert_eq!(names(&listed), vec!["a".to_string(), "c".to_string()]);
    assert_eq!(listed[0].uptime, "new");
}

#[test]
fn diff_stops_started_and_keeps_running_monitoring() {
    let mut e = engine();
    e.reconcile(vec![user("a", "10.0.0.1"), user("b", "10.0.0.2")]);
    assert_eq!(monitored_names(&e), vec!["a".to_string(), "b".to_string()]);

    e.reconcile(vec![user("a", "10.0.0.1"), user("c", "10.0.0.3")]);
    let monitored = monitored_names(&e);
    assert!(monitored.contains(&"a".to_string()));
    assert!(monitored.contains(&"c".to_string()));
    assert!(!monitored.contains(&"b".to_string()));
    assert_eq!(monitored.len(), 2);
}

#[test]
fn session_with_bad_address_is_listed_but_not_monitored() {
    let mut e = engine();
    e.reconcile(vec![user("a", "10.0.0.1"), user("weird", "fe80::1")]);
    let listed = e.get_all_users().unwrap();
    assert_eq!(names(&listed), vec!["a".to_string(), "weird".to_string()]);
    assert_eq!(monitored_names(&e), vec!["a".to_string()]);
}

#[test]
fn a_continuing_session_is_not_restarted_by_reconcile() {
    // only newly appearing sessions get startMonitoring; a session
    // present in both fetches keeps its existing monitoring entry,
    // including the address it was registered with
    let mut e = engine();
    e.reconcile(vec![user("a", "10.0.0.1")]);
    e.reconcile(vec![user("a", "10.0.0.9")]);
    let monitored = e.monitored_snapshot();
    assert_eq!(monitored.len(), 1);
    assert_eq!(monitored[0].address, "10.0.0.1");
    // while the cache already shows the new address
    assert_eq!(e.get_all_users().unwrap()[0].address, "10.0.0.9");
}

#[test]
fn disconnect_removes_immediately() {
    let mut e = engine();
    e.reconcile(vec![user("alice", "10.0.0.1"), user("b", "10.0.0.2")]);

    e.disconnect_user(&"alice".to_string(), Ok(())).unwrap();

    let listed = e.get_all_users().unwrap();
    assert!(!names(&listed).contains(&"alice".to_string()));
    assert!(!monitored_names(&e).contains(&"alice".to_string()));
}

#[test]
fn disconnect_of_unknown_session_fails_and_changes_nothing() {
    let mut e = engine();
    e.reconcile(vec![user("a", "10.0.0.1")]);

    let gateway_answer: Result<(), DomainError> =
        Err(DomainError::UserNotFound("ghost".to_string()));
    let r = e.disconnect_user(&"ghost".to_string(), gateway_answer);
    assert!(matches!(r, Err(DomainError::UserNotFound(n)) if n == "ghost"));

    assert_eq!(names(&e.get_all_users().unwrap()), vec!["a".to_string()]);
    assert_eq!(monitored_names(&e), vec!["a".to_string()]);
}

#[test]
fn late_probe_result_after_removal_is_tolerated() {
    let mut e = engine();
    e.reconcile(vec![user("a", "10.0.0.1"), user("b", "10.0.0.2")]);
    e.reconcile(vec![user("b", "10.0.0.2")]);

    // a's in-flight probe result arrives after its removal
    e.update_user_latency(&LatencyUpdate { user_name: "a".to_string(), latency: Some(42) })
        .unwrap();

    let listed = e.get_all_users().unwrap();
    assert_eq!(names(&listed), vec!["b".to_string()]);
    assert_eq!(listed[0].latency, None);
}

#[test]
fn reads_fall_back_to_the_repository_when_the_cache_is_empty() {
    let mut repository = InMemoryVpnUserRepository::new();
    repository.save(&user("stored", "10.0.0.7")).unwrap();
    let e = VpnUserUseCase::new(InMemoryCache::new(), PingMonitor::new(2), repository);
    assert_eq!(names(&e.get_all_users().unwrap()), vec!["stored".to_string()]);
    let found = e.get_user_by_name(&"stored".to_string()).unwrap();
    assert_eq!(found.unwrap().address, "10.0.0.7");
    assert!(e.get_user_by_name(&"missing".to_string()).unwrap().is_none());
}
