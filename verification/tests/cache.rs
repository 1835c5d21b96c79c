use mikriting::cache::InMemoryCache;
use mikriting::models::VpnUser;

fn user(name: &str, address: &str) -> VpnUser {
    VpnUser {
        id: format!("id-{name}"),
        name: name.to_string(),
        service: Some("pppoe".to_string()),
        caller_id: None,
        address: address.to_string(),
        uptime: "5m".to_string(),
        comment: None,
        latency: None,
        is_active: true,
    }
}

fn names(users: &[VpnUser]) -> Vec<String> {
    users.iter().map(|u| u.name.clone()).collect()
}

#[test]
fn empty_cache_has_nothing_loaded() {
    let cache = InMemoryCache::new();
    assert!(cache.get_vpn_users().is_none());
}

#[test]
fn replace_installs_the_given_set() {
    let mut cache = InMemoryCache::new();
    cache.set_vpn_users(vec![user("a", "10.0.0.1"), user("b", "10.0.0.2")]);
    let got = cache.get_vpn_users().unwrap();
    assert_eq!(names(&got), vec!["a".to_string(), "b".to_string()]);
}

#[test]
fn replace_discards_the_prior_set() {
    let mut cache = InMemoryCache::new();
    cache.set_vpn_users(vec![user("a", "10.0.0.1"), user("b", "10.0.0.2")]);
    cache.set_vpn_users(vec![user("c", "10.0.0.3")]);
    let got = cache.get_vpn_users().unwrap();
    assert_eq!(names(&got), vec!["c".to_string()]);
}

#[test]
fn duplicate_names_keep_the_last_record() {
    let mut cache = InMemoryCache::new();
    let mut first = user("a", "10.0.0.1");
    first.uptime = "old".to_string();
    let mut second = user("a", "10.0.0.9");
    second.uptime = "new".to_string();
    cache.set_vpn_users(vec![first, second, user("b", "10.0.0.2")]);
    let got = cache.get_vpn_users().unwrap();
    assert_eq!(got.len(), 2);
    let a = got.iter().find(|u| u.name == "a").unwrap();
    assert_eq!(a.uptime, "new");
    assert_eq!(a.address, "10.0.0.9");
}

#[test]
fn latency_lands_on_the_matching_session() {
    let mut cache = InMemoryCache::new();
    cache.set_vpn_users(vec![user("a", "10.0.0.1"), user("b", "10.0.0.2")]);
    cache.set_user_latency(&"a".to_string(), Some(12400));
    assert_eq!(cache.get_user_latency(&"a".to_string()), Some(12400));
    assert_eq!(cache.get_user_latency(&"b".to_string()), None);
    let got = cache.get_vpn_users().unwrap();
    assert_eq!(got.iter().find(|u| u.name == "a").unwrap().latency, Some(12400));
    assert_eq!(got.iter().find(|u| u.name == "b").unwrap().latency, None);
}

#[test]
fn latency_after_removal_does_not_recreate_the_entry() {
    let mut cache = InMemoryCache::new();
    cache.set_vpn_users(vec![user("a", "10.0.0.1"), user("b", "10.0.0.2")]);
    cache.clear_user(&"a".to_string());
    cache.set_user_latency(&"a".to_string(), Some(42));
    let got = cache.get_vpn_users().unwrap();
    assert_eq!(names(&got), vec!["b".to_string()]);
    assert_eq!(cache.get_user_latency(&"a".to_string()), None);
}

#[test]
fn removing_is_idempotent() {
    let mut cache = InMemoryCache::new();
    cache.set_vpn_users(vec![user("a", "10.0.0.1")]);
    cache.clear_user(&"ghost".to_string());
    assert_eq!(names(&cache.get_vpn_users().unwrap()), vec!["a".to_string()]);
    cache.clear_user(&"a".to_string());
    assert!(cache.get_vpn_users().is_none());
    cache.clear_user(&"a".to_string());
    assert!(cache.get_vpn_users().is_none());
}
