use mikriting::models::{DomainError, VpnUser};
use mikriting::repository::InMemoryVpnUserRepository;

fn user(name: &str) -> VpnUser {
    VpnUser {
        id: format!("id-{name}"),
        name: name.to_string(),
        service: None,
        caller_id: None,
        address: "10.0.0.1".to_string(),
        uptime: "1m".to_string(),
        comment: None,
        latency: None,
        is_active: true,
    }
}

#[test]
fn saves_and_finds() {
    let mut repo = InMemoryVpnUserRepository::new();
    assert!(repo.find_all().unwrap().is_empty());
    repo.save(&user("a")).unwrap();
    repo.save(&user("b")).unwrap();
    assert_eq!(repo.find_all().unwrap().len(), 2);
    assert_eq!(repo.find_by_name(&"a".to_string()).unwrap().unwrap().name, "a");
    assert!(repo.find_by_name(&"c".to_string()).unwrap().is_none());
}

#[test]
fn saving_again_replaces_the_record() {
    let mut repo = InMemoryVpnUserRepository::new();
    repo.save(&user("a")).unwrap();
    let mut changed = user("a");
    changed.uptime = "9h".to_string();
    repo.save(&changed).unwrap();
    let all = repo.find_all().unwrap();
    assert_eq!(all.len(), 1);
    assert_eq!(all[0].uptime, "9h");
}

#[test]
fn deleting_an_unknown_name_is_an_error_here() {
    let mut repo = InMemoryVpnUserRepository::new();
    repo.save(&user("a")).unwrap();
    let r = repo.delete(&"ghost".to_string());
    assert!(matches!(r, Err(DomainError::UserNotFound(n)) if n == "ghost"));
    repo.delete(&"a".to_string()).unwrap();
    assert!(repo.find_all().unwrap().is_empty());
}

#[test]
fn latency_update_needs_a_known_name() {
    let mut repo = InMemoryVpnUserRepository::new();
    repo.save(&user("a")).unwrap();
    repo.update_latency(&"a".to_string(), Some(100)).unwrap();
    assert_eq!(repo.find_by_name(&"a".to_string()).unwrap().unwrap().latency, Some(100));
    let r = repo.update_latency(&"ghost".to_string(), Some(1));
    assert!(matches!(r, Err(DomainError::UserNotFound(n)) if n == "ghost"));
}
