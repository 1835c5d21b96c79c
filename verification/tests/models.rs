use mikriting::models::{AuthUser, LatencyUpdate, VpnUser};

#[test]
fn new_session_gets_a_fresh_identifier() {
    let u = VpnUser::new(
        "bob".to_string(),
        Some("pppoe".to_string()),
        None,
        "10.0.0.5".to_string(),
        "1m".to_string(),
        Some("office".to_string()),
    );
    assert_eq!(u.id.len(), 36);
    assert_eq!(u.name, "bob");
    assert_eq!(u.service.as_deref(), Some("pppoe"));
    assert_eq!(u.caller_id, None);
    assert_eq!(u.address, "10.0.0.5");
    assert_eq!(u.uptime, "1m");
    assert_eq!(u.comment.as_deref(), Some("office"));
    assert_eq!(u.latency, None);
    assert!(u.is_active);
}

#[test]
fn identifiers_differ_between_sessions() {
    let a = VpnUser::new("a".to_string(), None, None, "1.2.3.4".to_string(), "1m".to_string(), None);
    let b = VpnUser::new("b".to_string(), None, None, "1.2.3.4".to_string(), "1m".to_string(), None);
    assert_ne!(a.id, b.id);
}

#[test]
fn latency_updates_in_place() {
    let mut u =
        VpnUser::new("a".to_string(), None, None, "1.2.3.4".to_string(), "1m".to_string(), None);
    u.update_latency(Some(12400));
    assert_eq!(u.latency, Some(12400));
    u.update_latency(None);
    assert_eq!(u.latency, None);
}

#[test]
fn a_session_can_be_marked_inactive() {
    let mut u =
        VpnUser::new("a".to_string(), None, None, "1.2.3.4".to_string(), "1m".to_string(), None);
    u.set_inactive();
    assert!(!u.is_active);
}

#[test]
fn auth_users() {
    let known = AuthUser::new("alice".to_string());
    assert_eq!(known.username, "alice");
    assert!(known.is_authenticated);
    let anon = AuthUser::anonymous();
    assert_eq!(anon.username, "anonymous");
    assert!(!anon.is_authenticated);
}

#[test]
fn latency_updates_carry_name_and_measurement() {
    let update = LatencyUpdate { user_name: "bob".to_string(), latency: Some(42) };
    let copy = update.clone();
    assert_eq!(copy.user_name, "bob");
    assert_eq!(copy.latency, Some(42));
}
