use mikriting::auth::{content_is_checkable, AuthRepository, HtpasswdAuthRepository};
use mikriting::config::{
    default_bind_address, default_bind_port, default_log_level, default_ping_interval,
    default_session_secret, default_static_files_path, default_timeout, ConfigService,
    FileConfigService,
};
use mikriting::models::{AppConfig, DomainError, MikrotikConfig};
use mikriting::usecase::AuthUseCase;

// Credential entries with known passwords: apr1, sha1 and plain crypt.
const HTPASSWD: &str = "user2:$apr1$7/CTEZag$omWmIgXPJYoxB3joyuq4S/\n\
user:$apr1$lZL6V/ci$eIMz/iKDkbtys/uU7LEK00\n\
sha1_test:{SHA}W6ph5Mm5Pz8GgiULbPgzG37mj9g=\n\
crypt_test:bGVh02xkuGli2";

fn repository() -> HtpasswdAuthRepository {
    HtpasswdAuthRepository::new(HTPASSWD.to_string())
}

#[test]
fn accepts_the_right_password() {
    let auth = AuthUseCase::new(repository());
    let user = auth.authenticate("user", "password").unwrap();
    assert_eq!(user.username, "user");
    assert!(user.is_authenticated);
}

#[test]
fn rejects_a_wrong_password() {
    let auth = AuthUseCase::new(repository());
    let r = auth.authenticate("user", "passwort");
    assert!(matches!(r, Err(DomainError::AuthenticationFailed)));
}

#[test]
fn rejects_an_unknown_user() {
    let auth = AuthUseCase::new(repository());
    let r = auth.authenticate("nobody", "password");
    assert!(matches!(r, Err(DomainError::AuthenticationFailed)));
}

#[test]
fn sha_and_crypt_entries_check_too() {
    let auth = AuthUseCase::new(repository());
    assert!(auth.authenticate("sha1_test", "password").is_ok());
    assert!(auth.authenticate("crypt_test", "password").is_ok());
    assert!(auth.authenticate("sha1_test", "wrong").is_err());
}

#[test]
fn knows_its_users_without_a_password() {
    let auth = AuthUseCase::new(repository());
    assert!(auth.get_user_by_username("user").unwrap().is_some());
    assert!(auth.get_user_by_username("user2").unwrap().is_some());
    assert!(auth.get_user_by_username("use").unwrap().is_none());
    assert!(auth.get_user_by_username("nobody").unwrap().is_none());
}

#[test]
fn content_the_checker_cannot_digest_fails_closed() {
    // a bcrypt entry: its malformed forms would make the checker panic,
    // so such content is refused wholesale
    let content = "bcrypt_test:$2y$05$nC6nErr9XZJuMJ57WyCob.EuZEjylDt2KaHfbfOtyb.EgL1I2jCVa";
    assert!(!content_is_checkable(content));
    let auth = AuthUseCase::new(HtpasswdAuthRepository::new(content.to_string()));
    let r = auth.authenticate("bcrypt_test", "password");
    assert!(matches!(r, Err(DomainError::AuthenticationFailed)));
}

#[test]
fn truncated_apr1_entries_are_refused() {
    assert!(content_is_checkable("user:$apr1$lZL6V/ci$eIMz/iKDkbtys/uU7LEK00"));
    assert!(!content_is_checkable("user:$apr1$cut"));
    assert!(!content_is_checkable("ok:x\nuser:$apr1$cut\nalso:y"));
    assert!(content_is_checkable("no colon at all"));
    assert!(content_is_checkable(""));
}

#[test]
fn configuration_defaults() {
    assert_eq!(default_log_level(), "info");
    assert_eq!(default_bind_address(), "127.0.0.1");
    assert_eq!(default_bind_port(), 3217);
    assert_eq!(default_static_files_path(), "./asset");
    assert_eq!(default_session_secret(), "change-me-in-production");
    assert_eq!(default_ping_interval(), 2);
    assert_eq!(default_timeout(), 10);
}

#[test]
fn config_service_hands_back_what_it_was_given() {
    let mikrotik = MikrotikConfig {
        protocol: "http".to_string(),
        address: "10.0.0.1".to_string(),
        port: 8080,
        username: "admin".to_string(),
        password: "pw".to_string(),
        timeout_seconds: 10,
    };
    let app = AppConfig::default();
    let service = FileConfigService::new(mikrotik.clone(), app.clone());
    assert_eq!(service.get_mikrotik_config().unwrap(), mikrotik);
    assert_eq!(service.get_app_config().unwrap(), app);
}
