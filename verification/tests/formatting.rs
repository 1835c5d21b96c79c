use mikriting::decimal::u64_to_string;
use mikriting::models::{AppConfig, DomainError, MikrotikConfig};

#[test]
fn renders_zero() {
    assert_eq!(u64_to_string(0), "0");
}

#[test]
fn renders_plain_numbers() {
    assert_eq!(u64_to_string(7), "7");
    assert_eq!(u64_to_string(42), "42");
    assert_eq!(u64_to_string(3217), "3217");
    assert_eq!(u64_to_string(1000000), "1000000");
}

#[test]
fn renders_largest_value() {
    assert_eq!(u64_to_string(u64::MAX), "18446744073709551615");
}

fn sample_config() -> MikrotikConfig {
    MikrotikConfig {
        protocol: "https".to_string(),
        address: "192.168.88.1".to_string(),
        port: 443,
        username: "admin".to_string(),
        password: "secret".to_string(),
        timeout_seconds: 10,
    }
}

#[test]
fn base_url_concatenates_parts() {
    assert_eq!(sample_config().base_url(), "https://192.168.88.1:443");
}

#[test]
fn app_config_default_values() {
    let c = AppConfig::default();
    assert_eq!(c.log_level, "info");
    assert_eq!(c.bind_address, "127.0.0.1");
    assert_eq!(c.bind_port, 3217);
    assert_eq!(c.static_files_path, "./asset");
    assert_eq!(c.session_secret, "change-me-in-production");
    assert_eq!(c.ping_interval_seconds, 2);
}

#[test]
fn error_messages_name_their_cause() {
    assert_eq!(
        DomainError::InvalidIpAddress("x.y".to_string()).message(),
        "Invalid IP address: x.y"
    );
    assert_eq!(DomainError::UserNotFound("bob".to_string()).message(), "User not found: bob");
    assert_eq!(DomainError::AuthenticationFailed.message(), "Authentication failed");
    assert_eq!(
        DomainError::ConfigurationError("bad".to_string()).message(),
        "Configuration error: bad"
    );
    assert_eq!(DomainError::NetworkError("down".to_string()).message(), "Network error: down");
    assert_eq!(
        DomainError::SerializationError("oops".to_string()).message(),
        "Serialization error: oops"
    );
}
