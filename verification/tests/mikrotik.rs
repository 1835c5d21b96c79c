use mikriting::mikrotik::{
    classify_response, interpret_disconnect_outcome, users_from_responses, MikrotikApiMethod,
    MikrotikApiPath, MikrotikApiRequest, MikrotikError, MikrotikPppActiveResponse,
};
use mikriting::models::DomainError;

#[test]
fn paths_render_as_rest_endpoints() {
    assert_eq!(MikrotikApiPath::PppActive.to_path(), "/rest/ppp/active");
    assert_eq!(
        MikrotikApiPath::PppActiveById("*81".to_string()).to_path(),
        "/rest/ppp/active/*81"
    );
    assert_eq!(MikrotikApiPath::PppSecrets.to_path(), "/rest/ppp/secret");
    assert_eq!(MikrotikApiPath::PppSecretById("7".to_string()).to_path(), "/rest/ppp/secret/7");
    assert_eq!(MikrotikApiPath::InterfaceMonitor.to_path(), "/rest/interface/monitor-traffic");
}

#[test]
fn url_without_parameters_has_no_query() {
    let request = MikrotikApiRequest::new(MikrotikApiPath::PppActive, MikrotikApiMethod::Get);
    assert_eq!(request.build_url("http://router:80"), "http://router:80/rest/ppp/active");
}

#[test]
fn url_joins_parameters_with_ampersands() {
    let request = MikrotikApiRequest::new(MikrotikApiPath::PppActive, MikrotikApiMethod::Get)
        .with_query_param("a".to_string(), "1".to_string())
        .with_query_param("b".to_string(), "2".to_string());
    assert_eq!(request.build_url("http://r"), "http://r/rest/ppp/active?a=1&b=2");
}

#[test]
fn listing_request_asks_for_the_session_fields() {
    let request = MikrotikApiRequest::get_active_connections();
    assert!(matches!(request.method, MikrotikApiMethod::Get));
    assert_eq!(
        request.build_url("https://gw:443"),
        "https://gw:443/rest/ppp/active?.proplist=name,service,caller-id,address,uptime,comment"
    );
}

#[test]
fn disconnect_request_names_the_session() {
    let request = MikrotikApiRequest::disconnect_user("bob");
    assert!(matches!(request.method, MikrotikApiMethod::Delete));
    assert_eq!(request.build_url("http://r"), "http://r/rest/ppp/active?name=bob");
}

#[test]
fn lookup_request_names_the_session() {
    let request = MikrotikApiRequest::get_user_details("bob");
    assert!(matches!(request.method, MikrotikApiMethod::Get));
    assert_eq!(request.build_url("http://r"), "http://r/rest/ppp/active?name=bob");
}

#[test]
fn a_body_can_be_attached() {
    let request = MikrotikApiRequest::new(MikrotikApiPath::PppActive, MikrotikApiMethod::Post);
    assert!(request.body.is_none());
    let request = request.with_body(serde_json::Value::Null);
    assert!(request.body.is_some());
}

#[test]
fn success_statuses_are_success() {
    assert!(classify_response(200, String::new()).is_ok());
    assert!(classify_response(204, String::new()).is_ok());
    assert!(classify_response(299, String::new()).is_ok());
}

#[test]
fn unauthorized_is_the_authentication_error() {
    assert!(matches!(
        classify_response(401, "ignored".to_string()),
        Err(MikrotikError::AuthenticationError)
    ));
}

#[test]
fn other_statuses_carry_status_and_body() {
    let r = classify_response(500, "boom".to_string());
    assert!(matches!(r, Err(MikrotikError::ApiError(m)) if m == "HTTP 500: boom"));
    let r = classify_response(404, "no such item".to_string());
    assert!(matches!(r, Err(MikrotikError::ApiError(m)) if m == "HTTP 404: no such item"));
}

#[test]
fn device_errors_translate_to_domain_errors() {
    assert_eq!(
        MikrotikError::HttpError("down".to_string()).to_domain_error(),
        DomainError::NetworkError("down".to_string())
    );
    assert_eq!(
        MikrotikError::AuthenticationError.to_domain_error(),
        DomainError::AuthenticationFailed
    );
    assert_eq!(
        MikrotikError::ApiError("HTTP 500: x".to_string()).to_domain_error(),
        DomainError::NetworkError("HTTP 500: x".to_string())
    );
    assert_eq!(
        MikrotikError::SerializationError("bad json".to_string()).to_domain_error(),
        DomainError::SerializationError("bad json".to_string())
    );
    assert_eq!(
        MikrotikError::UserNotFound("bob".to_string()).to_domain_error(),
        DomainError::UserNotFound("bob".to_string())
    );
    assert_eq!(
        MikrotikError::Timeout.to_domain_error(),
        DomainError::NetworkError("Request timeout".to_string())
    );
}

#[test]
fn disconnect_outcome_maps_unknown_session_to_the_asked_name() {
    let outcome = Err(MikrotikError::UserNotFound("whatever the device said".to_string()));
    let r = interpret_disconnect_outcome("bob", outcome);
    assert!(matches!(r, Err(DomainError::UserNotFound(n)) if n == "bob"));
}

#[test]
fn disconnect_outcome_passes_success_and_other_errors_through() {
    assert!(interpret_disconnect_outcome("bob", Ok(())).is_ok());
    let r = interpret_disconnect_outcome("bob", Err(MikrotikError::Timeout));
    assert!(matches!(r, Err(DomainError::NetworkError(m)) if m == "Request timeout"));
}

#[test]
fn fetched_records_become_fresh_sessions() {
    let records = vec![
        MikrotikPppActiveResponse {
            id: "*1".to_string(),
            name: "bob".to_string(),
            service: Some("pppoe".to_string()),
            caller_id: Some("00:11:22:33:44:55".to_string()),
            address: "10.0.0.5".to_string(),
            uptime: "1h2m".to_string(),
            comment: Some("office".to_string()),
        },
        MikrotikPppActiveResponse {
            id: "*2".to_string(),
            name: "eve".to_string(),
            service: None,
            caller_id: None,
            address: "10.0.0.6".to_string(),
            uptime: "3m".to_string(),
            comment: None,
        },
    ];
    let users = users_from_responses(records);
    assert_eq!(users.len(), 2);
    assert_eq!(users[0].name, "bob");
    assert_eq!(users[0].service.as_deref(), Some("pppoe"));
    assert_eq!(users[0].address, "10.0.0.5");
    assert_eq!(users[0].uptime, "1h2m");
    assert_eq!(users[0].comment.as_deref(), Some("office"));
    assert_eq!(users[0].latency, None);
    assert!(users[0].is_active);
    // the identifier is freshly drawn, in the 36-character UUID spelling
    assert_eq!(users[0].id.len(), 36);
    assert_ne!(users[0].id, "*1");
    assert_eq!(users[1].name, "eve");
    assert_eq!(users[1].service, None);
}
