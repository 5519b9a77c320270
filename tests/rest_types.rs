use smartc::rest::{ice_servers_or_fallback, is_success, status_error, SmaRTCClient};
use smartc::{Config, ICEServer, SmaRTCError};
use std::time::Duration;

#[test]
fn test_config_default() {
    let config = Config::default();
    assert_eq!(config.api_base_url, "http://localhost:8080");
    assert_eq!(config.timeout, Duration::from_secs(10));
}

#[test]
fn test_client_creation() {
    let client = SmaRTCClient::new(None);
    assert!(!client.is_logged_in());
    assert_eq!(client.current_username(), None);
}

#[test]
fn custom_config_is_kept() {
    let config = Config {
        api_base_url: "http://api".to_string(),
        signal_server_url: "http://hub".to_string(),
        timeout: Duration::from_secs(3),
        enable_logs: true,
    };
    let client = SmaRTCClient::new(Some(config));
    assert_eq!(client.config().api_base_url, "http://api");
    assert_eq!(client.config().timeout, Duration::from_secs(3));
}

#[test]
fn login_then_logout_state() {
    let mut client = SmaRTCClient::new(None);
    client.record_login("tok".to_string(), "alice".to_string());
    client.record_session("s1".to_string());
    assert!(client.is_logged_in());
    assert_eq!(client.current_username(), Some("alice"));
    assert_eq!(client.token(), Some("tok"));
    assert_eq!(client.current_session_id(), Some("s1"));
    assert_eq!(client.end_call_path().unwrap(), "/api/session/s1");
    client.clear_session();
    assert_eq!(client.current_session_id(), None);
    assert!(client.is_logged_in());
    client.clear_login();
    assert!(!client.is_logged_in());
    assert_eq!(client.current_username(), None);
}

#[test]
fn end_call_without_call_is_an_error() {
    let client = SmaRTCClient::new(None);
    match client.end_call_path() {
        Err(SmaRTCError::Generic(m)) => assert_eq!(m, "Aucun appel en cours"),
        other => panic!("unexpected {:?}", other),
    }
}

#[test]
fn status_codes_map_to_errors() {
    assert!(matches!(status_error(401, "401 Unauthorized", ""), SmaRTCError::Authentication));
    assert!(matches!(status_error(404, "404 Not Found", ""), SmaRTCError::SessionNotFound));
    match status_error(500, "500 Internal Server Error", "boom") {
        SmaRTCError::Generic(m) => assert_eq!(m, "HTTP 500 Internal Server Error : boom"),
        other => panic!("unexpected {:?}", other),
    }
    assert!(is_success(200));
    assert!(is_success(204));
    assert!(!is_success(301));
    assert!(!is_success(404));
}

#[test]
fn error_messages() {
    assert_eq!(SmaRTCError::Authentication.message(), "Identifiants incorrects");
    assert_eq!(SmaRTCError::SessionNotFound.message(), "Cet appel n'existe pas");
    assert_eq!(SmaRTCError::Network("x".to_string()).message(), "Problème de connexion : x");
    assert_eq!(SmaRTCError::Generic("y".to_string()).message(), "Erreur : y");
}

#[test]
fn ice_fallback_only_on_error() {
    let fetched = vec![ICEServer { urls: vec!["turn:t".to_string()], username: None, credential: None }];
    let kept = ice_servers_or_fallback(Ok(fetched));
    assert_eq!(kept[0].urls, vec!["turn:t".to_string()]);
    let fallback = ice_servers_or_fallback(Err(SmaRTCError::Network("down".to_string())));
    assert_eq!(fallback.len(), 1);
    assert_eq!(fallback[0].urls, vec!["stun:stun.l.google.com:19302".to_string()]);
}

#[test]
fn endpoint_joins_base_and_path() {
    let config = Config::default();
    assert_eq!(smartc::rest::endpoint(&config, "/api/session"), "http://localhost:8080/api/session");
}
