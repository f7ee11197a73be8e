use axum::http::HeaderValue;
use proxy_carousel::authorization::AuthorizationError;
use proxy_carousel::config::Config;
use proxy_carousel::key_manager::KeyManager;
use proxy_carousel::relay::RelayMode;
use proxy_carousel::state::State;

fn config(host: &str, api: &[&str], access: &[&str]) -> Config {
    Config {
        version: "1".to_string(),
        port: 8080,
        host: host.to_string(),
        base_url: "http://up/v1".to_string(),
        api_keys: api.iter().map(|k| k.to_string()).collect(),
        access_keys: access.iter().map(|k| k.to_string()).collect(),
        log_level: None,
        acivity_logging_path: None,
    }
}

fn state(host: &str, api: &[&str], access: &[&str]) -> State {
    let c = config(host, api, access);
    let km = KeyManager::new(c.api_keys.clone());
    State::new(c, km)
}

#[test]
fn state_rotates_on_rate_limit_only() {
    let s = state("127.0.0.1", &["k0", "k1"], &[]);
    assert_eq!(s.current_key(), "k0");
    s.observe(200, vec![]);
    assert_eq!(s.current_key(), "k0");
    let plan = s.observe(429, vec![]);
    assert_eq!(plan.status, 429);
    assert_eq!(plan.mode, RelayMode::Buffered);
    assert_eq!(s.current_key(), "k1");
    s.switch_key();
    assert_eq!(s.current_key(), "k0");
}

#[test]
fn state_forwards_with_current_key() {
    let s = state("127.0.0.1", &["k0", "k1"], &[]);
    s.switch_key();
    let call = s.forward(&vec![("host".to_string(), b"me".to_vec())], b"{}".to_vec());
    assert_eq!(call.url, "http://up/v1/chat/completions");
    assert_eq!(call.headers, vec![("authorization".to_string(), b"Bearer k1".to_vec())]);
    assert_eq!(call.body, b"{}".to_vec());
}

#[test]
fn state_guard_uses_configuration() {
    let public = state("0.0.0.0", &["k0"], &["abc"]);
    let good = HeaderValue::from_static("Bearer abc");
    let bad = HeaderValue::from_static("Token abc");
    assert_eq!(public.authorize(Some(good.as_bytes())), Ok(()));
    assert_eq!(public.authorize(Some(bad.as_bytes())), Err(AuthorizationError::InvalidAuthorizationScheme));
    assert_eq!(public.authorize(None), Err(AuthorizationError::MissingAuthorizationHeader));
    let local = state("127.0.0.1", &["k0"], &["abc"]);
    assert_eq!(local.authorize(None), Ok(()));
    assert_eq!(local.config().port, 8080);
}

#[test]
fn many_advances_are_all_counted() {
    let s = state("127.0.0.1", &["k0", "k1", "k2", "k3", "k4"], &[]);
    for _ in 0..13 {
        s.switch_key();
    }
    assert_eq!(s.current_key(), "k3");
}
