use infra::auth::{
    code_challenge, credentials_path, initial_interval, next_exchange_step, normalize_endpoint,
    random_token, validate_token, AuthError, ExchangeDecision, MAX_POLL_INTERVAL, VERIFIER_BYTES,
};

#[test]
fn requires_https_outside_localhost() {
    assert!(normalize_endpoint("https://bot.example").is_ok());
    assert!(normalize_endpoint("http://localhost:8787").is_ok());
    assert!(normalize_endpoint("http://127.0.0.1:8787").is_ok());
    assert!(normalize_endpoint("http://bot.example").is_err());
}

#[test]
fn challenge_is_sha256_base64url() {
    let verifier = random_token(VERIFIER_BYTES).unwrap();
    let challenge = code_challenge(&verifier);
    assert_eq!(challenge.len(), 43);
    assert!(!challenge.contains('='));
}

#[test]
fn challenge_of_a_known_verifier() {
    assert_eq!(code_challenge("abc"), "ungWv48Bz-pBQUDeXa4iI7ADYaOWF3qctBD_YfIAFa0");
    assert_ne!(code_challenge("abc"), "abc");
}

#[test]
fn random_tokens_are_url_safe_and_fresh() {
    let a = random_token(VERIFIER_BYTES).unwrap();
    let b = random_token(VERIFIER_BYTES).unwrap();
    assert_eq!(a.len(), 43);
    assert!(a.chars().all(|c| c.is_ascii_alphanumeric() || c == '-' || c == '_'));
    assert_ne!(a, b);
    assert_eq!(random_token(3).unwrap().len(), 4);
    assert_eq!(random_token(0).unwrap(), "");
}

#[test]
fn endpoints_are_trimmed_and_http_hosts_must_be_exactly_local() {
    assert_eq!(normalize_endpoint("  https://bot.example//  ").unwrap(), "https://bot.example");
    assert_eq!(normalize_endpoint("http://[::1]:8787/").unwrap(), "http://[::1]:8787");
    assert_eq!(normalize_endpoint("http://localhost").unwrap(), "http://localhost");
    assert_eq!(normalize_endpoint("http://localhost.example.com"), Err(AuthError::InsecureEndpoint));
    assert_eq!(normalize_endpoint("http://127.0.0.10"), Err(AuthError::InsecureEndpoint));
    assert_eq!(normalize_endpoint("http://localhost@evil.example"), Err(AuthError::InsecureEndpoint));
    assert_eq!(normalize_endpoint("   "), Err(AuthError::EndpointRequired));
    assert_eq!(normalize_endpoint("///"), Err(AuthError::EndpointRequired));
}

#[test]
fn exchange_poll_decisions() {
    assert_eq!(next_exchange_step(200, 3), ExchangeDecision::ReadToken);
    assert_eq!(next_exchange_step(202, 3), ExchangeDecision::Wait { interval: 3 });
    assert_eq!(next_exchange_step(429, 3), ExchangeDecision::Wait { interval: 5 });
    assert_eq!(next_exchange_step(429, 9), ExchangeDecision::Wait { interval: MAX_POLL_INTERVAL });
    assert_eq!(next_exchange_step(429, u64::MAX), ExchangeDecision::Wait { interval: MAX_POLL_INTERVAL });
    assert_eq!(next_exchange_step(202, u64::MAX), ExchangeDecision::Wait { interval: u64::MAX });
    assert_eq!(next_exchange_step(410, 3), ExchangeDecision::Fail(AuthError::Expired));
    assert_eq!(next_exchange_step(500, 3), ExchangeDecision::Fail(AuthError::Rejected));
    assert_eq!(initial_interval(0), 1);
    assert_eq!(initial_interval(5), 5);
}

#[test]
fn tokens_must_be_nonempty_bearer_tokens() {
    assert_eq!(validate_token("Bearer", "t"), Ok(()));
    assert_eq!(validate_token("bearer", "t"), Err(AuthError::InvalidToken));
    assert_eq!(validate_token("Bearer", ""), Err(AuthError::InvalidToken));
}

#[test]
fn credentials_path_precedence() {
    assert_eq!(
        credentials_path(Some("/run/c.json".into()), Some("/x".into()), Some("/h".into())).unwrap(),
        "/run/c.json"
    );
    assert_eq!(
        credentials_path(None, Some("/x".into()), Some("/h".into())).unwrap(),
        "/x/infra/credentials.json"
    );
    assert_eq!(
        credentials_path(None, None, Some("/home/u/".into())).unwrap(),
        "/home/u/.config/infra/credentials.json"
    );
    assert_eq!(credentials_path(None, None, None), Err(AuthError::NoCredentialsPath));
}
