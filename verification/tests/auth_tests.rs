use gateway::auth::{
    authenticate, extract_token_from_cookies, generate_token, login, validate_token, AuthOutcome,
    AuthRejection,
};
use gateway::config::Config;
use gateway::error::AppError;
use gateway::models::{Credentials, LoginRequest};

fn test_credentials() -> Credentials {
    Credentials {
        username: "neo".to_string(),
        password: "script-chairman-fondly-yippee".to_string(),
    }
}

#[test]
fn test_token_generation_and_validation() {
    let config = Config::default_test_config();
    let username = "test-user";

    let (token, _) = generate_token(username, &config).unwrap();
    let claims = validate_token(&token, &config).unwrap();

    assert_eq!(claims.sub, username);
}

#[test]
fn test_token_expiration() {
    let mut config = Config::default_test_config();
    config.jwt.expiration = -10; // Set expiration to the past

    let username = "test-user";
    let (token, _) = generate_token(username, &config).unwrap();

    // Token should be expired
    let now = chrono::Utc::now().timestamp();
    let claims = validate_token(&token, &config).unwrap();
    assert!(claims.exp < now);
}

#[test]
fn test_issued_claims_round_trip() {
    let config = Config::default_test_config();
    let (token, expires_at) = generate_token("neo", &config).unwrap();
    let claims = validate_token(&token, &config).unwrap();
    assert_eq!(claims.sub, "neo");
    assert_eq!(claims.exp, expires_at);
    assert_eq!(claims.exp, claims.iat + 86400);
}

#[test]
fn test_validate_rejects_garbage_token() {
    let config = Config::default_test_config();
    let result = validate_token("not-a-token", &config);
    assert!(matches!(result, Err(AppError::Jwt(_))));
}

#[test]
fn test_validate_rejects_foreign_secret() {
    let config = Config::default_test_config();
    let mut other = Config::default_test_config();
    other.jwt.secret = "a-different-secret-entirely".to_string();
    let (token, _) = generate_token("neo", &other).unwrap();
    assert!(matches!(
        validate_token(&token, &config),
        Err(AppError::Jwt(_))
    ));
}

#[test]
fn test_gate_admits_all_three_carriers() {
    let config = Config::default_test_config();
    let (token, _) = generate_token("neo", &config).unwrap();
    let now = chrono::Utc::now().timestamp();

    let via_bearer = authenticate(Some(token.clone()), None, None, &config, now);
    let via_cookie = authenticate(None, Some(token.clone()), None, &config, now);
    let raw = format!("session=1; auth_token={}; theme=dark", token);
    let via_raw = authenticate(None, None, Some(raw), &config, now);

    for outcome in [via_bearer, via_cookie, via_raw] {
        match outcome {
            AuthOutcome::Admit(subject) => assert_eq!(subject, "neo"),
            AuthOutcome::Reject(_) => panic!("expected the middleware to admit"),
        }
    }
}

#[test]
fn test_gate_rejects_without_any_token() {
    let config = Config::default_test_config();
    let now = chrono::Utc::now().timestamp();

    let none_at_all = authenticate(None, None, None, &config, now);
    assert!(matches!(
        none_at_all,
        AuthOutcome::Reject(AuthRejection::AuthenticationRequired)
    ));

    let raw_without_entry = authenticate(
        None,
        None,
        Some("session=1; theme=dark".to_string()),
        &config,
        now,
    );
    assert!(matches!(
        raw_without_entry,
        AuthOutcome::Reject(AuthRejection::AuthenticationRequired)
    ));
}

#[test]
fn test_gate_rejects_invalid_token() {
    let config = Config::default_test_config();
    let now = chrono::Utc::now().timestamp();
    let outcome = authenticate(Some("garbage".to_string()), None, None, &config, now);
    assert!(matches!(
        outcome,
        AuthOutcome::Reject(AuthRejection::InvalidToken)
    ));
}

#[test]
fn test_gate_rejects_expired_token() {
    let mut config = Config::default_test_config();
    config.jwt.expiration = -10;
    let (token, _) = generate_token("neo", &config).unwrap();
    let now = chrono::Utc::now().timestamp();
    let outcome = authenticate(Some(token), None, None, &config, now);
    assert!(matches!(
        outcome,
        AuthOutcome::Reject(AuthRejection::TokenExpired)
    ));
}

#[test]
fn test_login_success_is_admitted_by_gate() {
    let config = Config::default_test_config();
    let credentials = test_credentials();
    let request = LoginRequest {
        username: "neo".to_string(),
        password: "script-chairman-fondly-yippee".to_string(),
    };
    let response = login(&request, &credentials, &config).unwrap();
    let now = chrono::Utc::now().timestamp();
    let outcome = authenticate(Some(response.token), None, None, &config, now);
    match outcome {
        AuthOutcome::Admit(subject) => assert_eq!(subject, "neo"),
        AuthOutcome::Reject(_) => panic!("expected a fresh login token to be admitted"),
    }
}

#[test]
fn test_login_failures_are_indistinguishable() {
    let config = Config::default_test_config();
    let credentials = test_credentials();

    let bad_password = LoginRequest {
        username: "neo".to_string(),
        password: "wrong".to_string(),
    };
    let unknown_user = LoginRequest {
        username: "smith".to_string(),
        password: "script-chairman-fondly-yippee".to_string(),
    };

    let e1 = login(&bad_password, &credentials, &config).unwrap_err();
    let e2 = login(&unknown_user, &credentials, &config).unwrap_err();

    let (m1, s1) = match &e1 {
        AppError::Auth(m) => (m.clone(), e1.status_code()),
        _ => panic!("expected an authentication error"),
    };
    let (m2, s2) = match &e2 {
        AppError::Auth(m) => (m.clone(), e2.status_code()),
        _ => panic!("expected an authentication error"),
    };
    assert_eq!(m1, m2);
    assert_eq!(m1, "Invalid username or password");
    assert_eq!(s1, s2);
    assert_eq!(s1, 401);
}

#[test]
fn test_extract_token_from_cookies_variants() {
    assert_eq!(
        extract_token_from_cookies("auth_token=abc"),
        Some("abc".to_string())
    );
    assert_eq!(
        extract_token_from_cookies("session=1;  auth_token=xyz ; theme=dark"),
        Some("xyz".to_string())
    );
    assert_eq!(
        extract_token_from_cookies("session=1; auth_token=first; auth_token=second"),
        Some("first".to_string())
    );
    assert_eq!(extract_token_from_cookies("session=1; theme=dark"), None);
    assert_eq!(extract_token_from_cookies(""), None);
    // The entry name must start its segment; a longer name does not match.
    assert_eq!(extract_token_from_cookies("xauth_token=abc"), None);
}
