use gateway::config::{Config, ConfigError};

#[test]
fn test_default_test_config() {
    let config = Config::default_test_config();
    assert_eq!(config.server.port, 3001);
    assert_eq!(config.server.host, "127.0.0.1");
    assert_eq!(config.openai.api_key, "test_api_key");
    assert_eq!(config.jwt.expiration, 86400);
}

fn required() -> (Option<String>, Option<String>) {
    (Some("key".to_string()), Some("secret".to_string()))
}

#[test]
fn test_from_values_defaults() {
    let (api_key, secret) = required();
    let config = Config::from_values(
        None, None, api_key, None, None, secret, None, None, None, None,
    )
    .unwrap();
    assert_eq!(config.server.port, 3001);
    assert_eq!(config.server.host, "127.0.0.1");
    assert_eq!(config.openai.api_key, "key");
    assert_eq!(config.openai.base_url, "https://api.openai.com/v1");
    assert_eq!(config.openai.model, "gpt-3.5-turbo");
    assert_eq!(config.jwt.secret, "secret");
    assert_eq!(config.jwt.expiration, 86400);
    assert!(!config.cookie.secure);
    assert!(config.cookie.domain.is_none());
    assert_eq!(config.cookie.same_site, "None");
}

#[test]
fn test_from_values_parses_settings() {
    let (api_key, secret) = required();
    let config = Config::from_values(
        Some("3005".to_string()),
        Some("0.0.0.0".to_string()),
        api_key,
        Some("https://example.test/v1".to_string()),
        Some("gpt-4".to_string()),
        secret,
        Some("-10".to_string()),
        Some("true".to_string()),
        Some("example.test".to_string()),
        Some("Lax".to_string()),
    )
    .unwrap();
    assert_eq!(config.server.port, 3005);
    assert_eq!(config.server.host, "0.0.0.0");
    assert_eq!(config.jwt.expiration, -10);
    assert!(config.cookie.secure);
    assert_eq!(config.cookie.domain.as_deref(), Some("example.test"));
    assert_eq!(config.cookie.same_site, "Lax");
}

#[test]
fn test_from_values_missing_api_key() {
    let result =
        Config::from_values(None, None, None, None, None, Some("s".to_string()), None, None, None, None);
    match result {
        Err(ConfigError::EnvVarMissing(name)) => assert_eq!(name, "OPENAI_API_KEY"),
        _ => panic!("expected the missing provider key to be reported"),
    }
}

#[test]
fn test_from_values_missing_secret() {
    let result =
        Config::from_values(None, None, Some("k".to_string()), None, None, None, None, None, None, None);
    match result {
        Err(ConfigError::EnvVarMissing(name)) => assert_eq!(name, "JWT_SECRET"),
        _ => panic!("expected the missing secret to be reported"),
    }
}

#[test]
fn test_from_values_invalid_port() {
    let (api_key, secret) = required();
    let result = Config::from_values(
        Some("70000".to_string()),
        None,
        api_key,
        None,
        None,
        secret,
        None,
        None,
        None,
        None,
    );
    match result {
        Err(ConfigError::EnvVarInvalid(name, _)) => assert_eq!(name, "SERVER_PORT"),
        _ => panic!("expected the port to be refused"),
    }
}

#[test]
fn test_from_values_invalid_expiration() {
    let (api_key, secret) = required();
    let result = Config::from_values(
        None,
        None,
        api_key,
        None,
        None,
        secret,
        Some("soon".to_string()),
        None,
        None,
        None,
    );
    match result {
        Err(ConfigError::EnvVarInvalid(name, _)) => assert_eq!(name, "JWT_EXPIRATION"),
        _ => panic!("expected the lifetime to be refused"),
    }
}

#[test]
fn test_from_values_invalid_secure_flag() {
    let (api_key, secret) = required();
    let result = Config::from_values(
        None,
        None,
        api_key,
        None,
        None,
        secret,
        None,
        Some("yes".to_string()),
        None,
        None,
    );
    match result {
        Err(ConfigError::EnvVarInvalid(name, _)) => assert_eq!(name, "COOKIE_SECURE"),
        _ => panic!("expected the flag to be refused"),
    }
}

#[test]
fn test_from_values_invalid_same_site() {
    let (api_key, secret) = required();
    let result = Config::from_values(
        None,
        None,
        api_key,
        None,
        None,
        secret,
        None,
        None,
        None,
        Some("Sideways".to_string()),
    );
    match result {
        Err(ConfigError::EnvVarInvalid(name, message)) => {
            assert_eq!(name, "COOKIE_SAME_SITE");
            assert!(message.contains("Strict"));
        }
        _ => panic!("expected the SameSite value to be refused"),
    }
}

#[test]
fn test_from_values_port_overflow() {
    let (api_key, secret) = required();
    let result = Config::from_values(
        Some("99999999999999999999".to_string()),
        None,
        api_key,
        None,
        None,
        secret,
        None,
        None,
        None,
        None,
    );
    match result {
        Err(ConfigError::EnvVarInvalid(name, _)) => assert_eq!(name, "SERVER_PORT"),
        _ => panic!("expected the oversized port to be refused"),
    }
}

#[test]
fn test_from_values_expiration_extremes() {
    let (api_key, secret) = required();
    let config = Config::from_values(
        None,
        None,
        api_key.clone(),
        None,
        None,
        secret.clone(),
        Some("+123".to_string()),
        None,
        None,
        None,
    )
    .unwrap();
    assert_eq!(config.jwt.expiration, 123);

    let config = Config::from_values(
        None,
        None,
        api_key.clone(),
        None,
        None,
        secret.clone(),
        Some("-9223372036854775808".to_string()),
        None,
        None,
        None,
    )
    .unwrap();
    assert_eq!(config.jwt.expiration, i64::MIN);

    let result = Config::from_values(
        None,
        None,
        api_key,
        None,
        None,
        secret,
        Some("9223372036854775808".to_string()),
        None,
        None,
        None,
    );
    match result {
        Err(ConfigError::EnvVarInvalid(name, _)) => assert_eq!(name, "JWT_EXPIRATION"),
        _ => panic!("expected the oversized lifetime to be refused"),
    }
}
