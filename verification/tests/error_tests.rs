use gateway::config::ConfigError;
use gateway::error::AppError;

// Utility function to convert any error to an AppError::Internal for testing
fn internal_error<E>(err: E) -> AppError
where
    E: std::error::Error,
{
    AppError::Internal(err.to_string())
}

#[test]
fn test_app_error_status_codes() {
    assert_eq!(AppError::Auth("test".to_string()).status_code(), 401);
    assert_eq!(AppError::BadRequest("test".to_string()).status_code(), 400);
    assert_eq!(AppError::NotFound("test".to_string()).status_code(), 404);
    assert_eq!(AppError::Internal("test".to_string()).status_code(), 500);
    assert_eq!(AppError::OpenAI("test".to_string()).status_code(), 502);
    assert_eq!(
        AppError::Config(ConfigError::EnvVarMissing("test".to_string())).status_code(),
        500
    );
    assert_eq!(AppError::Jwt("test".to_string()).status_code(), 401);
}

#[test]
fn test_internal_error_conversion() {
    let std_error = std::io::Error::new(std::io::ErrorKind::Other, "test error");
    let app_error = internal_error(std_error);

    match app_error {
        AppError::Internal(msg) => assert!(msg.contains("test error")),
        _ => panic!("Expected Internal error variant"),
    }
}
