use xzardgz::error::{ConfigError, ProviderError, WorkflowError, XzardgzError};

#[test]
fn test_error_conversion() {
    let config_err = ConfigError::Load("test failure".to_string());
    let app_err: XzardgzError = config_err.into();

    match app_err {
        XzardgzError::Config(ConfigError::Load(msg)) => assert_eq!(msg, "test failure"),
        _ => panic!("Wrong error type"),
    }
}

#[test]
fn test_error_display() {
    let err = ConfigError::Validation("invalid field".to_string());
    assert_eq!(err.message(), "Validation error: invalid field");

    let app_err: XzardgzError = err.into();
    assert_eq!(
        app_err.message(),
        "Configuration error: Validation error: invalid field"
    );
}

#[test]
fn test_error_messages_by_variant() {
    assert_eq!(
        XzardgzError::Provider(ProviderError::Network("down".to_string())).message(),
        "Provider error: Network error: down"
    );
    assert_eq!(
        XzardgzError::Workflow(WorkflowError::Parse("bad".to_string())).message(),
        "Workflow error: Plan parsing failed: bad"
    );
    assert_eq!(
        XzardgzError::Io("gone".to_string()).message(),
        "IO error: gone"
    );
}
