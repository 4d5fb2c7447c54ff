use xzardgz::xzepr::consumer::{
    KafkaConsumerConfig, SaslMechanism, SecurityProtocol, XzeprClientConfig,
};

#[test]
fn test_consumer_config_defaults_and_builders() {
    let config = KafkaConsumerConfig::new("localhost:9092", "xzepr.dev.events", "svc");
    assert_eq!(config.brokers, "localhost:9092");
    assert_eq!(config.topic, "xzepr.dev.events");
    assert_eq!(config.group_id, "xzepr-consumer-svc");
    assert_eq!(config.auto_offset_reset, "earliest");
    assert!(config.enable_auto_commit);
    assert_eq!(config.session_timeout_secs, 30);
    assert!(matches!(config.security_protocol, SecurityProtocol::Plaintext));

    let config = config.with_group_id("my-group");
    assert_eq!(config.group_id, "my-group");

    let config = config.with_sasl_scram_sha256("user", "pass");
    assert!(matches!(config.security_protocol, SecurityProtocol::SaslSsl));
    let sasl = config.sasl_config.as_ref().unwrap();
    assert!(matches!(sasl.mechanism, SaslMechanism::ScramSha256));
    assert_eq!(sasl.username, "user");
    assert_eq!(sasl.password, "pass");

    let config = config.with_ssl("/etc/ca.pem");
    let ssl = config.ssl_config.as_ref().unwrap();
    assert_eq!(ssl.ca_location.as_deref(), Some("/etc/ca.pem"));
    assert!(ssl.certificate_location.is_none());
}

#[test]
fn test_protocol_and_mechanism_names() {
    assert_eq!(SecurityProtocol::Plaintext.as_str(), "PLAINTEXT");
    assert_eq!(SecurityProtocol::Ssl.as_str(), "SSL");
    assert_eq!(SecurityProtocol::SaslPlaintext.as_str(), "SASL_PLAINTEXT");
    assert_eq!(SecurityProtocol::SaslSsl.as_str(), "SASL_SSL");
    assert_eq!(SaslMechanism::Plain.as_str(), "PLAIN");
    assert_eq!(SaslMechanism::ScramSha256.as_str(), "SCRAM-SHA-256");
    assert_eq!(SaslMechanism::ScramSha512.as_str(), "SCRAM-SHA-512");
}

#[test]
fn test_client_config_holds_connection_settings() {
    let config = XzeprClientConfig {
        base_url: "http://test.api".to_string(),
        token: "SECRET-REDACTED".to_string(),
        timeout_secs: 30,
    };
    assert_eq!(config.base_url, "http://test.api");
    assert_eq!(config.timeout_secs, 30);
}
