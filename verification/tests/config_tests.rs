use xzardgz::config::Config;

#[test]
fn test_default_config() {
    let config = Config::default();
    assert_eq!(config.provider.provider_type, "ollama");
    assert_eq!(config.agent.max_turns, 10);
}
