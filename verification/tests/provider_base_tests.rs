use xzardgz::providers::factory::ProviderFactory;
use xzardgz::providers::{Message, Role};

#[test]
fn test_message_creation() {
    let msg = Message::user("hello");
    assert_eq!(msg.role, Role::User);
    assert_eq!(msg.content, "hello");

    let msg = Message::system("sys");
    assert_eq!(msg.role, Role::System);
    assert_eq!(msg.content, "sys");

    let msg = Message::assistant("hi");
    assert_eq!(msg.role, Role::Assistant);
    assert_eq!(msg.content, "hi");
}

#[test]
fn test_factory_resolves_models() {
    assert_eq!(
        ProviderFactory::resolve_model("ollama", None).unwrap(),
        "qwen2.5-coder"
    );
    assert_eq!(
        ProviderFactory::resolve_model("copilot", Some("gpt-4o".to_string())).unwrap(),
        "gpt-4o"
    );
    assert_eq!(
        ProviderFactory::resolve_model("other", None).unwrap_err().message(),
        "Authentication failed: Unknown provider: other"
    );
}
