use xzardgz::agent::context::ConversationContext;
use xzardgz::agent::message::Message;

#[test]
fn test_context_management() {
    let mut ctx = ConversationContext::new("You are a bot".to_string(), 100);

    ctx.add_message(Message::user("Hello"));
    assert_eq!(ctx.get_messages().len(), 1);

    ctx.add_message(Message::assistant("Hi there"));
    assert_eq!(ctx.get_messages().len(), 2);

    ctx.clear();
    assert_eq!(ctx.get_messages().len(), 0);
}

#[test]
fn test_compaction() {
    // 5 tokens max; one token is roughly four characters.
    let mut ctx = ConversationContext::new("System".to_string(), 5);

    // A long message: forty characters, about ten tokens.
    let long_msg = "a".repeat(40);
    ctx.add_message(Message::user(&long_msg));

    assert!(ctx.current_tokens() > 5);

    let compacted = ctx.compact_if_needed().unwrap();
    assert!(compacted);
    assert_eq!(ctx.get_messages().len(), 0);
}

#[test]
fn test_compaction_within_budget_changes_nothing() {
    let mut ctx = ConversationContext::new("System".to_string(), 100);
    ctx.add_message(Message::user("short"));
    ctx.add_message(Message::assistant("also short"));
    let before: Vec<String> = ctx.get_messages().iter().map(|m| m.content.clone()).collect();

    let compacted = ctx.compact_if_needed().unwrap();
    assert!(!compacted);
    let after: Vec<String> = ctx.get_messages().iter().map(|m| m.content.clone()).collect();
    assert_eq!(before, after);
}

#[test]
fn test_compaction_over_budget_converges() {
    let mut ctx = ConversationContext::new("System".to_string(), 3);
    ctx.add_message(Message::user(&"x".repeat(8)));
    ctx.add_message(Message::assistant(&"y".repeat(12)));
    let count_before = ctx.get_messages().len();
    assert!(ctx.current_tokens() > 3);

    let compacted = ctx.compact_if_needed().unwrap();
    assert!(compacted);
    assert!(ctx.get_messages().len() < count_before);
    assert!(ctx.current_tokens() <= 3 || ctx.get_messages().is_empty());
    // The oldest message goes first: the newer one survives here.
    assert_eq!(ctx.get_messages().len(), 1);
    assert_eq!(ctx.get_messages()[0].content, "y".repeat(12));
}

#[test]
fn test_current_tokens_counts_characters_by_four() {
    let mut ctx = ConversationContext::new("S".to_string(), 100);
    ctx.add_message(Message::user("abcdefgh"));
    ctx.add_message(Message::assistant("ij"));
    // Ten characters in all make two tokens, rounding down.
    assert_eq!(ctx.current_tokens(), 2);
}
