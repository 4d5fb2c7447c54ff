use xzardgz::agent::context::ConversationContext;
use xzardgz::agent::state::AgentState;

#[test]
fn test_agent_state() {
    let ctx = ConversationContext::new("test".to_string(), 100);
    let mut state = AgentState::new(ctx, 5);

    assert_eq!(state.iterations, 0);
    assert!(!state.is_at_max_iterations());

    for _ in 0..5 {
        state.increment_iteration();
    }

    assert!(state.is_at_max_iterations());
    assert_eq!(state.iterations, 5);

    state.reset_iterations();
    assert_eq!(state.iterations, 0);
}
