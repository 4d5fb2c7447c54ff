use xzardgz::agent::context::ConversationContext;
use xzardgz::agent::driver::Agent;
use xzardgz::agent::executor::AgentExecutor;
use xzardgz::tools::executor::ToolExecutionDispatcher;
use xzardgz::error::{ProviderError, XzardgzError};
use xzardgz::json::JsonValue;
use xzardgz::providers::base::Provider;
use xzardgz::providers::types::{FunctionCall, Message, Role, Tool, ToolCall};
use xzardgz::tools::registry::ToolRegistry;
use xzardgz::tools::{ToolExecutor, ToolResult};

struct OkExecutor;

impl ToolExecutor for OkExecutor {
    fn outcome(
        &self,
        _params: xzardgz::json::JsonSpec,
    ) -> Result<ToolResult, XzardgzError> {
        unreachable!()
    }

    fn post_state(&self, _params: xzardgz::json::JsonSpec) -> Self {
        unreachable!()
    }

    fn execute(&mut self, _params: JsonValue) -> Result<ToolResult, XzardgzError> {
        Ok(ToolResult::success("done"))
    }
}

/// Always answers with one more tool call.
struct ToolHungryProvider {
    calls: usize,
}

impl Provider for ToolHungryProvider {
    fn completion(
        &self,
        _messages: vstd::seq::Seq<xzardgz::providers::types::MessageV>,
        _tools: vstd::seq::Seq<xzardgz::providers::types::ToolV>,
    ) -> Result<xzardgz::providers::types::MessageV, xzardgz::error::ProviderErrorV> {
        unreachable!()
    }

    fn post_state(
        &self,
        _messages: vstd::seq::Seq<xzardgz::providers::types::MessageV>,
        _tools: vstd::seq::Seq<xzardgz::providers::types::ToolV>,
    ) -> Self {
        unreachable!()
    }

    fn complete(
        &mut self,
        _messages: &Vec<Message>,
        _tools: &Vec<Tool>,
    ) -> Result<Message, ProviderError> {
        self.calls += 1;
        Ok(Message {
            role: Role::Assistant,
            content: "thinking".to_string(),
            name: None,
            tool_calls: Some(vec![ToolCall {
                id: format!("c{}", self.calls),
                function: FunctionCall { name: "noop".to_string(), arguments: "{}".to_string() },
            }]),
            tool_call_id: None,
        })
    }
}

/// Answers plainly on the first ask.
struct OneShotProvider {
    calls: usize,
}

impl Provider for OneShotProvider {
    fn completion(
        &self,
        _messages: vstd::seq::Seq<xzardgz::providers::types::MessageV>,
        _tools: vstd::seq::Seq<xzardgz::providers::types::ToolV>,
    ) -> Result<xzardgz::providers::types::MessageV, xzardgz::error::ProviderErrorV> {
        unreachable!()
    }

    fn post_state(
        &self,
        _messages: vstd::seq::Seq<xzardgz::providers::types::MessageV>,
        _tools: vstd::seq::Seq<xzardgz::providers::types::ToolV>,
    ) -> Self {
        unreachable!()
    }

    fn complete(
        &mut self,
        _messages: &Vec<Message>,
        _tools: &Vec<Tool>,
    ) -> Result<Message, ProviderError> {
        self.calls += 1;
        Ok(Message {
            role: Role::Assistant,
            content: "the answer".to_string(),
            name: None,
            tool_calls: None,
            tool_call_id: None,
        })
    }
}

fn noop_tool() -> Tool {
    Tool {
        name: "noop".to_string(),
        description: "does nothing".to_string(),
        parameters: JsonValue::Null,
    }
}

#[test]
fn test_run_hits_iteration_ceiling_after_five_asks() {
    let mut registry = ToolRegistry::new();
    registry.register(noop_tool(), OkExecutor);
    let mut agent = Agent::new(ToolHungryProvider { calls: 0 }, "sys".to_string(), registry);

    let result = agent.run("go");
    assert_eq!(
        result.unwrap_err().message(),
        "Workflow error: Execution failed: Max agent iterations reached"
    );
    // Exactly five provider invocations, never a sixth.
    assert_eq!(agent.provider.calls, 5);
    // Each round left one assistant and one tool message; plus the user one.
    assert_eq!(agent.context.messages.len(), 11);
}

#[test]
fn test_run_returns_first_plain_answer() {
    let registry: ToolRegistry<OkExecutor> = ToolRegistry::new();
    let mut agent = Agent::new(OneShotProvider { calls: 0 }, "sys".to_string(), registry);

    let answer = agent.run("hello").unwrap();
    assert_eq!(answer, "the answer");
    assert_eq!(agent.provider.calls, 1);
    // The context ends with exactly two messages: user, then assistant.
    assert_eq!(agent.context.messages.len(), 2);
    assert_eq!(agent.context.messages[0].role, Role::User);
    assert_eq!(agent.context.messages[0].content, "hello");
    assert_eq!(agent.context.messages[1].role, Role::Assistant);
}

#[test]
fn test_tool_results_are_fed_back() {
    struct TwoTurnProvider {
        calls: usize,
    }
    impl Provider for TwoTurnProvider {
    fn completion(
        &self,
        _messages: vstd::seq::Seq<xzardgz::providers::types::MessageV>,
        _tools: vstd::seq::Seq<xzardgz::providers::types::ToolV>,
    ) -> Result<xzardgz::providers::types::MessageV, xzardgz::error::ProviderErrorV> {
        unreachable!()
    }

    fn post_state(
        &self,
        _messages: vstd::seq::Seq<xzardgz::providers::types::MessageV>,
        _tools: vstd::seq::Seq<xzardgz::providers::types::ToolV>,
    ) -> Self {
        unreachable!()
    }

        fn complete(
            &mut self,
            messages: &Vec<Message>,
            _tools: &Vec<Tool>,
        ) -> Result<Message, ProviderError> {
            self.calls += 1;
            if self.calls == 1 {
                Ok(Message {
                    role: Role::Assistant,
                    content: "using a tool".to_string(),
                    name: None,
                    tool_calls: Some(vec![ToolCall {
                        id: "c1".to_string(),
                        function: FunctionCall {
                            name: "noop".to_string(),
                            arguments: "{}".to_string(),
                        },
                    }]),
                    tool_call_id: None,
                })
            } else {
                // The tool's output is visible in the history.
                let last = messages.last().unwrap();
                assert_eq!(last.role, Role::Tool);
                assert_eq!(last.content, "done");
                assert_eq!(last.tool_call_id.as_deref(), Some("c1"));
                Ok(Message {
                    role: Role::Assistant,
                    content: "finished".to_string(),
                    name: None,
                    tool_calls: None,
                    tool_call_id: None,
                })
            }
        }
    }

    let mut registry = ToolRegistry::new();
    registry.register(noop_tool(), OkExecutor);
    let mut agent = Agent::new(TwoTurnProvider { calls: 0 }, "sys".to_string(), registry);
    let answer = agent.run("go").unwrap();
    assert_eq!(answer, "finished");
    assert_eq!(agent.provider.calls, 2);
}

#[test]
fn test_executor_also_enforces_ceiling() {
    let mut registry = ToolRegistry::new();
    registry.register(noop_tool(), OkExecutor);
    let dispatcher = ToolExecutionDispatcher::new(registry);
    let ctx = ConversationContext::new("sys".to_string(), 4096);
    let mut exec = AgentExecutor::new(ToolHungryProvider { calls: 0 }, ctx, dispatcher);

    let result = exec.execute("go");
    assert!(result.is_err());
    assert_eq!(exec.provider.calls, 5);
}
