use xzardgz::error::XzardgzError;
use xzardgz::json::JsonValue;
use xzardgz::providers::types::{FunctionCall, ToolCall};
use xzardgz::tools::executor::ToolExecutionDispatcher;
use xzardgz::tools::registry::ToolRegistry;
use xzardgz::tools::file_ops::{ReadFileTool, WriteFileTool};
use xzardgz::tools::git_ops::GitStatusTool;
use xzardgz::tools::{ToolExecutor, ToolResult};

struct EchoExecutor {
    reply: String,
}

impl ToolExecutor for EchoExecutor {
    fn outcome(
        &self,
        _params: xzardgz::json::JsonSpec,
    ) -> Result<ToolResult, XzardgzError> {
        unreachable!()
    }

    fn post_state(&self, _params: xzardgz::json::JsonSpec) -> Self {
        unreachable!()
    }

    fn execute(&mut self, _params: JsonValue) -> Result<ToolResult, XzardgzError> {
        Ok(ToolResult::success(&self.reply))
    }
}

fn echo_tool(name: &str) -> xzardgz::providers::types::Tool {
    xzardgz::providers::types::Tool {
        name: name.to_string(),
        description: "echoes a fixed reply".to_string(),
        parameters: JsonValue::Null,
    }
}

fn call(id: &str, name: &str, arguments: &str) -> ToolCall {
    ToolCall {
        id: id.to_string(),
        function: FunctionCall { name: name.to_string(), arguments: arguments.to_string() },
    }
}

#[test]
fn test_unknown_tool() {
    let registry: ToolRegistry<EchoExecutor> = ToolRegistry::new();
    let mut dispatcher = ToolExecutionDispatcher::new(registry);

    let result = dispatcher.execute(&call("call_3", "unknown", "{}"));
    assert!(result.is_err());
    assert_eq!(
        result.unwrap_err().message(),
        "Workflow error: Execution failed: Tool not found: unknown"
    );
}

#[test]
fn test_dispatch_decodes_and_delegates() {
    let mut registry = ToolRegistry::new();
    registry.register(echo_tool("echo"), EchoExecutor { reply: "pong".to_string() });
    let mut dispatcher = ToolExecutionDispatcher::new(registry);

    let ok = dispatcher.execute(&call("call_1", "echo", r#"{"k": [1, true, null]}"#)).unwrap();
    assert_eq!(ok.output, "pong");
    assert!(ok.error.is_none());

    let err = dispatcher.execute(&call("call_2", "echo", "{broken")).unwrap_err();
    assert_eq!(
        err.message(),
        "Workflow error: Execution failed: Invalid tool arguments: malformed text"
    );
}

#[test]
fn test_reregistering_replaces_executor() {
    let mut registry = ToolRegistry::new();
    registry.register(echo_tool("echo"), EchoExecutor { reply: "old".to_string() });
    registry.register(echo_tool("echo"), EchoExecutor { reply: "new".to_string() });
    assert_eq!(registry.list_tools().len(), 1);

    let mut dispatcher = ToolExecutionDispatcher::new(registry);
    let out = dispatcher.execute(&call("call_1", "echo", "{}")).unwrap();
    assert_eq!(out.output, "new");
}

#[test]
fn test_registry_lookup() {
    let mut registry = ToolRegistry::new();
    registry.register(echo_tool("a"), EchoExecutor { reply: "ra".to_string() });
    registry.register(echo_tool("b"), EchoExecutor { reply: "rb".to_string() });

    assert_eq!(registry.get_tool("a").unwrap().name, "a");
    assert!(registry.get_tool("c").is_none());
    assert_eq!(registry.get_executor("b").unwrap().reply, "rb");
    assert!(registry.get_executor("c").is_none());
    assert_eq!(registry.list_tools().len(), 2);
}

#[test]
fn test_tool_result_outcomes() {
    let ok = ToolResult::success("fine");
    assert_eq!(ok.output, "fine");
    assert!(ok.error.is_none());

    let bad = ToolResult::failure("broken");
    assert_eq!(bad.output, "");
    assert_eq!(bad.error.as_deref(), Some("broken"));
    assert_eq!(bad.feedback(), "broken");
}

#[test]
fn test_tool_definitions() {
    assert_eq!(ReadFileTool::definition().name, "read_file");
    assert_eq!(WriteFileTool::definition().name, "write_file");
    assert_eq!(GitStatusTool::definition().name, "git_status");
    assert_eq!(ReadFileTool::definition().description, "Read contents of a file");
}
