use xzardgz::agent::driver::Agent;
use xzardgz::error::{ProviderError, XzardgzError};
use xzardgz::json::JsonValue;
use xzardgz::providers::base::Provider;
use xzardgz::providers::types::{Message, Role, Tool};
use xzardgz::tools::registry::ToolRegistry;
use xzardgz::tools::{ToolExecutor, ToolResult};
use xzardgz::workflow::executor::WorkflowExecutor;
use xzardgz::workflow::plan::{Action, Plan, WorkflowStep};

struct OkExecutor;

impl ToolExecutor for OkExecutor {
    fn outcome(
        &self,
        _params: xzardgz::json::JsonSpec,
    ) -> Result<ToolResult, XzardgzError> {
        unreachable!()
    }

    fn post_state(&self, _params: xzardgz::json::JsonSpec) -> Self {
        unreachable!()
    }

    fn execute(&mut self, _params: JsonValue) -> Result<ToolResult, XzardgzError> {
        Ok(ToolResult::success("done"))
    }
}

struct PlainProvider;

impl Provider for PlainProvider {
    fn completion(
        &self,
        _messages: vstd::seq::Seq<xzardgz::providers::types::MessageV>,
        _tools: vstd::seq::Seq<xzardgz::providers::types::ToolV>,
    ) -> Result<xzardgz::providers::types::MessageV, xzardgz::error::ProviderErrorV> {
        unreachable!()
    }

    fn post_state(
        &self,
        _messages: vstd::seq::Seq<xzardgz::providers::types::MessageV>,
        _tools: vstd::seq::Seq<xzardgz::providers::types::ToolV>,
    ) -> Self {
        unreachable!()
    }

    fn complete(
        &mut self,
        _messages: &Vec<Message>,
        _tools: &Vec<Tool>,
    ) -> Result<Message, ProviderError> {
        Ok(Message {
            role: Role::Assistant,
            content: "ok".to_string(),
            name: None,
            tool_calls: None,
            tool_call_id: None,
        })
    }
}

fn step(id: &str, deps: &[&str]) -> WorkflowStep {
    WorkflowStep {
        id: id.to_string(),
        description: format!("step {}", id),
        action: Action::ScanRepository,
        dependencies: deps.iter().map(|d| d.to_string()).collect(),
    }
}

fn plan_of(steps: Vec<WorkflowStep>) -> Plan {
    Plan {
        name: "p".to_string(),
        description: "d".to_string(),
        repository: None,
        steps,
        deliverables: Vec::new(),
    }
}

fn agent() -> Agent<PlainProvider, OkExecutor> {
    Agent::new(PlainProvider, "sys".to_string(), ToolRegistry::new())
}

#[test]
fn test_valid_order_completes_dependencies_first() {
    let plan = plan_of(vec![
        step("C", &["A", "B"]),
        step("A", &[]),
        step("B", &["A"]),
    ]);
    let mut exec = WorkflowExecutor::new(agent(), plan);
    exec.execute().unwrap();

    let completed = exec.completed_steps.clone();
    assert_eq!(completed.len(), 3);
    let pos = |id: &str| completed.iter().position(|c| c == id).unwrap();
    assert!(pos("A") < pos("B"));
    assert!(pos("B") < pos("C"));
}

#[test]
fn test_cycle_deadlocks() {
    let plan = plan_of(vec![step("X", &["Y"]), step("Y", &["X"])]);
    let mut exec = WorkflowExecutor::new(agent(), plan);
    let err = exec.execute().unwrap_err();
    assert_eq!(
        err.message(),
        "Execution failed: Deadlock or missing dependencies detected"
    );
    assert!(exec.completed_steps.is_empty());
}

#[test]
fn test_dangling_dependency_deadlocks() {
    let plan = plan_of(vec![step("A", &[]), step("B", &["ghost"])]);
    let mut exec = WorkflowExecutor::new(agent(), plan);
    let err = exec.execute().unwrap_err();
    assert_eq!(
        err.message(),
        "Execution failed: Deadlock or missing dependencies detected"
    );
    // The reachable step still completed before the deadlock was detected.
    assert_eq!(exec.completed_steps, vec!["A".to_string()]);
}

#[test]
fn test_agent_task_runs_the_agent() {
    let plan = plan_of(vec![WorkflowStep {
        id: "ask".to_string(),
        description: "ask the agent".to_string(),
        action: Action::AgentTask { prompt: "do the thing".to_string() },
        dependencies: Vec::new(),
    }]);
    let mut exec = WorkflowExecutor::new(agent(), plan);
    exec.execute().unwrap();
    assert_eq!(exec.completed_steps, vec!["ask".to_string()]);
    // The agent saw the prompt and answered.
    assert_eq!(exec.agent.context.messages.len(), 2);
    assert_eq!(exec.agent.context.messages[0].content, "do the thing");
}

#[test]
fn test_rounds_use_a_readiness_snapshot() {
    // B becomes ready only because A completed, so it waits for the next
    // round: steps ready in the same round run in plan order first.
    let plan = plan_of(vec![step("A", &[]), step("B", &["A"]), step("C", &[])]);
    let mut exec = WorkflowExecutor::new(agent(), plan);
    exec.execute().unwrap();
    assert_eq!(
        exec.completed_steps,
        vec!["A".to_string(), "C".to_string(), "B".to_string()]
    );
}

#[test]
fn test_empty_plan_completes_at_once() {
    let plan = plan_of(Vec::new());
    let mut exec = WorkflowExecutor::new(agent(), plan);
    exec.execute().unwrap();
    assert!(exec.completed_steps.is_empty());
}
