use crate::error::{WorkflowError, WorkflowErrorV, XzardgzError, XzardgzErrorV};
use crate::json::{parse_json, spec_parse_json};
use crate::providers::types::ToolCall;
use crate::tools::registry::{lemma_spec_find_correct, spec_find, ToolRegistry};
use crate::tools::{ToolExecutor, ToolResult};
use vstd::prelude::*;
use vstd::string::StringExecFns;

verus! {

/// The dispatcher-level error for a call naming a tool that was never
/// registered.
pub open spec fn tool_not_found_err(name: Seq<char>) -> XzardgzErrorV {
    XzardgzErrorV::Workflow(WorkflowErrorV::Execution("Tool not found: "@ + name))
}

/// The dispatcher-level error for arguments that do not decode as a structured
/// object.
pub open spec fn invalid_arguments_err() -> XzardgzErrorV {
    XzardgzErrorV::Workflow(WorkflowErrorV::Execution("Invalid tool arguments: malformed text"@))
}

/// What dispatching a tool call does: the executors' states afterwards and the
/// outcome. Lookup and decode failures are dispatcher-level errors; a failure
/// of the tool itself is carried inside the `Ok` as a `ToolResult` with an
/// error text.
pub open spec fn spec_dispatch<E: ToolExecutor>(
    tools: Seq<crate::providers::types::Tool>,
    execs: Seq<E>,
    call: ToolCall,
) -> (Seq<E>, Result<ToolResult, XzardgzErrorV>) {
    match spec_find(tools, call.function.name@) {
        None => (execs, Err(tool_not_found_err(call.function.name@))),
        Some(i) => match spec_parse_json(call.function.arguments@) {
            None => (execs, Err(invalid_arguments_err())),
            Some(params) => {
                let e = execs[i];
                (
                    execs.update(i, e.post_state(params)),
                    match e.outcome(params) {
                        Ok(tr) => Ok(tr),
                        Err(err) => Err(err@),
                    },
                )
            },
        },
    }
}

/// Whether an executable dispatch outcome denotes the modelled one.
pub open spec fn dispatch_matches(
    r: Result<ToolResult, XzardgzError>,
    s: Result<ToolResult, XzardgzErrorV>,
) -> bool {
    match r {
        Ok(tr) => s == Ok::<ToolResult, XzardgzErrorV>(tr),
        Err(e) => s matches Err(ev) && e@ == ev,
    }
}

/// Decodes a requested tool invocation and delegates to the registry's
/// executor. Side effects are entirely the executor's; the dispatcher itself
/// only looks up, decodes and calls.
pub struct ToolExecutionDispatcher<E> {
    pub registry: ToolRegistry<E>,
}

impl<E: ToolExecutor> ToolExecutionDispatcher<E> {
    /// A dispatcher over the given registry.
    pub fn new(registry: ToolRegistry<E>) -> (r: ToolExecutionDispatcher<E>)
        ensures
            r.registry == registry,
    {
        ToolExecutionDispatcher { registry }
    }

    /// Looks up the executor named by the call, decodes the call's arguments,
    /// and invokes the executor. Fails with a tool-not-found error exactly when
    /// no tool of that name is registered, and with an invalid-arguments error
    /// exactly when the arguments do not decode; the executor's own failures
    /// pass through unchanged.
    pub fn execute(&mut self, tool_call: &ToolCall) -> (r: Result<ToolResult, XzardgzError>)
        requires
            old(self).registry.wf(),
        ensures
            final(self).registry.wf(),
            final(self).registry.tools@ == old(self).registry.tools@,
            ({
                let (post_execs, outcome) = spec_dispatch(
                    old(self).registry.tools@,
                    old(self).registry.executors@,
                    *tool_call,
                );
                final(self).registry.executors@ == post_execs && dispatch_matches(r, outcome)
            }),
    {
        proof {
            lemma_spec_find_correct(self.registry.tools@, tool_call.function.name@);
        }
        let found = self.registry.index_of(tool_call.function.name.as_str());
        let i = match found {
            Some(i) => i,
            None => {
                let mut m = "Tool not found: ".to_owned();
                m.append(tool_call.function.name.as_str());
                return Err(XzardgzError::Workflow(WorkflowError::Execution(m)));
            },
        };
        let params = match parse_json(tool_call.function.arguments.as_str()) {
            Some(p) => p,
            None => {
                let m = "Invalid tool arguments: malformed text".to_owned();
                return Err(XzardgzError::Workflow(WorkflowError::Execution(m)));
            },
        };
        let mut executor = self.registry.executors.remove(i);
        let result = executor.execute(params);
        self.registry.executors.insert(i, executor);
        proof {
            assert(self.registry.executors@ =~= old(self).registry.executors@.update(
                i as int,
                old(self).registry.executors@[i as int].post_state(
                    spec_parse_json(tool_call.function.arguments@)->Some_0,
                ),
            ));
        }
        result
    }
}

} // verus!
