use crate::agent::context::ConversationContext;
use crate::agent::driver::{round_continues, run_result_matches, spec_run_loop, spec_tool_seq, MAX_ITERATIONS};
use crate::error::{WorkflowError, XzardgzError};
use crate::providers::base::Provider;
use crate::providers::types::{Message, Role, Tool, ToolCall, ToolV};
use crate::tools::executor::ToolExecutionDispatcher;
use crate::tools::ToolExecutor;
use vstd::prelude::*;

verus! {

/// Manages the execution loop for agent interactions. Unlike `Agent::run`, it
/// advertises no tools to the provider — the provider sees an empty tool list —
/// but still dispatches whatever tool calls a response carries.
pub struct AgentExecutor<P, E> {
    pub provider: P,
    pub context: ConversationContext,
    pub tool_dispatcher: ToolExecutionDispatcher<E>,
    pub max_iterations: usize,
}

impl<P: Provider, E: ToolExecutor> AgentExecutor<P, E> {
    /// An executor over the given provider, context and dispatcher, with the
    /// fixed iteration ceiling.
    pub fn new(provider: P, context: ConversationContext, tool_dispatcher: ToolExecutionDispatcher<E>) -> (r:
        AgentExecutor<P, E>)
        ensures
            r.provider == provider,
            r.context == context,
            r.tool_dispatcher == tool_dispatcher,
            r.max_iterations == MAX_ITERATIONS,
    {
        AgentExecutor { provider, context, tool_dispatcher, max_iterations: MAX_ITERATIONS }
    }

    /// One bounded conversation/tool-call run, as `spec_run_loop` describes
    /// with an empty advertised tool list and this executor's iteration
    /// ceiling as the fuel.
    pub fn execute(&mut self, input: &str) -> (r: Result<String, XzardgzError>)
        requires
            old(self).tool_dispatcher.registry.wf(),
        ensures
            final(self).tool_dispatcher.registry.wf(),
            final(self).tool_dispatcher.registry.tools@ == old(self).tool_dispatcher.registry.tools@,
            final(self).context.system_prompt == old(self).context.system_prompt,
            final(self).context.max_tokens == old(self).context.max_tokens,
            final(self).max_iterations == old(self).max_iterations,
            ({
                let tools = old(self).tool_dispatcher.registry.tools@;
                let o = spec_run_loop(
                    old(self).provider,
                    Seq::<ToolV>::empty(),
                    tools,
                    old(self).tool_dispatcher.registry.executors@,
                    old(self).context.messages_view().push(
                        Message::spec_plain(Role::User, input@),
                    ),
                    old(self).max_iterations as nat,
                );
                final(self).provider == o.provider
                    && final(self).tool_dispatcher.registry.executors@ == o.executors
                    && final(self).context.messages_view() == o.messages
                    && run_result_matches(r, o.result)
            }),
    {
        let ghost tools = old(self).tool_dispatcher.registry.tools@;
        self.context.add_message(Message::user(input));
        let ghost goal = spec_run_loop(
            self.provider,
            Seq::<ToolV>::empty(),
            tools,
            self.tool_dispatcher.registry.executors@,
            self.context.messages_view(),
            self.max_iterations as nat,
        );
        let max_iterations = self.max_iterations;
        let no_tools: Vec<Tool> = Vec::new();
        let mut iterations: usize = 0;
        while iterations < max_iterations
            invariant
                iterations <= max_iterations,
                max_iterations == self.max_iterations,
                no_tools@.len() == 0,
                self.tool_dispatcher.registry.wf(),
                self.tool_dispatcher.registry.tools@ == tools,
                tools == old(self).tool_dispatcher.registry.tools@,
                self.context.system_prompt == old(self).context.system_prompt,
                self.context.max_tokens == old(self).context.max_tokens,
                self.max_iterations == old(self).max_iterations,
                goal == spec_run_loop(
                    old(self).provider,
                    Seq::<ToolV>::empty(),
                    tools,
                    old(self).tool_dispatcher.registry.executors@,
                    old(self).context.messages_view().push(
                        Message::spec_plain(Role::User, input@),
                    ),
                    old(self).max_iterations as nat,
                ),
                ({
                    let cur = spec_run_loop(
                        self.provider,
                        Seq::<ToolV>::empty(),
                        tools,
                        self.tool_dispatcher.registry.executors@,
                        self.context.messages_view(),
                        (max_iterations - iterations) as nat,
                    );
                    goal.provider == cur.provider && goal.executors == cur.executors
                        && goal.messages == cur.messages && goal.result == cur.result
                        && goal.provider_calls == cur.provider_calls + iterations
                }),
            decreases max_iterations - iterations,
        {
            proof {
                assert(no_tools@.map_values(|t: Tool| t@) =~= Seq::<ToolV>::empty());
            }
            let response = match self.provider.complete(&self.context.messages, &no_tools) {
                Ok(resp) => resp,
                Err(e) => {
                    return Err(XzardgzError::Provider(e));
                },
            };
            let content = response.content.clone();
            let calls: Option<Vec<ToolCall>> = match &response.tool_calls {
                Some(v) => Some(crate::agent::driver::clone_calls(v)),
                None => None,
            };
            self.context.add_message(response);
            let cs = match calls {
                None => {
                    return Ok(content);
                },
                Some(cs) => cs,
            };
            if cs.len() == 0 {
                return Ok(content);
            }
            let ghost execs_r = self.tool_dispatcher.registry.executors@;
            let ghost msgs_r = self.context.messages_view();
            let ghost whole = spec_tool_seq(tools, execs_r, msgs_r, cs@);
            let ghost p_now = self.provider;
            proof {
                assert(spec_tool_seq(tools, execs_r, msgs_r, cs@.skip(0)) == whole) by {
                    assert(cs@.skip(0) =~= cs@);
                }
            }
            let mut k: usize = 0;
            while k < cs.len()
                invariant
                    k <= cs@.len(),
                    self.tool_dispatcher.registry.wf(),
                    self.tool_dispatcher.registry.tools@ == tools,
                    tools == old(self).tool_dispatcher.registry.tools@,
                    self.context.system_prompt == old(self).context.system_prompt,
                    self.context.max_tokens == old(self).context.max_tokens,
                    self.max_iterations == old(self).max_iterations,
                    self.provider == p_now,
                    iterations < max_iterations,
                    max_iterations == self.max_iterations,
                    goal == spec_run_loop(
                        old(self).provider,
                        Seq::<ToolV>::empty(),
                        tools,
                        old(self).tool_dispatcher.registry.executors@,
                        old(self).context.messages_view().push(
                            Message::spec_plain(Role::User, input@),
                        ),
                        old(self).max_iterations as nat,
                    ),
                    whole == spec_tool_seq(tools, execs_r, msgs_r, cs@),
                    spec_tool_seq(
                        tools,
                        self.tool_dispatcher.registry.executors@,
                        self.context.messages_view(),
                        cs@.skip(k as int),
                    ) == whole,
                    round_continues(
                        goal,
                        p_now,
                        Seq::<ToolV>::empty(),
                        tools,
                        whole,
                        (iterations + 1) as nat,
                        (max_iterations - iterations - 1) as nat,
                    ),
                decreases cs@.len() - k,
            {
                let call = &cs[k];
                let ghost execs_h = self.tool_dispatcher.registry.executors@;
                let ghost msgs_h = self.context.messages_view();
                proof {
                    assert(cs@.skip(k as int)[0] == cs@[k as int]);
                    assert(cs@.skip(k as int).drop_first() =~= cs@.skip(k as int + 1));
                }
                let outcome = match self.tool_dispatcher.execute(call) {
                    Ok(tr) => tr,
                    Err(e) => {
                        proof {
                            let sk = cs@.skip(k as int);
                            let step = crate::tools::executor::spec_dispatch(
                                tools,
                                execs_h,
                                sk[0],
                            );
                            assert(spec_tool_seq(tools, execs_h, msgs_h, sk) == (
                                step.0,
                                msgs_h,
                                Some(step.1->Err_0),
                            ));
                            assert(whole.2 == Some(e@));
                        }
                        return Err(e);
                    },
                };
                let fb = outcome.feedback();
                let msg = Message {
                    role: Role::Tool,
                    content: fb,
                    name: Some(call.function.name.clone()),
                    tool_calls: None,
                    tool_call_id: Some(call.id.clone()),
                };
                self.context.add_message(msg);
                k = k + 1;
            }
            proof {
                assert(cs@.skip(cs@.len() as int) =~= Seq::<ToolCall>::empty());
            }
            iterations = iterations + 1;
        }
        Err(XzardgzError::Workflow(WorkflowError::Execution("Max agent iterations reached".to_owned())))
    }
}

} // verus!
