use crate::agent::context::ConversationContext;
use crate::error::{WorkflowError, WorkflowErrorV, XzardgzError, XzardgzErrorV};
use crate::providers::base::Provider;
use crate::providers::types::{tools_view, Message, MessageV, Role, Tool, ToolCall, ToolV};
use crate::tools::executor::{spec_dispatch, ToolExecutionDispatcher};
use crate::tools::registry::ToolRegistry;
use crate::tools::{ToolExecutor, ToolResult};
use vstd::prelude::*;

verus! {

/// The error that ends a run when the iteration ceiling is reached.
pub open spec fn iteration_limit_err() -> XzardgzErrorV {
    XzardgzErrorV::Workflow(WorkflowErrorV::Execution("Max agent iterations reached"@))
}

/// The tool-role message fed back into the conversation for one completed
/// call: the result's output (or its error text), tagged with the originating
/// call's id and tool name.
pub open spec fn tool_message(call: ToolCall, outcome: ToolResult) -> MessageV {
    MessageV {
        role: Role::Tool,
        content: outcome.spec_feedback(),
        name: Some(call.function.name@),
        tool_calls: None,
        tool_call_id: Some(call.id@),
    }
}

/// What processing one turn's tool calls does, in the order the provider
/// returned them: the executors' states, the log grown by one tool-role
/// message per completed call, and the dispatcher-level error that abandoned
/// the turn, if any.
pub open spec fn spec_tool_seq<E: ToolExecutor>(
    tools: Seq<Tool>,
    execs: Seq<E>,
    msgs: Seq<MessageV>,
    calls: Seq<ToolCall>,
) -> (Seq<E>, Seq<MessageV>, Option<XzardgzErrorV>)
    decreases calls.len(),
{
    if calls.len() == 0 {
        (execs, msgs, None)
    } else {
        let (execs1, outcome) = spec_dispatch(tools, execs, calls[0]);
        match outcome {
            Err(e) => (execs1, msgs, Some(e)),
            Ok(tr) => spec_tool_seq(
                tools,
                execs1,
                msgs.push(tool_message(calls[0], tr)),
                calls.drop_first(),
            ),
        }
    }
}

/// Everything a run leaves behind: the provider's and the executors' states,
/// the conversation log, the result, and how many times the provider was
/// asked.
pub struct RunOutcome<P, E> {
    pub provider: P,
    pub executors: Seq<E>,
    pub messages: Seq<MessageV>,
    pub result: Result<Seq<char>, XzardgzErrorV>,
    pub provider_calls: nat,
}

/// The conversation/tool-call cycle, one bounded run: ask the provider, append
/// its response, dispatch any tool calls it requests and append their results,
/// and repeat until a response carries no tool calls or the fuel — the
/// iteration ceiling — is spent. `adv` is what is advertised to the provider;
/// `tools` and `execs` are what the dispatcher consults.
pub open spec fn spec_run_loop<P: Provider, E: ToolExecutor>(
    p: P,
    adv: Seq<ToolV>,
    tools: Seq<Tool>,
    execs: Seq<E>,
    msgs: Seq<MessageV>,
    fuel: nat,
) -> RunOutcome<P, E>
    decreases fuel,
{
    if fuel == 0 {
        RunOutcome {
            provider: p,
            executors: execs,
            messages: msgs,
            result: Err(iteration_limit_err()),
            provider_calls: 0,
        }
    } else {
        match p.completion(msgs, adv) {
            Err(e) => RunOutcome {
                provider: p.post_state(msgs, adv),
                executors: execs,
                messages: msgs,
                result: Err(XzardgzErrorV::Provider(e)),
                provider_calls: 1,
            },
            Ok(resp) => {
                let p1 = p.post_state(msgs, adv);
                let msgs1 = msgs.push(resp);
                match resp.tool_calls {
                    Some(calls) => if calls.len() == 0 {
                        RunOutcome {
                            provider: p1,
                            executors: execs,
                            messages: msgs1,
                            result: Ok(resp.content),
                            provider_calls: 1,
                        }
                    } else {
                        let (execs1, msgs2, errop) = spec_tool_seq(tools, execs, msgs1, calls);
                        match errop {
                            Some(e) => RunOutcome {
                                provider: p1,
                                executors: execs1,
                                messages: msgs2,
                                result: Err(e),
                                provider_calls: 1,
                            },
                            None => {
                                let rec = spec_run_loop(
                                    p1,
                                    adv,
                                    tools,
                                    execs1,
                                    msgs2,
                                    (fuel - 1) as nat,
                                );
                                RunOutcome {
                                    provider: rec.provider,
                                    executors: rec.executors,
                                    messages: rec.messages,
                                    result: rec.result,
                                    provider_calls: rec.provider_calls + 1,
                                }
                            },
                        }
                    },
                    None => RunOutcome {
                        provider: p1,
                        executors: execs,
                        messages: msgs1,
                        result: Ok(resp.content),
                        provider_calls: 1,
                    },
                }
            },
        }
    }
}

/// How a run that is mid-round relates to its overall outcome: if the round's
/// tool processing fails, the run ends there; otherwise the run continues on
/// the processed state with the remaining fuel.
pub open spec fn round_continues<P: Provider, E: ToolExecutor>(
    goal: RunOutcome<P, E>,
    p: P,
    adv: Seq<ToolV>,
    tools: Seq<Tool>,
    whole: (Seq<E>, Seq<MessageV>, Option<XzardgzErrorV>),
    done: nat,
    fuel_left: nat,
) -> bool {
    match whole.2 {
        Some(e) => goal.provider == p && goal.executors == whole.0 && goal.messages == whole.1
            && goal.result == Err::<Seq<char>, XzardgzErrorV>(e) && goal.provider_calls == done,
        None => {
            let rec = spec_run_loop(p, adv, tools, whole.0, whole.1, fuel_left);
            goal.provider == rec.provider && goal.executors == rec.executors && goal.messages
                == rec.messages && goal.result == rec.result && goal.provider_calls
                == rec.provider_calls + done
        },
    }
}

/// Whether an executable run result denotes the modelled one.
pub open spec fn run_result_matches(
    r: Result<String, XzardgzError>,
    s: Result<Seq<char>, XzardgzErrorV>,
) -> bool {
    match r {
        Ok(content) => s matches Ok(c) && content@ == c,
        Err(e) => s matches Err(ev) && e@ == ev,
    }
}

/// The fixed iteration ceiling of an agent run.
pub const MAX_ITERATIONS: usize = 5;

/// The conversation budget, in estimated tokens, of a fresh agent's context.
pub const DEFAULT_CONTEXT_TOKENS: usize = 4096;

/// An agent: a provider, the conversation context it owns exclusively, and the
/// dispatcher for the tools it advertises.
pub struct Agent<P, E> {
    pub provider: P,
    pub context: ConversationContext,
    pub dispatcher: ToolExecutionDispatcher<E>,
}

impl<P: Provider, E: ToolExecutor> Agent<P, E> {
    /// A fresh agent over the given provider and tool registry, with an empty
    /// context holding the system prompt.
    pub fn new(provider: P, system_prompt: String, tool_registry: ToolRegistry<E>) -> (r: Agent<
        P,
        E,
    >)
        ensures
            r.provider == provider,
            r.context.messages_view() =~= Seq::<MessageV>::empty(),
            r.context.system_prompt@ == system_prompt@,
            r.context.max_tokens == DEFAULT_CONTEXT_TOKENS,
            r.dispatcher.registry == tool_registry,
    {
        let context = ConversationContext::new(system_prompt, DEFAULT_CONTEXT_TOKENS);
        let dispatcher = ToolExecutionDispatcher::new(tool_registry);
        Agent { provider, context, dispatcher }
    }

    /// One bounded conversation/tool-call run: appends the user message, then
    /// alternates provider completions and tool dispatches as
    /// `spec_run_loop` describes, for at most `MAX_ITERATIONS` rounds.
    pub fn run(&mut self, input: &str) -> (r: Result<String, XzardgzError>)
        requires
            old(self).dispatcher.registry.wf(),
        ensures
            final(self).dispatcher.registry.wf(),
            final(self).dispatcher.registry.tools@ == old(self).dispatcher.registry.tools@,
            final(self).context.system_prompt == old(self).context.system_prompt,
            final(self).context.max_tokens == old(self).context.max_tokens,
            ({
                let tools = old(self).dispatcher.registry.tools@;
                let o = spec_run_loop(
                    old(self).provider,
                    tools_view(tools),
                    tools,
                    old(self).dispatcher.registry.executors@,
                    old(self).context.messages_view().push(
                        Message::spec_plain(Role::User, input@),
                    ),
                    MAX_ITERATIONS as nat,
                );
                final(self).provider == o.provider && final(self).dispatcher.registry.executors@
                    == o.executors && final(self).context.messages_view() == o.messages
                    && run_result_matches(r, o.result)
            }),
    {
        let ghost tools = old(self).dispatcher.registry.tools@;
        self.context.add_message(Message::user(input));
        let ghost goal = spec_run_loop(
            self.provider,
            tools_view(tools),
            tools,
            self.dispatcher.registry.executors@,
            self.context.messages_view(),
            MAX_ITERATIONS as nat,
        );
        let mut iterations: usize = 0;
        while iterations < MAX_ITERATIONS
            invariant
                iterations <= MAX_ITERATIONS,
                self.dispatcher.registry.wf(),
                self.dispatcher.registry.tools@ == tools,
                tools == old(self).dispatcher.registry.tools@,
                self.context.system_prompt == old(self).context.system_prompt,
                self.context.max_tokens == old(self).context.max_tokens,
                goal == spec_run_loop(
                    old(self).provider,
                    tools_view(tools),
                    tools,
                    old(self).dispatcher.registry.executors@,
                    old(self).context.messages_view().push(
                        Message::spec_plain(Role::User, input@),
                    ),
                    MAX_ITERATIONS as nat,
                ),
                ({
                    let cur = spec_run_loop(
                        self.provider,
                        tools_view(tools),
                        tools,
                        self.dispatcher.registry.executors@,
                        self.context.messages_view(),
                        (MAX_ITERATIONS - iterations) as nat,
                    );
                    goal.provider == cur.provider && goal.executors == cur.executors
                        && goal.messages == cur.messages && goal.result == cur.result
                        && goal.provider_calls == cur.provider_calls + iterations
                }),
            decreases MAX_ITERATIONS - iterations,
        {
            let tools_list = self.dispatcher.registry.list_tools();
            proof {
                assert(tools_list@.map_values(|t: Tool| t@) =~= tools_view(tools));
            }
            let response = match self.provider.complete(&self.context.messages, &tools_list) {
                Ok(resp) => resp,
                Err(e) => {
                    return Err(XzardgzError::Provider(e));
                },
            };
            let content = response.content.clone();
            let calls: Option<Vec<ToolCall>> = match &response.tool_calls {
                Some(v) => Some(clone_calls(v)),
                None => None,
            };
            self.context.add_message(response);
            let cs = match calls {
                None => {
                    return Ok(content);
                },
                Some(cs) => cs,
            };
            if cs.len() == 0 {
                return Ok(content);
            }
            let ghost execs_r = self.dispatcher.registry.executors@;
            let ghost msgs_r = self.context.messages_view();
            let ghost whole = spec_tool_seq(tools, execs_r, msgs_r, cs@);
            let ghost p_now = self.provider;
            proof {
                assert(spec_tool_seq(tools, execs_r, msgs_r, cs@.skip(0)) == whole) by {
                    assert(cs@.skip(0) =~= cs@);
                }
            }
            let mut k: usize = 0;
            while k < cs.len()
                invariant
                    k <= cs@.len(),
                    self.dispatcher.registry.wf(),
                    self.dispatcher.registry.tools@ == tools,
                    tools == old(self).dispatcher.registry.tools@,
                    self.context.system_prompt == old(self).context.system_prompt,
                    self.context.max_tokens == old(self).context.max_tokens,
                    self.provider == p_now,
                    iterations < MAX_ITERATIONS,
                    goal == spec_run_loop(
                        old(self).provider,
                        tools_view(tools),
                        tools,
                        old(self).dispatcher.registry.executors@,
                        old(self).context.messages_view().push(
                            Message::spec_plain(Role::User, input@),
                        ),
                        MAX_ITERATIONS as nat,
                    ),
                    whole == spec_tool_seq(tools, execs_r, msgs_r, cs@),
                    spec_tool_seq(
                        tools,
                        self.dispatcher.registry.executors@,
                        self.context.messages_view(),
                        cs@.skip(k as int),
                    ) == whole,
                    round_continues(
                        goal,
                        p_now,
                        tools_view(tools),
                        tools,
                        whole,
                        (iterations + 1) as nat,
                        (MAX_ITERATIONS - iterations - 1) as nat,
                    ),
                decreases cs@.len() - k,
            {
                let call = &cs[k];
                let ghost execs_h = self.dispatcher.registry.executors@;
                let ghost msgs_h = self.context.messages_view();
                proof {
                    assert(cs@.skip(k as int)[0] == cs@[k as int]);
                    assert(cs@.skip(k as int).drop_first() =~= cs@.skip(k as int + 1));
                }
                let outcome = match self.dispatcher.execute(call) {
                    Ok(tr) => tr,
                    Err(e) => {
                        proof {
                            let sk = cs@.skip(k as int);
                            let step = crate::tools::executor::spec_dispatch(
                                tools,
                                execs_h,
                                sk[0],
                            );
                            assert(spec_tool_seq(tools, execs_h, msgs_h, sk) == (
                                step.0,
                                msgs_h,
                                Some(step.1->Err_0),
                            ));
                            assert(whole.2 == Some(e@));
                        }
                        return Err(e);
                    },
                };
                let fb = outcome.feedback();
                let msg = Message {
                    role: Role::Tool,
                    content: fb,
                    name: Some(call.function.name.clone()),
                    tool_calls: None,
                    tool_call_id: Some(call.id.clone()),
                };
                self.context.add_message(msg);
                k = k + 1;
            }
            proof {
                assert(cs@.skip(cs@.len() as int) =~= Seq::<ToolCall>::empty());
            }
            iterations = iterations + 1;
        }
        Err(XzardgzError::Workflow(WorkflowError::Execution("Max agent iterations reached".to_owned())))
    }
}

/// Copies a turn's tool calls so they can be dispatched after the response
/// itself has been appended to the context.
pub(crate) fn clone_calls(v: &Vec<ToolCall>) -> (r: Vec<ToolCall>)
    ensures
        r@ == v@,
{
    let mut out: Vec<ToolCall> = Vec::new();
    let mut i: usize = 0;
    while i < v.len()
        invariant
            i <= v@.len(),
            out@ =~= v@.subrange(0, i as int),
        decreases v@.len() - i,
    {
        out.push(v[i].clone());
        i = i + 1;
    }
    proof {
        assert(out@ =~= v@);
    }
    out
}

/// If every dispatch of the calls succeeds, processing them abandons nothing:
/// each call appends its tool message, and the log grows by one message per
/// call.
pub proof fn lemma_tool_seq_all_ok<E: ToolExecutor>(
    tools: Seq<Tool>,
    execs: Seq<E>,
    msgs: Seq<MessageV>,
    calls: Seq<ToolCall>,
)
    requires
        forall|es: Seq<E>, k: int|
            0 <= k < calls.len() ==> (#[trigger] spec_dispatch(tools, es, calls[k])).1 is Ok,
    ensures
        spec_tool_seq(tools, execs, msgs, calls).2 is None,
        spec_tool_seq(tools, execs, msgs, calls).1.len() == msgs.len() + calls.len(),
    decreases calls.len(),
{
    if calls.len() > 0 {
        let (execs1, outcome) = spec_dispatch(tools, execs, calls[0]);
        let rest = calls.drop_first();
        assert(forall|es: Seq<E>, k: int|
            0 <= k < rest.len() ==> #[trigger] spec_dispatch(tools, es, rest[k])
                == spec_dispatch(tools, es, calls[k + 1]));
        lemma_tool_seq_all_ok(
            tools,
            execs1,
            msgs.push(tool_message(calls[0], outcome->Ok_0)),
            rest,
        );
    }
}

/// Agent loop termination: against a provider that always answers with a
/// non-empty set of dispatchable tool calls, a run never reaches an answer —
/// it asks the provider once per round, exactly as often as it has fuel, and
/// then fails with the iteration-limit error. With the fixed ceiling as fuel,
/// that is exactly `MAX_ITERATIONS` provider invocations, never more.
pub proof fn lemma_run_always_tool_calls<P: Provider, E: ToolExecutor>(
    p: P,
    adv: Seq<ToolV>,
    tools: Seq<Tool>,
    execs: Seq<E>,
    msgs: Seq<MessageV>,
    fuel: nat,
)
    requires
        forall|q: P, m: Seq<MessageV>|
            (#[trigger] q.completion(m, adv)) matches Ok(resp) && resp.tool_calls matches Some(
                calls,
            ) && calls.len() > 0,
        forall|q: P, m: Seq<MessageV>, es: Seq<E>, k: int|
            0 <= k < q.completion(m, adv)->Ok_0.tool_calls->Some_0.len() ==> (
            #[trigger] spec_dispatch(
                tools,
                es,
                q.completion(m, adv)->Ok_0.tool_calls->Some_0[k],
            )).1 is Ok,
    ensures
        spec_run_loop(p, adv, tools, execs, msgs, fuel).result == Err::<
            Seq<char>,
            XzardgzErrorV,
        >(iteration_limit_err()),
        spec_run_loop(p, adv, tools, execs, msgs, fuel).provider_calls == fuel,
    decreases fuel,
{
    if fuel > 0 {
        let resp = p.completion(msgs, adv)->Ok_0;
        let calls = resp.tool_calls->Some_0;
        let msgs1 = msgs.push(resp);
        assert forall|es: Seq<E>, k: int| 0 <= k < calls.len() implies (#[trigger] spec_dispatch(
            tools,
            es,
            calls[k],
        )).1 is Ok by {
            assert(p.completion(msgs, adv) matches Ok(_));
            assert(spec_dispatch(tools, es, p.completion(msgs, adv)->Ok_0.tool_calls->Some_0[k]).1
                is Ok);
        }
        lemma_tool_seq_all_ok(tools, execs, msgs1, calls);
        let (execs1, msgs2, _errop) = spec_tool_seq(tools, execs, msgs1, calls);
        lemma_run_always_tool_calls(
            p.post_state(msgs, adv),
            adv,
            tools,
            execs1,
            msgs2,
            (fuel - 1) as nat,
        );
    }
}

/// Agent loop success path: against a provider whose next response carries no
/// tool calls, a run with fuel left returns that response's content after
/// exactly one provider invocation, and the log ends with exactly the one new
/// response appended.
pub proof fn lemma_run_immediate_answer<P: Provider, E: ToolExecutor>(
    p: P,
    adv: Seq<ToolV>,
    tools: Seq<Tool>,
    execs: Seq<E>,
    msgs: Seq<MessageV>,
    fuel: nat,
)
    requires
        fuel > 0,
        p.completion(msgs, adv) matches Ok(resp) && (resp.tool_calls is None
            || resp.tool_calls->Some_0.len() == 0),
    ensures
        ({
            let resp = p.completion(msgs, adv)->Ok_0;
            spec_run_loop(p, adv, tools, execs, msgs, fuel) == (RunOutcome {
                provider: p.post_state(msgs, adv),
                executors: execs,
                messages: msgs.push(resp),
                result: Ok(resp.content),
                provider_calls: 1,
            })
        }),
{
}

} // verus!
