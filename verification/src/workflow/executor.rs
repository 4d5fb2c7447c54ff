use crate::agent::driver::{spec_run_loop, Agent, MAX_ITERATIONS};
use crate::error::{WorkflowError, WorkflowErrorV};
use crate::providers::base::Provider;
use crate::providers::types::{tools_view, Message, MessageV, Role};
use crate::text::str_eq;
use crate::tools::ToolExecutor;
use crate::workflow::plan::{
    id_known, lemma_steps_view_index, lemma_steps_view_len, lemma_strs_view_index,
    lemma_strs_view_len, strs_view, ActionV, Plan, StepV,
};
use vstd::prelude::*;
use vstd::seq_lib::group_seq_properties;
use vstd::string::StringExecFns;

verus! {

/// The error reported when no step is ready and the plan is not complete: a
/// dependency cycle and a dangling dependency are indistinguishable here and
/// are reported uniformly.
pub open spec fn wf_deadlock_err() -> WorkflowErrorV {
    WorkflowErrorV::Execution("Deadlock or missing dependencies detected"@)
}

/// Whether the completed log holds the given id.
pub open spec fn contains_id(completed: Seq<Seq<char>>, id: Seq<char>) -> bool {
    exists|k: int| 0 <= k < completed.len() && completed[k] == id
}

/// Whether a step may run: it has not completed, and every dependency has.
pub open spec fn step_ready(step: StepV, completed: Seq<Seq<char>>) -> bool {
    &&& !contains_id(completed, step.id)
    &&& forall|d: int|
        0 <= d < step.dependencies.len() ==> contains_id(completed, #[trigger] step.dependencies[d])
}

/// Whether every step id is unique in the plan.
pub open spec fn unique_ids(steps: Seq<StepV>) -> bool {
    forall|i: int, j: int| 0 <= i < j < steps.len() ==> steps[i].id != steps[j].id
}

/// Whether the completed log never repeats an id.
pub open spec fn distinct_ids(completed: Seq<Seq<char>>) -> bool {
    forall|i: int, j: int| 0 <= i < j < completed.len() ==> completed[i] != completed[j]
}

/// Whether every completed id names a step of the plan.
pub open spec fn completed_known(steps: Seq<StepV>, completed: Seq<Seq<char>>) -> bool {
    forall|k: int| 0 <= k < completed.len() ==> id_known(steps, #[trigger] completed[k])
}

/// Whether every step id occurs in the completed log.
pub open spec fn all_completed(steps: Seq<StepV>, completed: Seq<Seq<char>>) -> bool {
    forall|i: int| 0 <= i < steps.len() ==> contains_id(completed, #[trigger] steps[i].id)
}

/// Whether completion order respects dependencies: a step's dependencies all
/// complete strictly before the step itself does.
pub open spec fn dep_order(steps: Seq<StepV>, completed: Seq<Seq<char>>) -> bool {
    forall|k: int, i: int, d: int| #[trigger] dep_ok(steps, completed, k, i, d)
}

/// One dependency-order obligation: if step `i` completed at position `k`,
/// its dependency `d` completed earlier.
pub open spec fn dep_ok(steps: Seq<StepV>, completed: Seq<Seq<char>>, k: int, i: int, d: int) -> bool {
    0 <= k < completed.len() && 0 <= i < steps.len() && steps[i].id == completed[k] && 0 <= d
        < steps[i].dependencies.len() ==> exists|k2: int|
        0 <= k2 < k && completed[k2] == steps[i].dependencies[d]
}

/// Whether no step of the plan is an agent task: such plans execute without
/// touching the agent, so only a deadlock can fail them.
pub open spec fn no_agent_tasks(steps: Seq<StepV>) -> bool {
    forall|i: int| 0 <= i < steps.len() ==> !((#[trigger] steps[i].action) is AgentTask)
}


/// The integer positions a position list denotes.
pub open spec fn usizes_view(v: Seq<usize>) -> Seq<int> {
    Seq::new(v.len(), |i: int| if 0 <= i < v.len() { v[i] as int } else { 0int })
}

/// Indexing the model of a position list gives the position there, and the
/// lengths agree.
pub broadcast proof fn lemma_usizes_view(v: Seq<usize>, i: int)
    requires
        0 <= i < v.len(),
    ensures
        (#[trigger] usizes_view(v)[i]) == v[i] as int,
        usizes_view(v).len() == v.len(),
{
}

/// The positions of the ready steps at or after `j`, in plan order.
pub open spec fn ready_from(steps: Seq<StepV>, completed: Seq<Seq<char>>, j: int) -> Seq<int>
    decreases steps.len() - j,
{
    if j < 0 || j >= steps.len() {
        Seq::empty()
    } else if step_ready(steps[j], completed) {
        seq![j] + ready_from(steps, completed, j + 1)
    } else {
        ready_from(steps, completed, j + 1)
    }
}

/// Everything a run changes: the agent's provider and tool executors, its
/// conversation log, and the completed-step log.
pub struct WfState<P, E> {
    pub provider: P,
    pub executors: Seq<E>,
    pub messages: Seq<MessageV>,
    pub completed: Seq<Seq<char>>,
}

/// What executing one action does: an agent task runs one bounded agent loop
/// on its prompt; every other kind is delegated outside and succeeds without
/// effect.
pub open spec fn spec_exec_action<P: Provider, E: ToolExecutor>(
    st: WfState<P, E>,
    adv: Seq<crate::providers::types::ToolV>,
    tools: Seq<crate::providers::types::Tool>,
    action: ActionV,
) -> (WfState<P, E>, Option<WorkflowErrorV>) {
    match action {
        ActionV::AgentTask { prompt } => {
            let o = spec_run_loop(
                st.provider,
                adv,
                tools,
                st.executors,
                st.messages.push(Message::spec_plain(Role::User, prompt)),
                MAX_ITERATIONS as nat,
            );
            let st2 = WfState {
                provider: o.provider,
                executors: o.executors,
                messages: o.messages,
                completed: st.completed,
            };
            match o.result {
                Ok(_) => (st2, None),
                Err(ev) => (st2, Some(WorkflowErrorV::Execution(ev.spec_message()))),
            }
        },
        _ => (st, None),
    }
}

/// What one round does: each ready step's action in plan order, recording each
/// completion once, aborting on the first failure.
pub open spec fn spec_round<P: Provider, E: ToolExecutor>(
    st: WfState<P, E>,
    adv: Seq<crate::providers::types::ToolV>,
    tools: Seq<crate::providers::types::Tool>,
    steps: Seq<StepV>,
    ready: Seq<int>,
) -> (WfState<P, E>, Option<WorkflowErrorV>)
    decreases ready.len(),
{
    if ready.len() == 0 {
        (st, None)
    } else {
        let (st1, err) = spec_exec_action(st, adv, tools, steps[ready[0]].action);
        match err {
            Some(e) => (st1, Some(e)),
            None => {
                let st2 = if contains_id(st1.completed, steps[ready[0]].id) {
                    st1
                } else {
                    WfState { completed: st1.completed.push(steps[ready[0]].id), ..st1 }
                };
                spec_round(st2, adv, tools, steps, ready.drop_first())
            },
        }
    }
}

/// What a whole run does: rounds of ready steps until none is ready, ending in
/// success when everything completed and in deadlock otherwise. The fuel
/// bounds the rounds; one more than the step count always suffices, since
/// every round completes at least one step.
pub open spec fn spec_workflow<P: Provider, E: ToolExecutor>(
    st: WfState<P, E>,
    adv: Seq<crate::providers::types::ToolV>,
    tools: Seq<crate::providers::types::Tool>,
    steps: Seq<StepV>,
    fuel: nat,
) -> (WfState<P, E>, Result<(), WorkflowErrorV>)
    decreases fuel,
{
    let ready = ready_from(steps, st.completed, 0);
    if ready.len() == 0 {
        if st.completed.len() == steps.len() {
            (st, Ok(()))
        } else {
            (st, Err(wf_deadlock_err()))
        }
    } else if fuel == 0 {
        (st, Err(wf_deadlock_err()))
    } else {
        let (st1, err) = spec_round(st, adv, tools, steps, ready);
        match err {
            Some(e) => (st1, Err(e)),
            None => spec_workflow(st1, adv, tools, steps, (fuel - 1) as nat),
        }
    }
}

/// A log of distinct ids drawn from the plan's steps is never longer than the
/// plan.
pub proof fn lemma_completed_len_bound(steps: Seq<StepV>, completed: Seq<Seq<char>>)
    requires
        distinct_ids(completed),
        completed_known(steps, completed),
    ensures
        completed.len() <= steps.len(),
{
    broadcast use group_seq_properties;
    broadcast use vstd::set_lib::group_set_lib_default;

    let ids = Seq::new(steps.len(), |i: int| if 0 <= i < steps.len() { steps[i].id } else { steps[0].id });
    assert(forall|i: int, j: int|
        0 <= i < completed.len() && 0 <= j < completed.len() && i != j ==> completed[i]
            != completed[j]) by {
        assert(forall|i: int, j: int|
            0 <= i < j < completed.len() ==> completed[i] != completed[j]);
    }
    assert(completed.no_duplicates());
    completed.unique_seq_to_set();
    assert(forall|k: int| 0 <= k < completed.len() ==> ids.contains(#[trigger] completed[k])) by {
        assert forall|k: int| 0 <= k < completed.len() implies ids.contains(
            #[trigger] completed[k],
        ) by {
            let i = choose|i: int| 0 <= i < steps.len() && steps[i].id == completed[k];
            assert(ids[i] == completed[k]);
        }
    }
    assert(completed.to_set() <= ids.to_set()) by {
        assert forall|x: Seq<char>| completed.to_set().contains(x) implies ids.to_set().contains(
            x,
        ) by {
            assert(completed.contains(x));
        }
    }
    ids.lemma_cardinality_of_set();
    vstd::set_lib::lemma_len_subset(completed.to_set(), ids.to_set());
}

/// A full log of distinct known ids covers every step id of the plan.
pub proof fn lemma_full_log_covers(steps: Seq<StepV>, completed: Seq<Seq<char>>)
    requires
        distinct_ids(completed),
        completed_known(steps, completed),
        completed.len() == steps.len(),
    ensures
        all_completed(steps, completed),
{
    broadcast use group_seq_properties;
    broadcast use vstd::set_lib::group_set_lib_default;

    let ids = Seq::new(steps.len(), |i: int| if 0 <= i < steps.len() { steps[i].id } else { steps[0].id });
    assert(forall|i: int, j: int|
        0 <= i < completed.len() && 0 <= j < completed.len() && i != j ==> completed[i]
            != completed[j]);
    assert(completed.no_duplicates());
    completed.unique_seq_to_set();
    assert(completed.to_set() <= ids.to_set()) by {
        assert forall|x: Seq<char>| completed.to_set().contains(x) implies ids.to_set().contains(
            x,
        ) by {
            assert(completed.contains(x));
            let k = choose|k: int| 0 <= k < completed.len() && completed[k] == x;
            let i = choose|i: int| 0 <= i < steps.len() && steps[i].id == completed[k];
            assert(ids[i] == x);
        }
    }
    ids.lemma_cardinality_of_set();
    vstd::set_lib::lemma_len_subset(completed.to_set(), ids.to_set());
    vstd::set_lib::lemma_subset_equality(completed.to_set(), ids.to_set());
    assert forall|i: int| 0 <= i < steps.len() implies contains_id(
        completed,
        #[trigger] steps[i].id,
    ) by {
        assert(ids[i] == steps[i].id);
        assert(ids.contains(steps[i].id));
        assert(ids.to_set().contains(steps[i].id));
        assert(completed.to_set().contains(steps[i].id));
        assert(completed.contains(steps[i].id));
        let k = choose|k: int| 0 <= k < completed.len() && completed[k] == steps[i].id;
    }
}

/// A plan with a blocked set — a non-empty set of steps each awaiting a
/// dependency that either names no step or names another blocked step — can
/// never complete all its steps in a dependency-respecting order. A dependency
/// cycle is such a set, and so is a step with a dangling dependency; by the
/// executor's contract such a plan never ends in success.
pub proof fn lemma_blocked_plan_never_completes(
    steps: Seq<StepV>,
    completed: Seq<Seq<char>>,
    blocked: Set<int>,
)
    requires
        unique_ids(steps),
        dep_order(steps, completed),
        distinct_ids(completed),
        completed_known(steps, completed),
        blocked.len() > 0,
        blocked.finite(),
        forall|i: int| blocked.contains(i) ==> 0 <= i < steps.len(),
        forall|i: int|
            #[trigger] blocked.contains(i) ==> exists|d: int|
                0 <= d < steps[i].dependencies.len() && (!id_known(steps, steps[i].dependencies[d])
                    || exists|j: int|
                    blocked.contains(j) && steps[j].id == steps[i].dependencies[d]),
    ensures
        !all_completed(steps, completed),
{
    if all_completed(steps, completed) {
        // Each blocked step completes somewhere; pick the one completing
        // earliest.
        let pos = |i: int| choose|k: int| 0 <= k < completed.len() && completed[k] == steps[i].id;
        let i0 = blocked.choose();
        assert(blocked.contains(i0));
        assert(exists|m: int|
            blocked.contains(m) && forall|i: int| #[trigger] blocked.contains(i) ==> pos(m) <= pos(
                i,
            )) by {
            lemma_blocked_has_min(steps, completed, blocked, pos);
        }
        let min = choose|m: int|
            blocked.contains(m) && forall|i: int| #[trigger] blocked.contains(i) ==> pos(m) <= pos(
                i,
            );
        let d = choose|d: int|
            0 <= d < steps[min].dependencies.len() && (!id_known(steps, steps[min].dependencies[d])
                || exists|j: int| blocked.contains(j) && steps[j].id == steps[min].dependencies[d]);
        let km = pos(min);
        assert(0 <= km < completed.len() && completed[km] == steps[min].id);
        // Dependency order puts the awaited id before `min` in the log.
        assert(dep_ok(steps, completed, km, min, d));
        let k2 = choose|k2: int| 0 <= k2 < km && completed[k2] == steps[min].dependencies[d];
        if !id_known(steps, steps[min].dependencies[d]) {
            // Yet every completed id names a step: contradiction.
            assert(id_known(steps, completed[k2]));
        } else {
            let j = choose|j: int|
                blocked.contains(j) && steps[j].id == steps[min].dependencies[d];
            // `j` completes at or before k2, earlier than `min`: contradiction
            // with minimality.
            assert(completed[pos(j)] == steps[j].id);
            assert(pos(j) <= k2) by {
                if pos(j) > k2 {
                    assert(completed[pos(j)] == completed[k2]);
                }
            }
            assert(pos(min) <= pos(j));
        }
    }
}

/// Helper: among a non-empty finite set of blocked steps, one completes
/// earliest in the log.
proof fn lemma_blocked_has_min(
    steps: Seq<StepV>,
    completed: Seq<Seq<char>>,
    blocked: Set<int>,
    pos: spec_fn(int) -> int,
)
    requires
        blocked.len() > 0,
        blocked.finite(),
    ensures
        exists|m: int|
            blocked.contains(m) && forall|i: int| #[trigger] blocked.contains(i) ==> pos(m) <= pos(
                i,
            ),
    decreases blocked.len(),
{
    let x = blocked.choose();
    assert(blocked.contains(x));
    let rest = blocked.remove(x);
    if rest.len() == 0 {
        assert forall|i: int| #[trigger] blocked.contains(i) implies pos(x) <= pos(i) by {
            if i != x {
                assert(rest.contains(i));
                assert(rest.len() > 0) by {
                    vstd::set_lib::lemma_set_empty_equivalency_len(rest);
                }
            }
        }
    } else {
        lemma_blocked_has_min(steps, completed, rest, pos);
        let m0 = choose|m: int|
            rest.contains(m) && forall|i: int| #[trigger] rest.contains(i) ==> pos(m) <= pos(i);
        if pos(x) <= pos(m0) {
            assert forall|i: int| #[trigger] blocked.contains(i) implies pos(x) <= pos(i) by {
                if i != x {
                    assert(rest.contains(i));
                }
            }
        } else {
            assert forall|i: int| #[trigger] blocked.contains(i) implies pos(m0) <= pos(i) by {
                if i != x {
                    assert(rest.contains(i));
                }
            }
        }
    }
}


/// The other direction of the deadlock story: whenever no step is ready and
/// some step has not completed, the incomplete steps form a blocked set —
/// each of them awaits a dependency that either names no step or names
/// another incomplete step. Together with `lemma_blocked_plan_never_completes`
/// this makes a blocked set exactly what the deadlock failure reports.
pub proof fn lemma_stuck_means_blocked(steps: Seq<StepV>, completed: Seq<Seq<char>>)
    requires
        forall|i: int|
            0 <= i < steps.len() ==> !step_ready(#[trigger] steps[i], completed),
        exists|i: int| 0 <= i < steps.len() && !contains_id(completed, steps[i].id),
    ensures
        ({
            let blocked = Set::new(
                |i: int| 0 <= i < steps.len() && !contains_id(completed, steps[i].id),
            );
            &&& blocked.finite()
            &&& blocked.len() > 0
            &&& forall|i: int| blocked.contains(i) ==> 0 <= i < steps.len()
            &&& forall|i: int|
                #[trigger] blocked.contains(i) ==> exists|d: int|
                    0 <= d < steps[i].dependencies.len() && (!id_known(
                        steps,
                        steps[i].dependencies[d],
                    ) || exists|j: int|
                        blocked.contains(j) && steps[j].id == steps[i].dependencies[d])
        }),
{
    broadcast use vstd::set_lib::group_set_lib_default;
    broadcast use vstd::set_lib::lemma_set_subset_finite;

    let blocked = Set::new(
        |i: int| 0 <= i < steps.len() && !contains_id(completed, steps[i].id),
    );
    let range = vstd::set_lib::set_int_range(0, steps.len() as int);
    vstd::set_lib::lemma_int_range(0, steps.len() as int);
    assert(blocked <= range);
    assert(blocked.finite());
    let w = choose|i: int| 0 <= i < steps.len() && !contains_id(completed, steps[i].id);
    assert(blocked.contains(w));
    assert(blocked.len() > 0) by {
        if blocked.len() == 0 {
            vstd::set_lib::lemma_set_empty_equivalency_len(blocked);
        }
    }
    assert forall|i: int| #[trigger] blocked.contains(i) implies exists|d: int|
        0 <= d < steps[i].dependencies.len() && (!id_known(steps, steps[i].dependencies[d])
            || exists|j: int|
            blocked.contains(j) && steps[j].id == steps[i].dependencies[d]) by {
        // The step is incomplete yet not ready, so some dependency is not
        // completed; whatever step carries that id, if any, is itself
        // incomplete.
        assert(!step_ready(steps[i], completed));
        assert(!contains_id(completed, steps[i].id));
        let d = choose|d: int|
            0 <= d < steps[i].dependencies.len() && !contains_id(
                completed,
                #[trigger] steps[i].dependencies[d],
            );
        if id_known(steps, steps[i].dependencies[d]) {
            let j = choose|j: int|
                0 <= j < steps.len() && steps[j].id == steps[i].dependencies[d];
            assert(blocked.contains(j));
        }
    }
}

/// Executes a plan round by round: each round runs every step whose
/// dependencies are all completed, and the run ends when nothing is ready —
/// in success if everything completed, in deadlock otherwise.
pub struct WorkflowExecutor<P, E> {
    pub agent: Agent<P, E>,
    pub plan: Plan,
    pub completed_steps: Vec<String>,
}

/// How a run that is mid-round relates to its overall outcome: if the round
/// fails, the run ends there with that failure; otherwise it continues on the
/// round's state with the remaining fuel.
pub open spec fn wf_continues<P: Provider, E: ToolExecutor>(
    goal: (WfState<P, E>, Result<(), WorkflowErrorV>),
    adv: Seq<crate::providers::types::ToolV>,
    tools: Seq<crate::providers::types::Tool>,
    steps: Seq<StepV>,
    round: (WfState<P, E>, Option<WorkflowErrorV>),
    fuel_next: nat,
) -> bool {
    match round.1 {
        Some(e) => goal == (round.0, Err::<(), WorkflowErrorV>(e)),
        None => goal == spec_workflow(round.0, adv, tools, steps, fuel_next),
    }
}

impl<P: Provider, E: ToolExecutor> WorkflowExecutor<P, E> {
    /// The model of the completed log.
    pub open spec fn completed_view(&self) -> Seq<Seq<char>> {
        strs_view(self.completed_steps@)
    }

    /// The model of everything a run changes.
    pub open spec fn state(&self) -> WfState<P, E> {
        WfState {
            provider: self.agent.provider,
            executors: self.agent.dispatcher.registry.executors@,
            messages: self.agent.context.messages_view(),
            completed: self.completed_view(),
        }
    }

    /// A fresh executor: nothing completed yet.
    pub fn new(agent: Agent<P, E>, plan: Plan) -> (r: WorkflowExecutor<P, E>)
        ensures
            r.agent == agent,
            r.plan == plan,
            r.completed_steps@.len() == 0,
    {
        WorkflowExecutor { agent, plan, completed_steps: Vec::new() }
    }

    /// Whether the completed log holds the given id.
    fn completed_contains(&self, id: &str) -> (r: bool)
        ensures
            r == contains_id(self.completed_view(), id@),
    {
        let n = self.completed_steps.len();
        let mut k: usize = 0;
        while k < n
            invariant
                n == self.completed_steps@.len(),
                k <= n,
                forall|p: int| 0 <= p < k ==> self.completed_view()[p] != id@,
            decreases n - k,
        {
            if str_eq(self.completed_steps[k].as_str(), id) {
                proof {
                    broadcast use lemma_strs_view_index, lemma_strs_view_len;

                    assert(self.completed_view()[k as int] == id@);
                }
                return true;
            }
            proof {
                broadcast use lemma_strs_view_index, lemma_strs_view_len;
            }
            k = k + 1;
        }
        proof {
            broadcast use lemma_strs_view_len;
        }
        false
    }

    /// The positions of the steps that are ready right now, in plan order.
    fn get_executable_steps(&self) -> (r: Vec<usize>)
        ensures
            forall|p: int|
                0 <= p < r@.len() ==> 0 <= #[trigger] r@[p] < self.plan@.steps.len() && step_ready(
                    self.plan@.steps[r@[p] as int],
                    self.completed_view(),
                ),
            forall|i: int|
                0 <= i < self.plan@.steps.len() && step_ready(
                    #[trigger] self.plan@.steps[i],
                    self.completed_view(),
                ) ==> exists|p: int| 0 <= p < r@.len() && r@[p] == i,
            r@.len() > 0 || forall|i: int|
                0 <= i < self.plan@.steps.len() ==> !step_ready(
                    #[trigger] self.plan@.steps[i],
                    self.completed_view(),
                ),
            usizes_view(r@) == ready_from(self.plan@.steps, self.completed_view(), 0),
    {
        let ghost sv = self.plan@.steps;
        let n = self.plan.steps.len();
        let mut out: Vec<usize> = Vec::new();
        let mut i: usize = 0;
        while i < n
            invariant
                sv == self.plan@.steps,
                n == self.plan.steps@.len(),
                i <= n,
                forall|p: int|
                    0 <= p < out@.len() ==> 0 <= #[trigger] out@[p] < i && step_ready(
                        sv[out@[p] as int],
                        self.completed_view(),
                    ),
                forall|q: int|
                    0 <= q < i && step_ready(#[trigger] sv[q], self.completed_view()) ==> exists|
                        p: int,
                    | 0 <= p < out@.len() && out@[p] == q,
                ready_from(sv, self.completed_view(), 0) == usizes_view(out@) + ready_from(
                    sv,
                    self.completed_view(),
                    i as int,
                ),
            decreases n - i,
        {
            proof {
                broadcast use lemma_steps_view_index, lemma_steps_view_len, lemma_strs_view_index, lemma_strs_view_len, lemma_usizes_view;
            }
            if !self.completed_contains(self.plan.steps[i].id.as_str()) {
                let dn = self.plan.steps[i].dependencies.len();
                let mut all_done = true;
                let mut d: usize = 0;
                while d < dn
                    invariant
                        sv == self.plan@.steps,
                        i < n == self.plan.steps@.len(),
                        dn == sv[i as int].dependencies.len(),
                        d <= dn,
                        all_done ==> forall|q: int|
                            0 <= q < d ==> contains_id(
                                self.completed_view(),
                                #[trigger] sv[i as int].dependencies[q],
                            ),
                        !all_done ==> !step_ready(sv[i as int], self.completed_view()),
                    decreases dn - d,
                {
                    proof {
                        broadcast use lemma_steps_view_index, lemma_steps_view_len, lemma_strs_view_index, lemma_strs_view_len;
                    }
                    if !self.completed_contains(self.plan.steps[i].dependencies[d].as_str()) {
                        proof {
                            broadcast use lemma_steps_view_index, lemma_steps_view_len, lemma_strs_view_index, lemma_strs_view_len;

                            assert(!contains_id(
                                self.completed_view(),
                                sv[i as int].dependencies[d as int],
                            ));
                        }
                        all_done = false;
                    }
                    d = d + 1;
                }
                if all_done {
                    proof {
                        broadcast use lemma_steps_view_index, lemma_steps_view_len, lemma_strs_view_index, lemma_strs_view_len;

                        assert(step_ready(sv[i as int], self.completed_view()));
                    }
                    let ghost out_old = out@;
                    out.push(i);
                    proof {
                        assert(out@ == out_old.push(i));
                        assert(out@[out@.len() - 1] == i as int);
                        assert forall|q: int|
                            0 <= q < i && step_ready(#[trigger] sv[q], self.completed_view())
                                implies exists|p: int|
                            0 <= p < out@.len() && out@[p] == q by {
                            let p = choose|p: int| 0 <= p < out_old.len() && out_old[p] == q;
                            assert(out@[p] == out_old[p]);
                        }
                    }
                }
            } else {
                proof {
                    broadcast use lemma_steps_view_index, lemma_steps_view_len, lemma_strs_view_index, lemma_strs_view_len;

                    assert(!step_ready(sv[i as int], self.completed_view()));
                }
            }
            i = i + 1;
        }
        if out.len() == 0 {
            proof {
                assert(forall|q: int|
                    0 <= q < n && step_ready(#[trigger] sv[q], self.completed_view())
                        ==> false);
            }
        }
        proof {
            broadcast use lemma_usizes_view;

            assert(ready_from(sv, self.completed_view(), n as int) =~= Seq::<int>::empty());
            assert(usizes_view(out@) =~= usizes_view(out@) + ready_from(
                sv,
                self.completed_view(),
                n as int,
            ));
        }
        out
    }

    /// Runs one step's action. An agent task forwards its prompt verbatim to
    /// the agent's run; the other kinds are delegated to outside collaborators
    /// and succeed here without effect. The plan and the completed log are
    /// untouched either way.
    fn execute_step(&mut self, i: usize) -> (r: Result<(), WorkflowError>)
        requires
            i < old(self).plan.steps@.len(),
            old(self).agent.dispatcher.registry.wf(),
        ensures
            final(self).plan == old(self).plan,
            final(self).completed_steps == old(self).completed_steps,
            final(self).agent.dispatcher.registry.wf(),
            final(self).agent.dispatcher.registry.tools@ == old(
                self,
            ).agent.dispatcher.registry.tools@,
            r is Err ==> old(self).plan@.steps[i as int].action is AgentTask,
            match old(self).plan@.steps[i as int].action {
                ActionV::AgentTask { prompt } => ({
                    let tools = old(self).agent.dispatcher.registry.tools@;
                    let o = spec_run_loop(
                        old(self).agent.provider,
                        tools_view(tools),
                        tools,
                        old(self).agent.dispatcher.registry.executors@,
                        old(self).agent.context.messages_view().push(
                            Message::spec_plain(Role::User, prompt),
                        ),
                        MAX_ITERATIONS as nat,
                    );
                    &&& final(self).agent.provider == o.provider
                    &&& final(self).agent.dispatcher.registry.executors@ == o.executors
                    &&& final(self).agent.context.messages_view() == o.messages
                    &&& match o.result {
                        Ok(_) => r is Ok,
                        Err(ev) => r matches Err(e) && e@ == WorkflowErrorV::Execution(
                            ev.spec_message(),
                        ),
                    }
                }),
                _ => final(self).agent == old(self).agent && r is Ok,
            },
    {
        proof {
            broadcast use lemma_steps_view_index, lemma_steps_view_len;
        }
        match &self.plan.steps[i].action {
            crate::workflow::plan::Action::AgentTask { prompt } => {
                let p = prompt.clone();
                match self.agent.run(p.as_str()) {
                    Ok(_) => Ok(()),
                    Err(e) => {
                        proof {
                            crate::error::lemma_message_view(&e);
                        }
                        Err(WorkflowError::Execution(e.message()))
                    },
                }
            },
            _ => Ok(()),
        }
    }

    /// Round-based readiness scheduling: each round executes every ready step
    /// in plan order and records its completion; the run ends in success when
    /// all steps are completed, and in deadlock when none is ready yet some
    /// remain. A step failure aborts the run at once. The completed log stays
    /// free of repeats, holds only ids of the plan's steps, and — for a plan
    /// with unique ids — respects dependency order; with no agent task in the
    /// plan, the only possible failure is the deadlock.
    pub fn execute(&mut self) -> (r: Result<(), WorkflowError>)
        requires
            old(self).completed_steps@.len() == 0,
            old(self).agent.dispatcher.registry.wf(),
        ensures
            final(self).plan == old(self).plan,
            final(self).agent.dispatcher.registry.wf(),
            distinct_ids(final(self).completed_view()),
            completed_known(old(self).plan@.steps, final(self).completed_view()),
            unique_ids(old(self).plan@.steps) ==> dep_order(
                old(self).plan@.steps,
                final(self).completed_view(),
            ),
            r is Ok ==> final(self).completed_view().len() == old(self).plan@.steps.len()
                && all_completed(old(self).plan@.steps, final(self).completed_view()),
            no_agent_tasks(old(self).plan@.steps) ==> (r matches Err(e) ==> e@
                == wf_deadlock_err()),
            r matches Err(e) ==> (e@ == wf_deadlock_err() && final(self).completed_view().len()
                != old(self).plan@.steps.len() && (forall|i: int|
                0 <= i < old(self).plan@.steps.len() ==> !step_ready(
                    #[trigger] old(self).plan@.steps[i],
                    final(self).completed_view(),
                ))) || (exists|i: int|
                0 <= i < old(self).plan@.steps.len() && (#[trigger] old(
                    self,
                ).plan@.steps[i].action) is AgentTask),
            ({
                let tools = old(self).agent.dispatcher.registry.tools@;
                let o = spec_workflow(
                    old(self).state(),
                    tools_view(tools),
                    tools,
                    old(self).plan@.steps,
                    old(self).plan.steps@.len() + 1,
                );
                final(self).state() == o.0 && (match r {
                    Ok(()) => o.1 is Ok,
                    Err(e) => o.1 matches Err(ev) && e@ == ev,
                })
            }),
    {
        let ghost sv = self.plan@.steps;
        let ghost tools = self.agent.dispatcher.registry.tools@;
        let ghost adv = tools_view(tools);
        let n = self.plan.steps.len();
        let ghost fuel0 = (n + 1) as nat;
        let ghost goal = spec_workflow(self.state(), adv, tools, sv, fuel0);
        let ghost mut fuel_left: nat = fuel0;
        proof {
            broadcast use lemma_steps_view_len, lemma_strs_view_len;
        }
        let mut ready = self.get_executable_steps();
        while ready.len() > 0
            invariant
                sv == self.plan@.steps,
                self.plan == old(self).plan,
                n == self.plan.steps@.len(),
                tools == old(self).agent.dispatcher.registry.tools@,
                tools == self.agent.dispatcher.registry.tools@,
                adv == tools_view(tools),
                self.agent.dispatcher.registry.wf(),
                distinct_ids(self.completed_view()),
                completed_known(sv, self.completed_view()),
                unique_ids(sv) ==> dep_order(sv, self.completed_view()),
                self.completed_view().len() <= n,
                fuel_left >= 1 + n - self.completed_view().len(),
                goal == spec_workflow(
                    old(self).state(),
                    tools_view(old(self).agent.dispatcher.registry.tools@),
                    old(self).agent.dispatcher.registry.tools@,
                    old(self).plan@.steps,
                    old(self).plan.steps@.len() + 1,
                ),
                goal == spec_workflow(self.state(), adv, tools, sv, fuel_left),
                usizes_view(ready@) == ready_from(sv, self.completed_view(), 0),
                forall|p: int|
                    0 <= p < ready@.len() ==> 0 <= #[trigger] ready@[p] < n && step_ready(
                        sv[ready@[p] as int],
                        self.completed_view(),
                    ),
                ready@.len() == 0 ==> forall|i: int|
                    0 <= i < n ==> !step_ready(#[trigger] sv[i], self.completed_view()),
            decreases n - self.completed_view().len(),
        {
            let ghost st_r = self.state();
            let ghost rints = usizes_view(ready@);
            let ghost fuel_next = (fuel_left - 1) as nat;
            let ghost comp_head = self.completed_view();
            proof {
                broadcast use lemma_usizes_view;

                assert(rints.len() > 0);
                assert(rints.skip(0) =~= rints);
                assert(wf_continues(
                    goal,
                    adv,
                    tools,
                    sv,
                    spec_round(st_r, adv, tools, sv, rints.skip(0)),
                    fuel_next,
                ));
            }
            let rn = ready.len();
            let mut k: usize = 0;
            while k < rn
                invariant
                    sv == self.plan@.steps,
                    self.plan == old(self).plan,
                    n == self.plan.steps@.len(),
                    tools == old(self).agent.dispatcher.registry.tools@,
                    tools == self.agent.dispatcher.registry.tools@,
                    adv == tools_view(tools),
                    self.agent.dispatcher.registry.wf(),
                    rn == ready@.len(),
                    rn > 0,
                    k <= rn,
                    rints == usizes_view(ready@),
                    distinct_ids(self.completed_view()),
                    completed_known(sv, self.completed_view()),
                    unique_ids(sv) ==> dep_order(sv, self.completed_view()),
                    self.completed_view().len() <= n,
                    fuel_left >= 1 + n - comp_head.len(),
                    fuel_next == (fuel_left - 1) as nat,
                    fuel_left >= 1,
                    goal == spec_workflow(
                        old(self).state(),
                        tools_view(old(self).agent.dispatcher.registry.tools@),
                        old(self).agent.dispatcher.registry.tools@,
                        old(self).plan@.steps,
                        old(self).plan.steps@.len() + 1,
                    ),
                    wf_continues(
                        goal,
                        adv,
                        tools,
                        sv,
                        spec_round(self.state(), adv, tools, sv, rints.skip(k as int)),
                        fuel_next,
                    ),
                    forall|p: int|
                        0 <= p < rn ==> 0 <= #[trigger] ready@[p] < n && step_ready(
                            sv[ready@[p] as int],
                            comp_head,
                        ),
                    forall|q: int|
                        0 <= q < comp_head.len() ==> comp_head[q] == self.completed_view()[q],
                    comp_head.len() <= self.completed_view().len(),
                    k == 0 ==> self.completed_view() == comp_head,
                    k > 0 ==> self.completed_view().len() > comp_head.len(),
                decreases rn - k,
            {
                let idx = ready[k];
                let ghost st_k = self.state();
                proof {
                    broadcast use lemma_usizes_view, lemma_steps_view_index, lemma_steps_view_len;

                    assert(rints.skip(k as int)[0] == idx as int);
                    assert(rints.skip(k as int).drop_first() =~= rints.skip(k as int + 1));
                }
                match self.execute_step(idx) {
                    Ok(()) => {},
                    Err(e) => {
                        proof {
                            broadcast use lemma_steps_view_index, lemma_steps_view_len;

                            let (st1, err) = spec_exec_action(st_k, adv, tools, sv[idx as int].action);
                            assert(err == Some(e@));
                            assert(self.state() == st1);
                        }
                        return Err(e);
                    },
                }
                proof {
                    broadcast use lemma_steps_view_index, lemma_steps_view_len;

                    let (st1, err) = spec_exec_action(st_k, adv, tools, sv[idx as int].action);
                    assert(err is None);
                    assert(self.state() == st1);
                }
                let id = self.plan.steps[idx].id.clone();
                if !self.completed_contains(id.as_str()) {
                    proof {
                        broadcast use lemma_steps_view_index, lemma_steps_view_len, lemma_strs_view_index, lemma_strs_view_len;

                        assert(!contains_id(self.completed_view(), sv[idx as int].id));
                    }
                    let ghost old_comp = self.completed_view();
                    self.completed_steps.push(id);
                    proof {
                        broadcast use lemma_steps_view_index, lemma_steps_view_len, lemma_strs_view_index, lemma_strs_view_len;

                        let comp2 = self.completed_view();
                        assert(comp2.len() == old_comp.len() + 1);
                        assert(forall|q: int|
                            0 <= q < old_comp.len() ==> comp2[q] == old_comp[q]);
                        assert(comp2[old_comp.len() as int] == sv[idx as int].id);
                        assert(comp2 =~= old_comp.push(sv[idx as int].id));
                        assert(distinct_ids(comp2)) by {
                            assert forall|a: int, b: int| 0 <= a < b < comp2.len() implies comp2[a]
                                != comp2[b] by {
                                if b == old_comp.len() {
                                    assert(!contains_id(old_comp, comp2[b]));
                                }
                            }
                        }
                        assert(completed_known(sv, comp2)) by {
                            assert forall|q: int| 0 <= q < comp2.len() implies id_known(
                                sv,
                                #[trigger] comp2[q],
                            ) by {
                                if q == old_comp.len() {
                                    assert(sv[idx as int].id == comp2[q]);
                                }
                            }
                        }
                        lemma_completed_len_bound(sv, comp2);
                        if unique_ids(sv) {
                            lemma_push_keeps_dep_order(sv, old_comp, comp_head, idx as int);
                        }
                    }
                } else {
                    proof {
                        broadcast use lemma_steps_view_index, lemma_steps_view_len, lemma_strs_view_index, lemma_strs_view_len;
                    }
                }
                proof {
                    if k == 0 {
                        assert(step_ready(sv[ready@[0] as int], comp_head));
                        assert(!contains_id(comp_head, sv[ready@[0] as int].id));
                    }
                }
                k = k + 1;
            }
            proof {
                assert(rints.skip(rn as int) =~= Seq::<int>::empty());
                fuel_left = fuel_next;
            }
            ready = self.get_executable_steps();
        }
        proof {
            broadcast use lemma_steps_view_len, lemma_strs_view_len, lemma_usizes_view;

            assert(ready_from(sv, self.completed_view(), 0).len() == 0);
        }
        if self.completed_steps.len() == n {
            proof {
                lemma_full_log_covers(sv, self.completed_view());
                broadcast use lemma_strs_view_len;
            }
            Ok(())
        } else {
            proof {
                broadcast use lemma_strs_view_len;
            }
            Err(WorkflowError::Execution("Deadlock or missing dependencies detected".to_owned()))
        }
    }

}

/// Pushing the id of a step whose dependencies were already completed keeps
/// the log dependency-ordered, when ids are unique.
#[verifier::rlimit(60)]
proof fn lemma_push_keeps_dep_order(
    steps: Seq<StepV>,
    old_comp: Seq<Seq<char>>,
    head: Seq<Seq<char>>,
    idx: int,
)
    requires
        unique_ids(steps),
        0 <= idx < steps.len(),
        dep_order(steps, old_comp),
        step_ready(steps[idx], head),
        head.len() <= old_comp.len(),
        forall|q: int| 0 <= q < head.len() ==> head[q] == old_comp[q],
    ensures
        dep_order(steps, old_comp.push(steps[idx].id)),
{
    let comp2 = old_comp.push(steps[idx].id);
    assert(dep_order(steps, comp2)) by {
        assert forall|k: int, i: int, d: int| #[trigger] dep_ok(steps, comp2, k, i, d) by {
            if !(0 <= k < comp2.len() && 0 <= i < steps.len() && steps[i].id == comp2[k] && 0 <= d
                < steps[i].dependencies.len()) {
            } else if k < old_comp.len() {
                assert(steps[i].id == old_comp[k]);
                assert(dep_ok(steps, old_comp, k, i, d));
                let k2 = choose|k2: int| 0 <= k2 < k && old_comp[k2] == steps[i].dependencies[d];
                assert(comp2[k2] == old_comp[k2]);
                assert(exists|k2: int| 0 <= k2 < k && comp2[k2] == steps[i].dependencies[d]);
            } else {
                // the new entry: only step idx carries this id
                assert(comp2[k] == steps[idx].id);
                assert(i == idx) by {
                    if i != idx {
                        if i < idx {
                            assert(steps[i].id != steps[idx].id);
                        } else {
                            assert(steps[idx].id != steps[i].id);
                        }
                    }
                }
                assert(contains_id(head, steps[idx].dependencies[d]));
                let k2 = choose|k2: int| 0 <= k2 < head.len() && head[k2] == steps[idx].dependencies[d];
                assert(comp2[k2] == old_comp[k2]);
                assert(old_comp[k2] == head[k2]);
            }
        }

    }
}

} // verus!
