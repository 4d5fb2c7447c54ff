use crate::text::str_eq;
use vstd::prelude::*;
use vstd::string::StringExecFns;

verus! {

/// The category a generated document belongs to, as named in plan files.
#[derive(Debug, Clone, Copy, PartialEq, Eq, Structural)]
pub enum DocCategory {
    Tutorial,
    HowTo,
    Explanation,
    Reference,
}

/// What a workflow step does. Only `AgentTask` has executable semantics in
/// this library; the other kinds are recognized and delegated to outside
/// collaborators, so executing them here succeeds without effect.
#[derive(Debug)]
pub enum Action {
    ScanRepository,
    AnalyzeCode,
    GenerateDocumentation { category: DocCategory },
    ExecuteCommand { command: String },
    AgentTask { prompt: String },
}

/// One named step of a plan: an action plus the ids of the steps it awaits.
#[derive(Debug)]
pub struct WorkflowStep {
    pub id: String,
    pub description: String,
    pub action: Action,
    pub dependencies: Vec<String>,
}

/// An informational artifact record carried by a plan.
#[derive(Debug)]
pub struct Deliverable {
    pub name: String,
    pub description: String,
    pub path: String,
}

/// The declarative representation of a workflow, independent of the text
/// encoding it was read from.
#[derive(Debug)]
pub struct Plan {
    pub name: String,
    pub description: String,
    pub repository: Option<String>,
    pub steps: Vec<WorkflowStep>,
    pub deliverables: Vec<Deliverable>,
}

/// The mathematical model of an `Action`.
pub enum ActionV {
    ScanRepository,
    AnalyzeCode,
    GenerateDocumentation { category: DocCategory },
    ExecuteCommand { command: Seq<char> },
    AgentTask { prompt: Seq<char> },
}

/// The mathematical model of a `WorkflowStep`.
pub struct StepV {
    pub id: Seq<char>,
    pub description: Seq<char>,
    pub action: ActionV,
    pub dependencies: Seq<Seq<char>>,
}

/// The mathematical model of a `Deliverable`.
pub struct DeliverableV {
    pub name: Seq<char>,
    pub description: Seq<char>,
    pub path: Seq<char>,
}

/// The mathematical model of a `Plan`.
pub struct PlanV {
    pub name: Seq<char>,
    pub description: Seq<char>,
    pub repository: Option<Seq<char>>,
    pub steps: Seq<StepV>,
    pub deliverables: Seq<DeliverableV>,
}

/// What an action denotes.
pub open spec fn action_view(a: Action) -> ActionV {
    match a {
        Action::ScanRepository => ActionV::ScanRepository,
        Action::AnalyzeCode => ActionV::AnalyzeCode,
        Action::GenerateDocumentation { category } => ActionV::GenerateDocumentation { category },
        Action::ExecuteCommand { command } => ActionV::ExecuteCommand { command: command@ },
        Action::AgentTask { prompt } => ActionV::AgentTask { prompt: prompt@ },
    }
}

/// The character sequences of a string sequence, in order.
pub open spec fn strs_view(s: Seq<String>) -> Seq<Seq<char>> {
    Seq::new(s.len(), |i: int| if 0 <= i < s.len() { s[i]@ } else { Seq::empty() })
}

/// Indexing the model of a string sequence gives the characters of the string
/// there.
pub broadcast proof fn lemma_strs_view_index(s: Seq<String>, i: int)
    requires
        0 <= i < s.len(),
    ensures
        (#[trigger] strs_view(s)[i]) == s[i]@,
{
}

/// A string sequence and its model have the same length.
pub broadcast proof fn lemma_strs_view_len(s: Seq<String>)
    ensures
        (#[trigger] strs_view(s)).len() == s.len(),
{
}

/// What a step denotes.
pub open spec fn step_view(s: WorkflowStep) -> StepV {
    StepV {
        id: s.id@,
        description: s.description@,
        action: action_view(s.action),
        dependencies: strs_view(s.dependencies@),
    }
}

/// What the steps of a plan denote, in order.
pub open spec fn steps_view(s: Seq<WorkflowStep>) -> Seq<StepV> {
    Seq::new(s.len(), |i: int| if 0 <= i < s.len() { step_view(s[i]) } else { step_view(s[0]) })
}

/// Indexing the model of a step sequence gives the model of the step there.
pub broadcast proof fn lemma_steps_view_index(steps: Seq<WorkflowStep>, i: int)
    requires
        0 <= i < steps.len(),
    ensures
        (#[trigger] steps_view(steps)[i]) == step_view(steps[i]),
{
}

/// A step sequence and its model have the same length.
pub broadcast proof fn lemma_steps_view_len(steps: Seq<WorkflowStep>)
    ensures
        (#[trigger] steps_view(steps)).len() == steps.len(),
{
}

/// What a deliverable denotes.
pub open spec fn deliverable_view(d: Deliverable) -> DeliverableV {
    DeliverableV { name: d.name@, description: d.description@, path: d.path@ }
}

/// What the deliverables of a plan denote, in order.
pub open spec fn deliverables_view(s: Seq<Deliverable>) -> Seq<DeliverableV> {
    Seq::new(
        s.len(),
        |i: int| if 0 <= i < s.len() { deliverable_view(s[i]) } else { deliverable_view(s[0]) },
    )
}

impl View for Action {
    type V = ActionV;

    open spec fn view(&self) -> ActionV {
        action_view(*self)
    }
}

impl View for WorkflowStep {
    type V = StepV;

    open spec fn view(&self) -> StepV {
        step_view(*self)
    }
}

impl View for Plan {
    type V = PlanV;

    open spec fn view(&self) -> PlanV {
        PlanV {
            name: self.name@,
            description: self.description@,
            repository: match &self.repository {
                Some(r) => Some(r@),
                None => None,
            },
            steps: steps_view(self.steps@),
            deliverables: deliverables_view(self.deliverables@),
        }
    }
}

/// Whether an earlier step carries the same id.
pub open spec fn dup_at(steps: Seq<StepV>, j: int) -> bool {
    exists|i: int| 0 <= i < j && steps[i].id == steps[j].id
}

/// The first position whose id already occurred, scanning from `j`.
pub open spec fn first_dup_from(steps: Seq<StepV>, j: int) -> Option<int>
    decreases steps.len() - j,
{
    if j < 0 || j >= steps.len() {
        None
    } else if dup_at(steps, j) {
        Some(j)
    } else {
        first_dup_from(steps, j + 1)
    }
}

/// Whether some step of the plan carries the given id.
pub open spec fn id_known(steps: Seq<StepV>, id: Seq<char>) -> bool {
    exists|i: int| 0 <= i < steps.len() && steps[i].id == id
}

/// The first unknown dependency of step `j`, scanning its dependencies from
/// `k`.
pub open spec fn first_bad_dep_in(steps: Seq<StepV>, j: int, k: int) -> Option<int>
    decreases steps[j].dependencies.len() - k,
{
    if j < 0 || j >= steps.len() || k < 0 || k >= steps[j].dependencies.len() {
        None
    } else if !id_known(steps, steps[j].dependencies[k]) {
        Some(k)
    } else {
        first_bad_dep_in(steps, j, k + 1)
    }
}

/// The first step with an unknown dependency, scanning steps from `j`: the
/// step's position and the dependency's position within it.
pub open spec fn first_bad_dep_from(steps: Seq<StepV>, j: int) -> Option<(int, int)>
    decreases steps.len() - j,
{
    if j < 0 || j >= steps.len() {
        None
    } else {
        match first_bad_dep_in(steps, j, 0) {
            Some(k) => Some((j, k)),
            None => first_bad_dep_from(steps, j + 1),
        }
    }
}

/// What validation answers: the first duplicate id, else the first unknown
/// dependency, else success.
pub open spec fn spec_validate(steps: Seq<StepV>) -> Result<(), Seq<char>> {
    match first_dup_from(steps, 0) {
        Some(j) => Err("Duplicate step ID: "@ + steps[j].id),
        None => match first_bad_dep_from(steps, 0) {
            Some((j, k)) => Err(
                "Step "@ + steps[j].id + " depends on unknown step "@ + steps[j].dependencies[k],
            ),
            None => Ok(()),
        },
    }
}

/// Whether all step ids are unique and every dependency names a step of the
/// plan: the invariant that must hold before execution begins. Note that
/// neither condition excludes a dependency cycle; a cyclic plan passes
/// validation and surfaces only as a runtime deadlock.
pub open spec fn plan_wf(steps: Seq<StepV>) -> bool {
    &&& forall|i: int, j: int| 0 <= i < j < steps.len() ==> steps[i].id != steps[j].id
    &&& forall|j: int, k: int|
        0 <= j < steps.len() && 0 <= k < steps[j].dependencies.len() ==> id_known(
            steps,
            #[trigger] steps[j].dependencies[k],
        )
}

/// A found duplicate really is one, at or after where the scan began.
pub proof fn lemma_first_dup_some(steps: Seq<StepV>, j: int)
    requires
        0 <= j,
    ensures
        first_dup_from(steps, j) matches Some(q) ==> j <= q < steps.len() && dup_at(steps, q),
    decreases steps.len() - j,
{
    if j < steps.len() && !dup_at(steps, j) {
        lemma_first_dup_some(steps, j + 1);
    }
}

/// A found unknown dependency really is unknown, within bounds.
pub proof fn lemma_first_bad_in_some(steps: Seq<StepV>, j: int, k: int)
    requires
        0 <= j < steps.len(),
        0 <= k,
    ensures
        first_bad_dep_in(steps, j, k) matches Some(q) ==> k <= q < steps[j].dependencies.len()
            && !id_known(steps, steps[j].dependencies[q]),
    decreases steps[j].dependencies.len() - k,
{
    if k < steps[j].dependencies.len() && id_known(steps, steps[j].dependencies[k]) {
        lemma_first_bad_in_some(steps, j, k + 1);
    }
}

/// A found step with an unknown dependency really has one, within bounds.
pub proof fn lemma_first_bad_some(steps: Seq<StepV>, j: int)
    requires
        0 <= j,
    ensures
        first_bad_dep_from(steps, j) matches Some((q, k)) ==> j <= q < steps.len() && 0 <= k
            < steps[q].dependencies.len() && !id_known(steps, steps[q].dependencies[k]),
    decreases steps.len() - j,
{
    if j < steps.len() {
        lemma_first_bad_in_some(steps, j, 0);
        if first_bad_dep_in(steps, j, 0) is None {
            lemma_first_bad_some(steps, j + 1);
        }
    }
}

/// Validation succeeds exactly on well-formed plans.
pub proof fn lemma_validate_ok_iff(steps: Seq<StepV>)
    ensures
        spec_validate(steps) is Ok <==> plan_wf(steps),
{
    lemma_first_dup_none_iff(steps, 0);
    lemma_first_bad_none_iff(steps, 0);
    lemma_first_dup_some(steps, 0);
    lemma_first_bad_some(steps, 0);
    if spec_validate(steps) is Ok {
        assert forall|i: int, j: int| 0 <= i < j < steps.len() implies steps[i].id
            != steps[j].id by {
            assert(!dup_at(steps, j));
        }
    } else {
        match first_dup_from(steps, 0) {
            Some(q) => {
                let i = choose|i: int| 0 <= i < q && steps[i].id == steps[q].id;
                assert(!plan_wf(steps));
            },
            None => {
                assert(first_bad_dep_from(steps, 0) is Some);
            },
        }
    }
}

/// No duplicate is found from `j` exactly when no position at or after `j`
/// repeats an earlier id.
pub proof fn lemma_first_dup_none_iff(steps: Seq<StepV>, j: int)
    requires
        0 <= j <= steps.len(),
    ensures
        first_dup_from(steps, j) is None <==> forall|q: int|
            j <= q < steps.len() ==> !dup_at(steps, q),
    decreases steps.len() - j,
{
    if j < steps.len() {
        lemma_first_dup_none_iff(steps, j + 1);
    }
}

/// No unknown dependency is found within step `j` from `k` exactly when all
/// its dependencies at or after `k` are known.
pub proof fn lemma_first_bad_in_none_iff(steps: Seq<StepV>, j: int, k: int)
    requires
        0 <= j < steps.len(),
        0 <= k <= steps[j].dependencies.len(),
    ensures
        first_bad_dep_in(steps, j, k) is None <==> forall|q: int|
            k <= q < steps[j].dependencies.len() ==> id_known(steps, #[trigger] steps[j].dependencies[q]),
    decreases steps[j].dependencies.len() - k,
{
    if k < steps[j].dependencies.len() {
        lemma_first_bad_in_none_iff(steps, j, k + 1);
    }
}

/// No unknown dependency is found from step `j` on exactly when every
/// dependency of every step at or after `j` is known.
pub proof fn lemma_first_bad_none_iff(steps: Seq<StepV>, j: int)
    requires
        0 <= j <= steps.len(),
    ensures
        first_bad_dep_from(steps, j) is None <==> forall|q: int, k: int|
            j <= q < steps.len() && 0 <= k < steps[q].dependencies.len() ==> id_known(
                steps,
                #[trigger] steps[q].dependencies[k],
            ),
    decreases steps.len() - j,
{
    if j < steps.len() {
        lemma_first_bad_none_iff(steps, j + 1);
        lemma_first_bad_in_none_iff(steps, j, 0);
    }
}

impl Plan {
    /// Checks that all step ids are unique and that every dependency names a
    /// step of this plan, reporting the first violation in scan order. Cycles
    /// are not checked here: a cyclic plan passes and fails only at run time,
    /// as a deadlock.
    pub fn validate(&self) -> (r: Result<(), String>)
        ensures
            match r {
                Ok(()) => spec_validate(self@.steps) is Ok && plan_wf(self@.steps),
                Err(m) => spec_validate(self@.steps) matches Err(sm) && m@ == sm,
            },
    {
        proof {
            broadcast use lemma_steps_view_index, lemma_steps_view_len, lemma_strs_view_index, lemma_strs_view_len;
        }
        let ghost sv = self@.steps;
        let n = self.steps.len();
        let mut j: usize = 0;
        while j < n
            invariant
                sv == self@.steps,
                n == self.steps@.len(),
                j <= n,
                forall|q: int| 0 <= q < j ==> !dup_at(self@.steps, q),
                first_dup_from(self@.steps, 0) == first_dup_from(self@.steps, j as int),
            decreases n - j,
        {
            let mut i: usize = 0;
            while i < j
                invariant
                    sv == self@.steps,
                    i <= j < n == self.steps@.len(),
                    first_dup_from(sv, 0) == first_dup_from(sv, j as int),
                    forall|q: int| 0 <= q < i ==> self@.steps[q].id != self@.steps[j as int].id,
                decreases j - i,
            {
                if str_eq(self.steps[i].id.as_str(), self.steps[j].id.as_str()) {
                    proof {
                        broadcast use lemma_steps_view_index, lemma_steps_view_len, lemma_strs_view_index, lemma_strs_view_len;

                        assert(sv[i as int].id == self.steps@[i as int].id@);
                        assert(sv[j as int].id == self.steps@[j as int].id@);
                        assert(dup_at(sv, j as int));
                        lemma_first_dup_some(sv, 0);
                    }
                    let mut m = "Duplicate step ID: ".to_owned();
                    m.append(self.steps[j].id.as_str());
                    proof {
                        broadcast use lemma_steps_view_index, lemma_steps_view_len, lemma_strs_view_index, lemma_strs_view_len;

                        assert(first_dup_from(sv, j as int) == Some(j as int));
                        assert(first_dup_from(sv, 0) == Some(j as int));
                        assert(spec_validate(sv) == Err::<(), Seq<char>>(
                            "Duplicate step ID: "@ + sv[j as int].id,
                        ));
                        assert(m@ == "Duplicate step ID: "@ + sv[j as int].id);
                    }
                    return Err(m);
                }
                i = i + 1;
            }
            proof {
                broadcast use lemma_steps_view_index, lemma_steps_view_len, lemma_strs_view_index, lemma_strs_view_len;

                assert(!dup_at(sv, j as int)) by {
                    if dup_at(sv, j as int) {
                        let i = choose|i: int| 0 <= i < j && sv[i].id == sv[j as int].id;
                        assert(self@.steps[i].id != self@.steps[j as int].id);
                    }
                }
            }
            j = j + 1;
        }
        let mut q: usize = 0;
        while q < n
            invariant
                sv == self@.steps,
                n == self.steps@.len(),
                q <= n,
                forall|p: int| 0 <= p < self.steps@.len() ==> !dup_at(self@.steps, p),
                first_dup_from(self@.steps, 0) is None,
                forall|p: int| 0 <= p < q ==> first_bad_dep_in(self@.steps, p, 0) is None,
                first_bad_dep_from(self@.steps, 0) == first_bad_dep_from(self@.steps, q as int),
            decreases n - q,
        {
            let deps = self.steps[q].dependencies.len();
            let mut k: usize = 0;
            while k < deps
                invariant
                    sv == self@.steps,
                    q < n == self.steps@.len(),
                    deps == self@.steps[q as int].dependencies.len(),
                    k <= deps,
                    first_dup_from(sv, 0) is None,
                    first_bad_dep_from(sv, 0) == first_bad_dep_from(sv, q as int),
                    forall|p: int|
                        0 <= p < k ==> id_known(
                            self@.steps,
                            #[trigger] self@.steps[q as int].dependencies[p],
                        ),
                    first_bad_dep_in(self@.steps, q as int, 0) == first_bad_dep_in(
                        self@.steps,
                        q as int,
                        k as int,
                    ),
                decreases deps - k,
            {
                let mut found = false;
                let mut i: usize = 0;
                while i < n
                    invariant
                        sv == self@.steps,
                        q < n == self.steps@.len(),
                        k < deps == self@.steps[q as int].dependencies.len(),
                        i <= n,
                        !found ==> forall|p: int|
                            0 <= p < i ==> self@.steps[p].id != self@.steps[
                                q as int
                            ].dependencies[k as int],
                        found ==> id_known(
                            self@.steps,
                            self@.steps[q as int].dependencies[k as int],
                        ),
                    decreases n - i,
                {
                    if str_eq(
                        self.steps[i].id.as_str(),
                        self.steps[q].dependencies[k].as_str(),
                    ) {
                        proof {
                            broadcast use lemma_steps_view_index, lemma_steps_view_len, lemma_strs_view_index, lemma_strs_view_len;

                            assert(sv[i as int].id == self@.steps[q as int].dependencies[
                                k as int
                            ]);
                        }
                        found = true;
                    }
                    i = i + 1;
                }
                if !found {
                    proof {
                        broadcast use lemma_steps_view_index, lemma_steps_view_len, lemma_strs_view_index, lemma_strs_view_len;

                        assert(!id_known(sv, sv[q as int].dependencies[k as int])) by {
                            if id_known(sv, sv[q as int].dependencies[k as int]) {
                                let w = choose|w: int|
                                    0 <= w < sv.len() && sv[w].id == sv[
                                        q as int
                                    ].dependencies[k as int];
                                assert(self@.steps[w].id == self.steps@[w].id@);
                            }
                        }
                        assert(first_bad_dep_in(sv, q as int, k as int) == Some(k as int));
                    }
                    let mut m = "Step ".to_owned();
                    m.append(self.steps[q].id.as_str());
                    m.append(" depends on unknown step ");
                    m.append(self.steps[q].dependencies[k].as_str());
                    proof {
                        broadcast use lemma_steps_view_index, lemma_steps_view_len, lemma_strs_view_index, lemma_strs_view_len;

                        assert(first_bad_dep_from(sv, q as int) == Some((q as int, k as int)));
                        assert(first_bad_dep_from(sv, 0) == Some((q as int, k as int)));
                        assert(spec_validate(sv) == Err::<(), Seq<char>>(
                            "Step "@ + sv[q as int].id + " depends on unknown step "@ + sv[
                                q as int
                            ].dependencies[k as int],
                        ));
                        assert(m@ == "Step "@ + sv[q as int].id + " depends on unknown step "@
                            + sv[q as int].dependencies[k as int]);
                    }
                    return Err(m);
                }
                k = k + 1;
            }
            q = q + 1;
        }
        proof {
            broadcast use lemma_steps_view_index, lemma_steps_view_len, lemma_strs_view_index, lemma_strs_view_len;

            lemma_validate_ok_iff(sv);
            lemma_first_dup_none_iff(sv, 0);
            lemma_first_bad_none_iff(sv, 0);
        }
        Ok(())
    }
}

} // verus!
