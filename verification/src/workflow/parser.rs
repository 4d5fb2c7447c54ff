use crate::error::{WorkflowError, WorkflowErrorV, XzardgzError, XzardgzErrorV};
use crate::json::{spec_parse_json, JsonSpec, JsonValue};
use crate::text::{str_eq, string_of};
use crate::workflow::plan::{
    Action, ActionV, Deliverable, DeliverableV, DocCategory, Plan, PlanV, StepV, WorkflowStep,
};
use crate::workflow::yaml::spec_parse_yaml;
use vstd::prelude::*;
use vstd::string::StringExecFns;

verus! {

/// The first value stored under the given key, if any.
pub open spec fn sp_obj_get(ms: Seq<(Seq<char>, JsonSpec)>, key: Seq<char>) -> Option<JsonSpec>
    decreases ms.len(),
{
    if ms.len() == 0 {
        None
    } else if ms[0].0 == key {
        Some(ms[0].1)
    } else {
        sp_obj_get(ms.drop_first(), key)
    }
}

/// The text of a string value, if it is one.
pub open spec fn sp_as_str(v: JsonSpec) -> Option<Seq<char>> {
    match v {
        JsonSpec::Str(s) => Some(s),
        _ => None,
    }
}

/// The document category a tag names, if any.
pub open spec fn sp_category(t: Seq<char>) -> Option<DocCategory> {
    if t == "tutorial"@ {
        Some(DocCategory::Tutorial)
    } else if t == "how_to"@ {
        Some(DocCategory::HowTo)
    } else if t == "explanation"@ {
        Some(DocCategory::Explanation)
    } else if t == "reference"@ {
        Some(DocCategory::Reference)
    } else {
        None
    }
}

/// The action a tagged value denotes: a `type` tag plus, for the kinds that
/// take them, parameters under `params`.
pub open spec fn sp_action_from(v: JsonSpec) -> Option<ActionV> {
    match v {
        JsonSpec::Obj(ms) => match sp_obj_get(ms, "type"@) {
            Some(tv) => match sp_as_str(tv) {
                Some(tag) => {
                    let params = sp_obj_get(ms, "params"@);
                    if tag == "scan_repository"@ {
                        Some(ActionV::ScanRepository)
                    } else if tag == "analyze_code"@ {
                        Some(ActionV::AnalyzeCode)
                    } else if tag == "generate_docs"@ {
                        match params {
                            Some(JsonSpec::Obj(pm)) => match sp_obj_get(pm, "category"@) {
                                Some(cv) => match sp_as_str(cv) {
                                    Some(ct) => match sp_category(ct) {
                                        Some(c) => Some(
                                            ActionV::GenerateDocumentation { category: c },
                                        ),
                                        None => None,
                                    },
                                    None => None,
                                },
                                None => None,
                            },
                            _ => None,
                        }
                    } else if tag == "execute_command"@ {
                        match params {
                            Some(JsonSpec::Obj(pm)) => match sp_obj_get(pm, "command"@) {
                                Some(cv) => match sp_as_str(cv) {
                                    Some(cmd) => Some(ActionV::ExecuteCommand { command: cmd }),
                                    None => None,
                                },
                                None => None,
                            },
                            _ => None,
                        }
                    } else if tag == "agent_task"@ {
                        match params {
                            Some(JsonSpec::Obj(pm)) => match sp_obj_get(pm, "prompt"@) {
                                Some(pv) => match sp_as_str(pv) {
                                    Some(pr) => Some(ActionV::AgentTask { prompt: pr }),
                                    None => None,
                                },
                                None => None,
                            },
                            _ => None,
                        }
                    } else {
                        None
                    }
                },
                None => None,
            },
            None => None,
        },
        _ => None,
    }
}

/// The texts of a list of string values, if they all are ones.
pub open spec fn sp_strs_from(items: Seq<JsonSpec>) -> Option<Seq<Seq<char>>>
    decreases items.len(),
{
    if items.len() == 0 {
        Some(Seq::empty())
    } else {
        match sp_as_str(items[0]) {
            Some(s) => match sp_strs_from(items.drop_first()) {
                Some(rest) => Some(seq![s] + rest),
                None => None,
            },
            None => None,
        }
    }
}

/// The step an object value denotes: id, description, action, and an optional
/// dependency list that defaults to empty when absent.
pub open spec fn sp_step_from(v: JsonSpec) -> Option<StepV> {
    match v {
        JsonSpec::Obj(ms) => {
            match (sp_obj_get(ms, "id"@), sp_obj_get(ms, "description"@), sp_obj_get(ms, "action"@)) {
                (Some(JsonSpec::Str(ids)), Some(JsonSpec::Str(ds)), Some(av)) => {
                    match sp_action_from(av) {
                        Some(a) => match sp_obj_get(ms, "dependencies"@) {
                            None => Some(
                                StepV {
                                    id: ids,
                                    description: ds,
                                    action: a,
                                    dependencies: Seq::empty(),
                                },
                            ),
                            Some(JsonSpec::Arr(items)) => match sp_strs_from(items) {
                                Some(deps) => Some(
                                    StepV { id: ids, description: ds, action: a, dependencies: deps },
                                ),
                                None => None,
                            },
                            Some(_) => None,
                        },
                        None => None,
                    }
                },
                _ => None,
            }
        },
        _ => None,
    }
}

/// The steps a list of object values denotes, if they all are ones.
pub open spec fn sp_steps_from(items: Seq<JsonSpec>) -> Option<Seq<StepV>>
    decreases items.len(),
{
    if items.len() == 0 {
        Some(Seq::empty())
    } else {
        match sp_step_from(items[0]) {
            Some(st) => match sp_steps_from(items.drop_first()) {
                Some(rest) => Some(seq![st] + rest),
                None => None,
            },
            None => None,
        }
    }
}

/// The deliverable an object value denotes: name, description and path.
pub open spec fn sp_deliverable_from(v: JsonSpec) -> Option<DeliverableV> {
    match v {
        JsonSpec::Obj(ms) => {
            match (sp_obj_get(ms, "name"@), sp_obj_get(ms, "description"@), sp_obj_get(ms, "path"@)) {
                (Some(JsonSpec::Str(ns)), Some(JsonSpec::Str(ds)), Some(JsonSpec::Str(ps))) => Some(
                    DeliverableV { name: ns, description: ds, path: ps },
                ),
                _ => None,
            }
        },
        _ => None,
    }
}

/// The deliverables a list of object values denotes, if they all are ones.
pub open spec fn sp_deliverables_from(items: Seq<JsonSpec>) -> Option<Seq<DeliverableV>>
    decreases items.len(),
{
    if items.len() == 0 {
        Some(Seq::empty())
    } else {
        match sp_deliverable_from(items[0]) {
            Some(d) => match sp_deliverables_from(items.drop_first()) {
                Some(rest) => Some(seq![d] + rest),
                None => None,
            },
            None => None,
        }
    }
}

/// The plan an object value denotes: name, description, an optional repository
/// (absent or null means none), the steps, and deliverables that default to
/// empty when absent.
pub open spec fn sp_plan_from(v: JsonSpec) -> Option<PlanV> {
    match v {
        JsonSpec::Obj(ms) => {
            match (sp_obj_get(ms, "name"@), sp_obj_get(ms, "description"@), sp_obj_get(ms, "steps"@)) {
                (Some(JsonSpec::Str(ns)), Some(JsonSpec::Str(ds)), Some(JsonSpec::Arr(items))) => {
                    match sp_steps_from(items) {
                        Some(steps) => {
                            let repository = match sp_obj_get(ms, "repository"@) {
                                None => Some(None),
                                Some(JsonSpec::Null) => Some(None),
                                Some(JsonSpec::Str(r)) => Some(Some(r)),
                                Some(_) => None::<Option<Seq<char>>>,
                            };
                            let deliverables = match sp_obj_get(ms, "deliverables"@) {
                                None => Some(Seq::<DeliverableV>::empty()),
                                Some(JsonSpec::Arr(dl)) => sp_deliverables_from(dl),
                                Some(JsonSpec::Null) => Some(Seq::<DeliverableV>::empty()),
                                Some(_) => None,
                            };
                            match (repository, deliverables) {
                                (Some(repo), Some(dls)) => Some(
                                    PlanV {
                                        name: ns,
                                        description: ds,
                                        repository: repo,
                                        steps: steps,
                                        deliverables: dls,
                                    },
                                ),
                                _ => None,
                            }
                        },
                        None => None,
                    }
                },
                _ => None,
            }
        },
        _ => None,
    }
}

/// What parsing a plan from the object encoding yields.
pub open spec fn spec_parse_json_plan(s: Seq<char>) -> Option<PlanV> {
    match spec_parse_json(s) {
        None => None,
        Some(v) => sp_plan_from(v),
    }
}

/// What parsing a plan from the line-oriented encoding yields.
pub open spec fn spec_parse_yaml_plan(s: Seq<char>) -> Option<PlanV> {
    match spec_parse_yaml(s) {
        None => None,
        Some(v) => sp_plan_from(v),
    }
}

/// The error reported for a text that does not encode a plan.
pub open spec fn invalid_plan_err() -> XzardgzErrorV {
    XzardgzErrorV::Workflow(WorkflowErrorV::Parse("invalid plan document"@))
}

/// The error reported for free-form text without a fenced code block.
pub open spec fn no_block_err() -> XzardgzErrorV {
    XzardgzErrorV::Workflow(WorkflowErrorV::Parse("No code block found in markdown"@))
}

/// Whether an executable parse outcome denotes the modelled one, with the
/// given error for a refused text.
pub open spec fn plan_result_matches(
    r: Result<Plan, XzardgzError>,
    s: Option<PlanV>,
    err: XzardgzErrorV,
) -> bool {
    match r {
        Ok(p) => s matches Some(pv) && p@ == pv,
        Err(e) => s is None && e@ == err,
    }
}


/// The members a string-keyed pair list denotes.
pub open spec fn mems_view(ms: Seq<(String, JsonValue)>) -> Seq<(Seq<char>, JsonSpec)> {
    Seq::new(ms.len(), |i: int| if 0 <= i < ms.len() { (ms[i].0@, ms[i].1@) } else { (Seq::empty(), JsonSpec::Null) })
}

/// Indexing the model of a member list gives the models of the pair there.
pub broadcast proof fn lemma_mems_view_index(ms: Seq<(String, JsonValue)>, i: int)
    requires
        0 <= i < ms.len(),
    ensures
        (#[trigger] mems_view(ms)[i]) == (ms[i].0@, ms[i].1@),
{
}

/// A member list and its model have the same length.
pub broadcast proof fn lemma_mems_view_len(ms: Seq<(String, JsonValue)>)
    ensures
        (#[trigger] mems_view(ms)).len() == ms.len(),
{
}

/// Looking a key up after skipping a prefix that does not hold it.
proof fn lemma_obj_get_skip(ms: Seq<(Seq<char>, JsonSpec)>, key: Seq<char>, i: int)
    requires
        0 <= i <= ms.len(),
        forall|k: int| 0 <= k < i ==> ms[k].0 != key,
    ensures
        sp_obj_get(ms, key) == sp_obj_get(ms.subrange(i, ms.len() as int), key),
    decreases i,
{
    if i > 0 {
        assert(ms.len() > 0);
        lemma_obj_get_skip(ms.drop_first(), key, i - 1);
        assert(ms.drop_first().subrange(i - 1, ms.drop_first().len() as int) =~= ms.subrange(
            i,
            ms.len() as int,
        ));
    } else {
        assert(ms.subrange(0, ms.len() as int) =~= ms);
    }
}

/// The first value stored under the given key, if any.
fn obj_get<'a>(ms: &'a Vec<(String, JsonValue)>, key: &str) -> (r: Option<&'a JsonValue>)
    ensures
        match r {
            Some(v) => sp_obj_get(mems_view(ms@), key@) matches Some(sv) && v@ == sv,
            None => sp_obj_get(mems_view(ms@), key@) is None,
        },
{
    proof {
        broadcast use lemma_mems_view_index, lemma_mems_view_len;
    }
    let n = ms.len();
    let mut i: usize = 0;
    while i < n
        invariant
            n == ms@.len(),
            i <= n,
            forall|k: int| 0 <= k < i ==> mems_view(ms@)[k].0 != key@,
        decreases n - i,
    {
        proof {
            broadcast use lemma_mems_view_index, lemma_mems_view_len;
        }
        if str_eq(ms[i].0.as_str(), key) {
            proof {
                lemma_obj_get_skip(mems_view(ms@), key@, i as int);
                assert(mems_view(ms@).subrange(i as int, n as int)[0] == mems_view(ms@)[i as int]);
            }
            return Some(&ms[i].1);
        }
        i = i + 1;
    }
    proof {
        lemma_obj_get_skip(mems_view(ms@), key@, n as int);
        assert(mems_view(ms@).subrange(n as int, n as int) =~= Seq::<(Seq<char>, JsonSpec)>::empty());
    }
    None
}

/// The document category a tag names, if any.
fn category_of(t: &str) -> (r: Option<DocCategory>)
    ensures
        r == sp_category(t@),
{
    if str_eq(t, "tutorial") {
        Some(DocCategory::Tutorial)
    } else if str_eq(t, "how_to") {
        Some(DocCategory::HowTo)
    } else if str_eq(t, "explanation") {
        Some(DocCategory::Explanation)
    } else if str_eq(t, "reference") {
        Some(DocCategory::Reference)
    } else {
        None
    }
}

/// The members of an object value, or nothing for any other kind.
fn as_obj<'a>(v: &'a JsonValue) -> (r: Option<&'a Vec<(String, JsonValue)>>)
    ensures
        match r {
            Some(ms) => v@ is Obj && v@->Obj_0 == mems_view(ms@),
            None => !(v@ is Obj),
        },
{
    match v {
        JsonValue::Obj(ms) => {
            proof {
                broadcast use lemma_mems_view_index, lemma_mems_view_len;

                crate::json::lemma_obj_view(*v);
                assert(v@->Obj_0 =~= mems_view(ms@));
            }
            Some(ms)
        },
        _ => None,
    }
}

/// The action a tagged value denotes.
fn action_from(v: &JsonValue) -> (r: Option<Action>)
    ensures
        match r {
            Some(a) => sp_action_from(v@) matches Some(av) && a@ == av,
            None => sp_action_from(v@) is None,
        },
{
    let ms = match as_obj(v) {
        Some(ms) => ms,
        None => {
            return None;
        },
    };
    let tag = match obj_get(ms, "type") {
        Some(JsonValue::Str(tag)) => tag,
        _ => {
            return None;
        },
    };
    let params = obj_get(ms, "params");
    if str_eq(tag.as_str(), "scan_repository") {
        Some(Action::ScanRepository)
    } else if str_eq(tag.as_str(), "analyze_code") {
        Some(Action::AnalyzeCode)
    } else if str_eq(tag.as_str(), "generate_docs") {
        let pm = match params {
            Some(p) => match as_obj(p) {
                Some(pm) => pm,
                None => {
                    return None;
                },
            },
            None => {
                return None;
            },
        };
        match obj_get(pm, "category") {
            Some(JsonValue::Str(ct)) => match category_of(ct.as_str()) {
                Some(category) => Some(Action::GenerateDocumentation { category }),
                None => None,
            },
            _ => None,
        }
    } else if str_eq(tag.as_str(), "execute_command") {
        let pm = match params {
            Some(p) => match as_obj(p) {
                Some(pm) => pm,
                None => {
                    return None;
                },
            },
            None => {
                return None;
            },
        };
        match obj_get(pm, "command") {
            Some(JsonValue::Str(cmd)) => Some(Action::ExecuteCommand { command: cmd.clone() }),
            _ => None,
        }
    } else if str_eq(tag.as_str(), "agent_task") {
        let pm = match params {
            Some(p) => match as_obj(p) {
                Some(pm) => pm,
                None => {
                    return None;
                },
            },
            None => {
                return None;
            },
        };
        match obj_get(pm, "prompt") {
            Some(JsonValue::Str(pr)) => Some(Action::AgentTask { prompt: pr.clone() }),
            _ => None,
        }
    } else {
        None
    }
}

/// The items of an array value, as texts, starting at `k`.
fn strs_from(items: &Vec<JsonValue>, k: usize) -> (r: Option<Vec<String>>)
    requires
        k <= items@.len(),
    ensures
        ({
            let sitems = crate::workflow::yaml::lines_view_jv(items@).skip(k as int);
            match r {
                Some(out) => sp_strs_from(sitems) matches Some(ss) && out@.len() == ss.len() && (
                forall|q: int| 0 <= q < out@.len() ==> #[trigger] ss[q] == out@[q]@),
                None => sp_strs_from(sitems) is None,
            }
        }),
    decreases items@.len() - k,
{
    let ghost sitems = crate::workflow::yaml::lines_view_jv(items@).skip(k as int);
    proof {
        broadcast use crate::workflow::yaml::lemma_lines_view_jv;
    }
    if k == items.len() {
        proof {
            assert(sitems =~= Seq::<JsonSpec>::empty());
        }
        return Some(Vec::new());
    }
    proof {
        assert(sitems[0] == items@[k as int]@);
        assert(sitems.drop_first() =~= crate::workflow::yaml::lines_view_jv(items@).skip(
            k as int + 1,
        ));
    }
    let s = match &items[k] {
        JsonValue::Str(s) => s.clone(),
        _ => {
            return None;
        },
    };
    match strs_from(items, k + 1) {
        Some(mut rest) => {
            let ghost srest = sp_strs_from(sitems.drop_first())->Some_0;
            rest.insert(0, s);
            proof {
                let whole = seq![sitems[0]->Str_0] + srest;
                assert(whole[0] == sitems[0]->Str_0);
                assert(forall|q: int| 1 <= q < whole.len() ==> #[trigger] whole[q] == srest[q - 1]);
                assert(forall|q: int| 0 <= q < rest@.len() ==> whole[q] == rest@[q]@);
            }
            Some(rest)
        },
        None => None,
    }
}

/// The step an object value denotes.
fn step_from(v: &JsonValue) -> (r: Option<WorkflowStep>)
    ensures
        match r {
            Some(st) => sp_step_from(v@) matches Some(sv) && st@ == sv,
            None => sp_step_from(v@) is None,
        },
{
    proof {
        broadcast use crate::workflow::plan::lemma_strs_view_index, crate::workflow::plan::lemma_strs_view_len;
    }
    let ms = match as_obj(v) {
        Some(ms) => ms,
        None => {
            return None;
        },
    };
    let id = match obj_get(ms, "id") {
        Some(JsonValue::Str(s)) => s.clone(),
        _ => {
            return None;
        },
    };
    let description = match obj_get(ms, "description") {
        Some(JsonValue::Str(s)) => s.clone(),
        _ => {
            return None;
        },
    };
    let action = match obj_get(ms, "action") {
        Some(av) => match action_from(av) {
            Some(a) => a,
            None => {
                return None;
            },
        },
        None => {
            return None;
        },
    };
    let dependencies: Vec<String> = match obj_get(ms, "dependencies") {
        None => Vec::new(),
        Some(JsonValue::Arr(items)) => {
            proof {
                crate::json::lemma_arr_view(JsonValue::Arr(*items));
                assert(crate::workflow::yaml::lines_view_jv(items@).skip(0) =~= crate::workflow::yaml::lines_view_jv(items@));
                assert(crate::workflow::yaml::lines_view_jv(items@) =~= sp_obj_get(
                    mems_view(ms@),
                    "dependencies"@,
                )->Some_0->Arr_0);
            }
            match strs_from(items, 0) {
                Some(deps) => deps,
                None => {
                    return None;
                },
            }
        },
        Some(_) => {
            return None;
        },
    };
    let st = WorkflowStep { id, description, action, dependencies };
    proof {
        assert(st@.dependencies =~= sp_step_from(v@)->Some_0.dependencies);
    }
    Some(st)
}


/// The steps of an array value, starting at `k`.
fn steps_from(items: &Vec<JsonValue>, k: usize) -> (r: Option<Vec<WorkflowStep>>)
    requires
        k <= items@.len(),
    ensures
        ({
            let sitems = crate::workflow::yaml::lines_view_jv(items@).skip(k as int);
            match r {
                Some(out) => sp_steps_from(sitems) matches Some(ss) && out@.len() == ss.len() && (
                forall|q: int| 0 <= q < out@.len() ==> #[trigger] ss[q] == out@[q]@),
                None => sp_steps_from(sitems) is None,
            }
        }),
    decreases items@.len() - k,
{
    let ghost sitems = crate::workflow::yaml::lines_view_jv(items@).skip(k as int);
    proof {
        broadcast use crate::workflow::yaml::lemma_lines_view_jv;
    }
    if k == items.len() {
        proof {
            assert(sitems =~= Seq::<JsonSpec>::empty());
        }
        return Some(Vec::new());
    }
    proof {
        assert(sitems[0] == items@[k as int]@);
        assert(sitems.drop_first() =~= crate::workflow::yaml::lines_view_jv(items@).skip(
            k as int + 1,
        ));
    }
    let st = match step_from(&items[k]) {
        Some(st) => st,
        None => {
            return None;
        },
    };
    match steps_from(items, k + 1) {
        Some(mut rest) => {
            let ghost srest = sp_steps_from(sitems.drop_first())->Some_0;
            let ghost sst = sp_step_from(sitems[0])->Some_0;
            rest.insert(0, st);
            proof {
                let whole = seq![sst] + srest;
                assert(whole[0] == sst);
                assert(forall|q: int| 1 <= q < whole.len() ==> #[trigger] whole[q] == srest[q - 1]);
                assert(forall|q: int| 0 <= q < rest@.len() ==> whole[q] == rest@[q]@);
            }
            Some(rest)
        },
        None => None,
    }
}

/// The deliverable an object value denotes.
fn deliverable_from(v: &JsonValue) -> (r: Option<Deliverable>)
    ensures
        match r {
            Some(d) => sp_deliverable_from(v@) matches Some(dv) && crate::workflow::plan::deliverable_view(d) == dv,
            None => sp_deliverable_from(v@) is None,
        },
{
    let ms = match as_obj(v) {
        Some(ms) => ms,
        None => {
            return None;
        },
    };
    let name = match obj_get(ms, "name") {
        Some(JsonValue::Str(s)) => s.clone(),
        _ => {
            return None;
        },
    };
    let description = match obj_get(ms, "description") {
        Some(JsonValue::Str(s)) => s.clone(),
        _ => {
            return None;
        },
    };
    let path = match obj_get(ms, "path") {
        Some(JsonValue::Str(s)) => s.clone(),
        _ => {
            return None;
        },
    };
    Some(Deliverable { name, description, path })
}

/// The deliverables of an array value, starting at `k`.
fn deliverables_from(items: &Vec<JsonValue>, k: usize) -> (r: Option<Vec<Deliverable>>)
    requires
        k <= items@.len(),
    ensures
        ({
            let sitems = crate::workflow::yaml::lines_view_jv(items@).skip(k as int);
            match r {
                Some(out) => sp_deliverables_from(sitems) matches Some(ss) && out@.len()
                    == ss.len() && (forall|q: int|
                    0 <= q < out@.len() ==> #[trigger] ss[q]
                        == crate::workflow::plan::deliverable_view(out@[q])),
                None => sp_deliverables_from(sitems) is None,
            }
        }),
    decreases items@.len() - k,
{
    let ghost sitems = crate::workflow::yaml::lines_view_jv(items@).skip(k as int);
    proof {
        broadcast use crate::workflow::yaml::lemma_lines_view_jv;
    }
    if k == items.len() {
        proof {
            assert(sitems =~= Seq::<JsonSpec>::empty());
        }
        return Some(Vec::new());
    }
    proof {
        assert(sitems[0] == items@[k as int]@);
        assert(sitems.drop_first() =~= crate::workflow::yaml::lines_view_jv(items@).skip(
            k as int + 1,
        ));
    }
    let d = match deliverable_from(&items[k]) {
        Some(d) => d,
        None => {
            return None;
        },
    };
    match deliverables_from(items, k + 1) {
        Some(mut rest) => {
            let ghost srest = sp_deliverables_from(sitems.drop_first())->Some_0;
            let ghost sd = sp_deliverable_from(sitems[0])->Some_0;
            rest.insert(0, d);
            proof {
                let whole = seq![sd] + srest;
                assert(whole[0] == sd);
                assert(forall|q: int| 1 <= q < whole.len() ==> #[trigger] whole[q] == srest[q - 1]);
                assert(forall|q: int|
                    0 <= q < rest@.len() ==> whole[q] == crate::workflow::plan::deliverable_view(
                        rest@[q],
                    ));
            }
            Some(rest)
        },
        None => None,
    }
}

/// The plan an object value denotes.
fn plan_from(v: &JsonValue) -> (r: Option<Plan>)
    ensures
        match r {
            Some(p) => sp_plan_from(v@) matches Some(pv) && p@ == pv,
            None => sp_plan_from(v@) is None,
        },
{
    proof {
        broadcast use crate::workflow::plan::lemma_steps_view_index, crate::workflow::plan::lemma_steps_view_len;
    }
    let ms = match as_obj(v) {
        Some(ms) => ms,
        None => {
            return None;
        },
    };
    let name = match obj_get(ms, "name") {
        Some(JsonValue::Str(s)) => s.clone(),
        _ => {
            return None;
        },
    };
    let description = match obj_get(ms, "description") {
        Some(JsonValue::Str(s)) => s.clone(),
        _ => {
            return None;
        },
    };
    let steps = match obj_get(ms, "steps") {
        Some(JsonValue::Arr(items)) => {
            proof {
                crate::json::lemma_arr_view(JsonValue::Arr(*items));
                assert(crate::workflow::yaml::lines_view_jv(items@).skip(0)
                    =~= crate::workflow::yaml::lines_view_jv(items@));
                assert(crate::workflow::yaml::lines_view_jv(items@) =~= sp_obj_get(
                    mems_view(ms@),
                    "steps"@,
                )->Some_0->Arr_0);
            }
            match steps_from(items, 0) {
                Some(steps) => steps,
                None => {
                    return None;
                },
            }
        },
        _ => {
            return None;
        },
    };
    let repository: Option<String> = match obj_get(ms, "repository") {
        None => None,
        Some(JsonValue::Null) => None,
        Some(JsonValue::Str(r)) => Some(r.clone()),
        Some(_) => {
            return None;
        },
    };
    let deliverables: Vec<Deliverable> = match obj_get(ms, "deliverables") {
        None => Vec::new(),
        Some(JsonValue::Null) => Vec::new(),
        Some(JsonValue::Arr(dl)) => {
            proof {
                crate::json::lemma_arr_view(JsonValue::Arr(*dl));
                assert(crate::workflow::yaml::lines_view_jv(dl@).skip(0)
                    =~= crate::workflow::yaml::lines_view_jv(dl@));
                assert(crate::workflow::yaml::lines_view_jv(dl@) =~= sp_obj_get(
                    mems_view(ms@),
                    "deliverables"@,
                )->Some_0->Arr_0);
            }
            match deliverables_from(dl, 0) {
                Some(dl) => dl,
                None => {
                    return None;
                },
            }
        },
        Some(_) => {
            return None;
        },
    };
    let p = Plan { name, description, repository, steps, deliverables };
    proof {
        assert(p@.steps =~= sp_plan_from(v@)->Some_0.steps);
        assert(p@.deliverables =~= sp_plan_from(v@)->Some_0.deliverables);
    }
    Some(p)
}

/// A plan parser: one text front end feeding the shared in-memory plan shape.
/// Its model says what plan, or which refusal, a text yields.
pub trait PlanParser {
    /// What parsing yields, as a function of the text.
    spec fn spec_parse(&self, s: Seq<char>) -> Result<PlanV, XzardgzErrorV>;

    /// Parses one plan document.
    fn parse(&self, content: &str) -> (r: Result<Plan, XzardgzError>)
        ensures
            match r {
                Ok(p) => self.spec_parse(content@) matches Ok(pv) && p@ == pv,
                Err(e) => self.spec_parse(content@) matches Err(ev) && e@ == ev,
            },
    ;
}

/// The line-oriented front end.
pub struct YamlPlanParser;

/// The structured-object front end.
pub struct JsonPlanParser;

/// The fenced-code-block front end: free-form text holding one block of either
/// other encoding.
pub struct MarkdownPlanParser;

impl PlanParser for YamlPlanParser {
    open spec fn spec_parse(&self, s: Seq<char>) -> Result<PlanV, XzardgzErrorV> {
        match spec_parse_yaml_plan(s) {
            Some(pv) => Ok(pv),
            None => Err(invalid_plan_err()),
        }
    }

    fn parse(&self, content: &str) -> (r: Result<Plan, XzardgzError>) {
        match crate::workflow::yaml::parse_yaml(content) {
            Some(v) => match plan_from(&v) {
                Some(p) => Ok(p),
                None => Err(
                    XzardgzError::Workflow(WorkflowError::Parse("invalid plan document".to_owned())),
                ),
            },
            None => Err(
                XzardgzError::Workflow(WorkflowError::Parse("invalid plan document".to_owned())),
            ),
        }
    }
}

impl PlanParser for JsonPlanParser {
    open spec fn spec_parse(&self, s: Seq<char>) -> Result<PlanV, XzardgzErrorV> {
        match spec_parse_json_plan(s) {
            Some(pv) => Ok(pv),
            None => Err(invalid_plan_err()),
        }
    }

    fn parse(&self, content: &str) -> (r: Result<Plan, XzardgzError>) {
        match crate::json::parse_json(content) {
            Some(v) => match plan_from(&v) {
                Some(p) => Ok(p),
                None => Err(
                    XzardgzError::Workflow(WorkflowError::Parse("invalid plan document".to_owned())),
                ),
            },
            None => Err(
                XzardgzError::Workflow(WorkflowError::Parse("invalid plan document".to_owned())),
            ),
        }
    }
}


/// Front-end equivalence: both text encodings feed one converter, so two
/// texts that denote the same structured value denote the same plan — the same
/// name, the same steps in number and content, the same everything.
pub proof fn lemma_front_end_agreement(s1: Seq<char>, s2: Seq<char>)
    requires
        spec_parse_yaml(s1) is Some,
        spec_parse_yaml(s1) == spec_parse_json(s2),
    ensures
        spec_parse_yaml_plan(s1) == spec_parse_json_plan(s2),
        spec_parse_yaml_plan(s1) matches Some(p1) ==> spec_parse_json_plan(s2) matches Some(p2)
            && p1.name == p2.name && p1.steps.len() == p2.steps.len(),
{
}

/// Whether a line is a code fence: three backticks after leading spaces.
pub open spec fn sp_is_fence(line: Seq<char>) -> bool {
    let t = crate::workflow::yaml::sp_trim(line);
    t.len() >= 3 && t[0] == '`' && t[1] == '`' && t[2] == '`'
}

/// The first fence line at or after `i`, or the line count if none.
pub open spec fn sp_find_fence(lines: Seq<Seq<char>>, i: int) -> int
    decreases lines.len() - i,
{
    if i < 0 || i >= lines.len() {
        lines.len() as int
    } else if sp_is_fence(lines[i]) {
        i
    } else {
        sp_find_fence(lines, i + 1)
    }
}

/// The lines from `i` (inclusive) to `j` (exclusive) joined back into a text,
/// each followed by a newline.
pub open spec fn sp_join(lines: Seq<Seq<char>>, i: int, j: int) -> Seq<char>
    decreases j - i,
{
    if j <= i {
        Seq::empty()
    } else {
        sp_join(lines, i, j - 1) + lines[j - 1] + seq!['\n']
    }
}

/// Whether a fence line names the structured-object encoding.
pub open spec fn sp_fence_is_json(line: Seq<char>) -> bool {
    let t = crate::workflow::yaml::sp_trim(line);
    crate::workflow::yaml::sp_trim(t.subrange(3, t.len() as int)) == "json"@
}

/// What parsing a plan out of free-form text yields: the first fenced code
/// block is read in the encoding its fence names (the line-oriented one unless
/// the fence says otherwise); text without a non-empty block is refused.
pub open spec fn spec_parse_markdown_plan(s: Seq<char>) -> Result<PlanV, XzardgzErrorV> {
    let lines = crate::workflow::yaml::sp_split_lines(s);
    let f1 = sp_find_fence(lines, 0);
    if f1 >= lines.len() {
        Err(no_block_err())
    } else {
        let f2 = sp_find_fence(lines, f1 + 1);
        let content = sp_join(lines, f1 + 1, f2);
        if content.len() == 0 {
            Err(no_block_err())
        } else if sp_fence_is_json(lines[f1]) {
            match spec_parse_json_plan(content) {
                Some(pv) => Ok(pv),
                None => Err(invalid_plan_err()),
            }
        } else {
            match spec_parse_yaml_plan(content) {
                Some(pv) => Ok(pv),
                None => Err(invalid_plan_err()),
            }
        }
    }
}

/// What a fence scan finds is a fence, and nothing earlier is.
proof fn lemma_find_fence(lines: Seq<Seq<char>>, i: int)
    requires
        0 <= i <= lines.len(),
    ensures
        i <= sp_find_fence(lines, i) <= lines.len(),
        sp_find_fence(lines, i) < lines.len() ==> sp_is_fence(lines[sp_find_fence(lines, i)]),
    decreases lines.len() - i,
{
    if i < lines.len() && !sp_is_fence(lines[i]) {
        lemma_find_fence(lines, i + 1);
    }
}

/// Whether a line is a code fence.
fn is_fence(line: &Vec<char>) -> (r: bool)
    ensures
        r == sp_is_fence(line@),
{
    let t = crate::workflow::yaml::trim(line);
    t.len() >= 3 && t[0] == '`' && t[1] == '`' && t[2] == '`'
}

/// The first fence line at or after `i`, or the line count if none.
fn find_fence(lines: &Vec<Vec<char>>, i: usize) -> (r: usize)
    requires
        i <= lines@.len(),
    ensures
        r == sp_find_fence(crate::workflow::yaml::lines_view(lines@), i as int),
        i <= r <= lines@.len(),
{
    proof {
        broadcast use crate::workflow::yaml::lemma_lines_view_index, crate::workflow::yaml::lemma_lines_view_len;
    }
    let mut k = i;
    while k < lines.len()
        invariant
            i <= k <= lines@.len(),
            sp_find_fence(crate::workflow::yaml::lines_view(lines@), i as int) == sp_find_fence(
                crate::workflow::yaml::lines_view(lines@),
                k as int,
            ),
        decreases lines@.len() - k,
    {
        proof {
            broadcast use crate::workflow::yaml::lemma_lines_view_index, crate::workflow::yaml::lemma_lines_view_len;
        }
        if is_fence(&lines[k]) {
            return k;
        }
        k = k + 1;
    }
    proof {
        broadcast use crate::workflow::yaml::lemma_lines_view_len;
    }
    k
}

/// Joins the lines from `i` (inclusive) to `j` (exclusive), each followed by a
/// newline.
fn join_lines(lines: &Vec<Vec<char>>, i: usize, j: usize) -> (r: Vec<char>)
    requires
        i <= j <= lines@.len(),
    ensures
        r@ == sp_join(crate::workflow::yaml::lines_view(lines@), i as int, j as int),
{
    proof {
        broadcast use crate::workflow::yaml::lemma_lines_view_index, crate::workflow::yaml::lemma_lines_view_len;
    }
    let mut out: Vec<char> = Vec::new();
    let mut k = i;
    while k < j
        invariant
            i <= k <= j <= lines@.len(),
            out@ == sp_join(crate::workflow::yaml::lines_view(lines@), i as int, k as int),
        decreases j - k,
    {
        proof {
            broadcast use crate::workflow::yaml::lemma_lines_view_index, crate::workflow::yaml::lemma_lines_view_len;
        }
        let line = &lines[k];
        let mut q: usize = 0;
        let ghost out_head = out@;
        while q < line.len()
            invariant
                q <= line@.len(),
                out@ =~= out_head + line@.subrange(0, q as int),
            decreases line@.len() - q,
        {
            out.push(line[q]);
            proof {
                assert(out@ =~= out_head + line@.subrange(0, q + 1));
            }
            q = q + 1;
        }
        out.push('\n');
        proof {
            assert(line@.subrange(0, line@.len() as int) =~= line@);
            assert(out@ =~= sp_join(
                crate::workflow::yaml::lines_view(lines@),
                i as int,
                k + 1,
            ));
        }
        k = k + 1;
    }
    out
}

impl PlanParser for MarkdownPlanParser {
    open spec fn spec_parse(&self, s: Seq<char>) -> Result<PlanV, XzardgzErrorV> {
        spec_parse_markdown_plan(s)
    }

    fn parse(&self, content: &str) -> (r: Result<Plan, XzardgzError>) {
        let cs = crate::text::chars_of(content);
        let lines = crate::workflow::yaml::split_lines(&cs);
        proof {
            broadcast use crate::workflow::yaml::lemma_lines_view_index, crate::workflow::yaml::lemma_lines_view_len;
        }
        let f1 = find_fence(&lines, 0);
        if f1 >= lines.len() {
            return Err(
                XzardgzError::Workflow(
                    WorkflowError::Parse("No code block found in markdown".to_owned()),
                ),
            );
        }
        let f2 = find_fence(&lines, f1 + 1);
        let block = join_lines(&lines, f1 + 1, f2);
        if block.len() == 0 {
            return Err(
                XzardgzError::Workflow(
                    WorkflowError::Parse("No code block found in markdown".to_owned()),
                ),
            );
        }
        let t = crate::workflow::yaml::trim(&lines[f1]);
        proof {
            broadcast use crate::workflow::yaml::lemma_lines_view_index, crate::workflow::yaml::lemma_lines_view_len;

            lemma_find_fence(crate::workflow::yaml::lines_view(lines@), 0);
            assert(sp_is_fence(lines@[f1 as int]@));
            assert(t@.len() >= 3);
        }
        let lang = crate::workflow::yaml::trim(&crate::workflow::yaml::line_slice(&t, 3, t.len()));
        let is_json = lang.len() == 4 && lang[0] == 'j' && lang[1] == 's' && lang[2] == 'o'
            && lang[3] == 'n';
        proof {
            reveal_strlit("json");
            if is_json {
                assert(lang@ =~= "json"@);
            } else if lang@ == "json"@ {
                assert(lang@.len() == 4 && lang@[0] == 'j' && lang@[1] == 's' && lang@[2] == 'o'
                    && lang@[3] == 'n');
            }
        }
        let text = string_of(block.as_slice());
        if is_json {
            match crate::json::parse_json(text.as_str()) {
                Some(v) => match plan_from(&v) {
                    Some(p) => Ok(p),
                    None => Err(
                        XzardgzError::Workflow(
                            WorkflowError::Parse("invalid plan document".to_owned()),
                        ),
                    ),
                },
                None => Err(
                    XzardgzError::Workflow(
                        WorkflowError::Parse("invalid plan document".to_owned()),
                    ),
                ),
            }
        } else {
            match crate::workflow::yaml::parse_yaml(text.as_str()) {
                Some(v) => match plan_from(&v) {
                    Some(p) => Ok(p),
                    None => Err(
                        XzardgzError::Workflow(
                            WorkflowError::Parse("invalid plan document".to_owned()),
                        ),
                    ),
                },
                None => Err(
                    XzardgzError::Workflow(
                        WorkflowError::Parse("invalid plan document".to_owned()),
                    ),
                ),
            }
        }
    }
}

/// What parsing a text in the named format yields: the three front ends by
/// their usual format names, and a refusal for any other name.
pub open spec fn spec_parse_plan(s: Seq<char>, fmt: Seq<char>) -> Result<PlanV, XzardgzErrorV> {
    if fmt == "yaml"@ || fmt == "yml"@ {
        YamlPlanParser.spec_parse(s)
    } else if fmt == "json"@ {
        JsonPlanParser.spec_parse(s)
    } else if fmt == "md"@ || fmt == "markdown"@ {
        MarkdownPlanParser.spec_parse(s)
    } else {
        Err(XzardgzErrorV::Workflow(WorkflowErrorV::Parse("Unsupported format: "@ + fmt)))
    }
}

/// Parses a plan text in the named format: the line-oriented, the
/// structured-object, or the fenced-block front end; any other format name is
/// refused.
pub fn parse_plan(content: &str, format: &str) -> (r: Result<Plan, XzardgzError>)
    ensures
        match r {
            Ok(p) => spec_parse_plan(content@, format@) matches Ok(pv) && p@ == pv,
            Err(e) => spec_parse_plan(content@, format@) matches Err(ev) && e@ == ev,
        },
{
    if str_eq(format, "yaml") || str_eq(format, "yml") {
        YamlPlanParser.parse(content)
    } else if str_eq(format, "json") {
        JsonPlanParser.parse(content)
    } else if str_eq(format, "md") || str_eq(format, "markdown") {
        MarkdownPlanParser.parse(content)
    } else {
        let mut m = "Unsupported format: ".to_owned();
        m.append(format);
        Err(XzardgzError::Workflow(WorkflowError::Parse(m)))
    }
}

} // verus!
