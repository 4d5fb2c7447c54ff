use crate::json::{JsonSpec, JsonValue};
use crate::providers::types::Tool;
use vstd::prelude::*;

verus! {

/// A tool that reports the working tree's version-control status. The
/// definition lives here; the command itself is an executor outside this
/// library.
#[derive(Debug)]
pub struct GitStatusTool;

/// The parameter schema of the status tool: an object with no properties.
pub open spec fn git_status_schema() -> JsonSpec {
    JsonSpec::Obj(
        seq![
            ("type"@, JsonSpec::Str("object"@)),
            ("properties"@, JsonSpec::Obj(Seq::empty())),
            ("required"@, JsonSpec::Arr(Seq::empty())),
        ],
    )
}

impl GitStatusTool {
    /// The tool definition advertised for the status command.
    pub fn definition() -> (r: Tool)
        ensures
            r.name@ == "git_status"@,
            r.description@ == "Get git status"@,
            r.parameters@ == git_status_schema(),
    {
        let properties = JsonValue::Obj(Vec::new());
        proof {
            crate::json::lemma_obj_view(properties);
        }
        let required_arr = JsonValue::Arr(Vec::new());
        proof {
            crate::json::lemma_arr_view(required_arr);
        }
        let mut members: Vec<(String, JsonValue)> = Vec::new();
        members.push(("type".to_owned(), JsonValue::Str("object".to_owned())));
        members.push(("properties".to_owned(), properties));
        members.push(("required".to_owned(), required_arr));
        let parameters = JsonValue::Obj(members);
        proof {
            crate::json::lemma_obj_view(parameters);
            assert(parameters@->Obj_0[1].1->Obj_0 =~= git_status_schema()->Obj_0[1].1->Obj_0);
            assert(parameters@->Obj_0[2].1->Arr_0 =~= git_status_schema()->Obj_0[2].1->Arr_0);
            assert(parameters@->Obj_0 =~= git_status_schema()->Obj_0);
        }
        Tool { name: "git_status".to_owned(), description: "Get git status".to_owned(), parameters }
    }
}

} // verus!
