use crate::json::{JsonSpec, JsonValue};
use crate::providers::types::Tool;
use vstd::prelude::*;

verus! {

/// A tool that reads a file's contents. The definition lives here; the reading
/// itself is an executor outside this library.
#[derive(Debug)]
pub struct ReadFileTool;

/// A tool that writes content to a file. The definition lives here; the
/// writing itself is an executor outside this library.
#[derive(Debug)]
pub struct WriteFileTool;

/// A schema member stating one string property with a description.
pub open spec fn string_property(description: Seq<char>) -> JsonSpec {
    JsonSpec::Obj(
        seq![
            ("type"@, JsonSpec::Str("string"@)),
            ("description"@, JsonSpec::Str(description)),
        ],
    )
}

/// Builds the schema member stating one string property.
fn string_property_value(description: &str) -> (r: JsonValue)
    ensures
        r@ == string_property(description@),
{
    let mut members: Vec<(String, JsonValue)> = Vec::new();
    members.push(("type".to_owned(), JsonValue::Str("string".to_owned())));
    members.push(("description".to_owned(), JsonValue::Str(description.to_owned())));
    let r = JsonValue::Obj(members);
    proof {
        crate::json::lemma_obj_view(r);
        assert(r@->Obj_0 =~= string_property(description@)->Obj_0);
    }
    r
}

/// The parameter schema of the read-file tool.
pub open spec fn read_file_schema() -> JsonSpec {
    JsonSpec::Obj(
        seq![
            ("type"@, JsonSpec::Str("object"@)),
            (
                "properties"@,
                JsonSpec::Obj(seq![("path"@, string_property("Path to the file"@))]),
            ),
            ("required"@, JsonSpec::Arr(seq![JsonSpec::Str("path"@)])),
        ],
    )
}

/// The parameter schema of the write-file tool.
pub open spec fn write_file_schema() -> JsonSpec {
    JsonSpec::Obj(
        seq![
            ("type"@, JsonSpec::Str("object"@)),
            (
                "properties"@,
                JsonSpec::Obj(
                    seq![
                        ("path"@, string_property("Path to the file"@)),
                        ("content"@, string_property("Content to write"@)),
                    ],
                ),
            ),
            ("required"@, JsonSpec::Arr(seq![JsonSpec::Str("path"@), JsonSpec::Str("content"@)])),
        ],
    )
}

impl ReadFileTool {
    /// The tool definition advertised for reading files.
    pub fn definition() -> (r: Tool)
        ensures
            r.name@ == "read_file"@,
            r.description@ == "Read contents of a file"@,
            r.parameters@ == read_file_schema(),
    {
        let mut props: Vec<(String, JsonValue)> = Vec::new();
        props.push(("path".to_owned(), string_property_value("Path to the file")));
        let properties = JsonValue::Obj(props);
        proof {
            crate::json::lemma_obj_view(properties);
        }
        let mut required: Vec<JsonValue> = Vec::new();
        required.push(JsonValue::Str("path".to_owned()));
        let required_arr = JsonValue::Arr(required);
        proof {
            crate::json::lemma_arr_view(required_arr);
        }
        let mut members: Vec<(String, JsonValue)> = Vec::new();
        members.push(("type".to_owned(), JsonValue::Str("object".to_owned())));
        members.push(("properties".to_owned(), properties));
        members.push(("required".to_owned(), required_arr));
        let parameters = JsonValue::Obj(members);
        proof {
            crate::json::lemma_obj_view(parameters);
            assert(properties@->Obj_0 =~= read_file_schema()->Obj_0[1].1->Obj_0);
            assert(required_arr@->Arr_0 =~= read_file_schema()->Obj_0[2].1->Arr_0);
            assert(parameters@->Obj_0 =~= read_file_schema()->Obj_0);
        }
        Tool {
            name: "read_file".to_owned(),
            description: "Read contents of a file".to_owned(),
            parameters,
        }
    }
}

impl WriteFileTool {
    /// The tool definition advertised for writing files.
    pub fn definition() -> (r: Tool)
        ensures
            r.name@ == "write_file"@,
            r.description@ == "Write content to a file"@,
            r.parameters@ == write_file_schema(),
    {
        let mut props: Vec<(String, JsonValue)> = Vec::new();
        props.push(("path".to_owned(), string_property_value("Path to the file")));
        props.push(("content".to_owned(), string_property_value("Content to write")));
        let properties = JsonValue::Obj(props);
        proof {
            crate::json::lemma_obj_view(properties);
        }
        let mut required: Vec<JsonValue> = Vec::new();
        required.push(JsonValue::Str("path".to_owned()));
        required.push(JsonValue::Str("content".to_owned()));
        let required_arr = JsonValue::Arr(required);
        proof {
            crate::json::lemma_arr_view(required_arr);
        }
        let mut members: Vec<(String, JsonValue)> = Vec::new();
        members.push(("type".to_owned(), JsonValue::Str("object".to_owned())));
        members.push(("properties".to_owned(), properties));
        members.push(("required".to_owned(), required_arr));
        let parameters = JsonValue::Obj(members);
        proof {
            crate::json::lemma_obj_view(parameters);
            assert(properties@->Obj_0 =~= write_file_schema()->Obj_0[1].1->Obj_0);
            assert(required_arr@->Arr_0 =~= write_file_schema()->Obj_0[2].1->Arr_0);
            assert(parameters@->Obj_0 =~= write_file_schema()->Obj_0);
        }
        Tool {
            name: "write_file".to_owned(),
            description: "Write content to a file".to_owned(),
            parameters,
        }
    }
}

} // verus!
