use xzardgz::workflow::parser::{JsonPlanParser, MarkdownPlanParser, PlanParser, YamlPlanParser};
use xzardgz::workflow::plan::Action;

#[test]
fn test_yaml_parsing() {
    let yaml = r#"
name: Test Plan
description: A test plan
steps:
  - id: step1
    description: Scan repo
    action:
      type: scan_repository
      params: null
"#;
    let plan = YamlPlanParser.parse(yaml).unwrap();
    assert_eq!(plan.name, "Test Plan");
    assert_eq!(plan.steps.len(), 1);
    match plan.steps[0].action {
        Action::ScanRepository => (),
        _ => panic!("Wrong action type"),
    }
}

#[test]
fn test_json_parsing() {
    let json = r#"{
    "name": "Test Plan",
    "description": "A test plan",
    "steps": [
        {
            "id": "step1",
            "description": "Scan repo",
            "action": {
                "type": "scan_repository",
                "params": null
            }
        }
    ],
    "deliverables": []
}"#;
    let plan = JsonPlanParser.parse(json).unwrap();
    assert_eq!(plan.name, "Test Plan");
}

#[test]
fn test_markdown_parsing() {
    let md = r#"
# My Plan

Here is the plan:

```yaml
name: Test Plan
description: A test plan
steps:
  - id: step1
    description: Scan repo
    action:
      type: scan_repository
      params: null
```
"#;
    let plan = MarkdownPlanParser.parse(md).unwrap();
    assert_eq!(plan.name, "Test Plan");
}

#[test]
fn test_front_end_equivalence() {
    // The same logical plan in both encodings parses equal on name and step
    // count, and the parsed pieces agree throughout.
    let yaml = "name: Same Plan\ndescription: d\nsteps:\n  - id: a\n    description: first\n    action:\n      type: agent_task\n      params:\n        prompt: hi\n  - id: b\n    description: second\n    action:\n      type: execute_command\n      params:\n        command: ls\n    dependencies:\n      - a\n";
    let json = r#"{
        "name": "Same Plan",
        "description": "d",
        "steps": [
            {"id": "a", "description": "first",
             "action": {"type": "agent_task", "params": {"prompt": "hi"}}},
            {"id": "b", "description": "second",
             "action": {"type": "execute_command", "params": {"command": "ls"}},
             "dependencies": ["a"]}
        ]
    }"#;
    let p1 = YamlPlanParser.parse(yaml).unwrap();
    let p2 = JsonPlanParser.parse(json).unwrap();
    assert_eq!(p1.name, p2.name);
    assert_eq!(p1.steps.len(), p2.steps.len());
    for (s1, s2) in p1.steps.iter().zip(p2.steps.iter()) {
        assert_eq!(s1.id, s2.id);
        assert_eq!(s1.dependencies, s2.dependencies);
    }
    match (&p1.steps[0].action, &p2.steps[0].action) {
        (Action::AgentTask { prompt: a }, Action::AgentTask { prompt: b }) => assert_eq!(a, b),
        _ => panic!("Wrong action type"),
    }
}

#[test]
fn test_markdown_without_block_is_refused() {
    let md = "# Just prose\n\nNothing fenced here.\n";
    let err = MarkdownPlanParser.parse(md).unwrap_err();
    assert_eq!(
        err.message(),
        "Workflow error: Plan parsing failed: No code block found in markdown"
    );
}

#[test]
fn test_unsupported_format_is_refused() {
    let err = xzardgz::workflow::parser::parse_plan("name: x", "toml").unwrap_err();
    assert_eq!(
        err.message(),
        "Workflow error: Plan parsing failed: Unsupported format: toml"
    );
}

#[test]
fn test_parse_plan_dispatches_by_format() {
    let yaml = "name: P\ndescription: d\nsteps:\n  - id: s\n    description: x\n    action:\n      type: analyze_code\n";
    let plan = xzardgz::workflow::parser::parse_plan(yaml, "yml").unwrap();
    assert_eq!(plan.name, "P");
    match plan.steps[0].action {
        Action::AnalyzeCode => (),
        _ => panic!("Wrong action type"),
    }
}

#[test]
fn test_json_plan_with_categories_and_deliverables() {
    let json = r#"{
        "name": "Docs",
        "description": "d",
        "repository": "here",
        "steps": [
            {"id": "g", "description": "gen",
             "action": {"type": "generate_docs", "params": {"category": "how_to"}}}
        ],
        "deliverables": [
            {"name": "guide", "description": "a guide", "path": "docs/guide.md"}
        ]
    }"#;
    let plan = JsonPlanParser.parse(json).unwrap();
    assert_eq!(plan.repository.as_deref(), Some("here"));
    assert_eq!(plan.deliverables.len(), 1);
    assert_eq!(plan.deliverables[0].path, "docs/guide.md");
    match plan.steps[0].action {
        Action::GenerateDocumentation { category } => {
            assert_eq!(category, xzardgz::workflow::plan::DocCategory::HowTo)
        },
        _ => panic!("Wrong action type"),
    }
}

#[test]
fn test_malformed_text_is_refused() {
    let err = JsonPlanParser.parse("{not json").unwrap_err();
    assert_eq!(
        err.message(),
        "Workflow error: Plan parsing failed: invalid plan document"
    );
}

#[test]
fn test_validate_reports_duplicate_and_unknown() {
    let yaml = "name: P\ndescription: d\nsteps:\n  - id: s\n    description: x\n    action:\n      type: analyze_code\n  - id: s\n    description: y\n    action:\n      type: analyze_code\n";
    let plan = YamlPlanParser.parse(yaml).unwrap();
    assert_eq!(plan.validate().unwrap_err(), "Duplicate step ID: s");

    let yaml2 = "name: P\ndescription: d\nsteps:\n  - id: s\n    description: x\n    action:\n      type: analyze_code\n    dependencies:\n      - ghost\n";
    let plan2 = YamlPlanParser.parse(yaml2).unwrap();
    assert_eq!(
        plan2.validate().unwrap_err(),
        "Step s depends on unknown step ghost"
    );

    let yaml3 = "name: P\ndescription: d\nsteps:\n  - id: s\n    description: x\n    action:\n      type: analyze_code\n";
    let plan3 = YamlPlanParser.parse(yaml3).unwrap();
    assert!(plan3.validate().is_ok());
}
