use xzardgz::json::{parse_json, JsonValue};
use xzardgz::repository::scanner::RepositoryScanner;

#[test]
fn test_parse_json_values() {
    match parse_json("  null ") {
        Some(JsonValue::Null) => (),
        _ => panic!("Wrong value"),
    }
    match parse_json("-42") {
        Some(JsonValue::Int(v)) => assert_eq!(v, -42),
        _ => panic!("Wrong value"),
    }
    match parse_json(r#""a\nb\"c""#) {
        Some(JsonValue::Str(s)) => assert_eq!(s, "a\nb\"c"),
        _ => panic!("Wrong value"),
    }
    match parse_json(r#"{"a": [1, true], "b": {}}"#) {
        Some(JsonValue::Obj(ms)) => {
            assert_eq!(ms.len(), 2);
            assert_eq!(ms[0].0, "a");
            match &ms[0].1 {
                JsonValue::Arr(items) => assert_eq!(items.len(), 2),
                _ => panic!("Wrong value"),
            }
        },
        _ => panic!("Wrong value"),
    }
    assert!(parse_json("{").is_none());
    assert!(parse_json("1 2").is_none());
    assert!(parse_json("1.5").is_none());
}

#[test]
fn test_scanner_override_globs() {
    let scanner = RepositoryScanner::new(
        ".".to_string(),
        vec!["target".to_string(), ".git".to_string()],
    );
    assert_eq!(scanner.override_globs(), vec!["!target".to_string(), "!.git".to_string()]);
}
