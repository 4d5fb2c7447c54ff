use xzardgz::docgen::diataxis::DocCategory;
use xzardgz::docgen::generator::{build_prompt, clean_json_response};
use xzardgz::docgen::writer::DocumentWriter;

#[test]
fn test_doc_category_as_str() {
    assert_eq!(DocCategory::Tutorial.as_str(), "tutorial");
    assert_eq!(DocCategory::HowTo.as_str(), "how-to");
    assert_eq!(DocCategory::Explanation.as_str(), "explanation");
    assert_eq!(DocCategory::Reference.as_str(), "reference");
}

#[test]
fn test_doc_category_directory() {
    assert_eq!(DocCategory::Tutorial.directory(), "docs/tutorials");
    assert_eq!(DocCategory::HowTo.directory(), "docs/how_to");
    assert_eq!(DocCategory::Explanation.directory(), "docs/explanation");
    assert_eq!(DocCategory::Reference.directory(), "docs/reference");
}

#[test]
fn test_writer_target_path_adds_extension() {
    let writer = DocumentWriter::new("out".to_string(), false);
    assert_eq!(
        writer.target_path(DocCategory::Tutorial, "intro"),
        "out/docs/tutorials/intro.md"
    );
    assert_eq!(
        writer.target_path(DocCategory::Reference, "api.md"),
        "out/docs/reference/api.md"
    );
}

#[test]
fn test_clean_json_response_strips_fences() {
    assert_eq!(clean_json_response("  {\"a\": 1}  "), "{\"a\": 1}");
    assert_eq!(clean_json_response("```json\n{\"a\": 1}\n```"), "{\"a\": 1}");
    assert_eq!(clean_json_response("```\n{\"a\": 1}\n```"), "{\"a\": 1}");
    assert_eq!(clean_json_response("plain"), "plain");
}

#[test]
fn test_build_prompt_mentions_topic_and_category() {
    let p = build_prompt(DocCategory::HowTo, "compaction", "a repo");
    assert!(p.contains("how-to"));
    assert!(p.contains("\"compaction\""));
    assert!(p.contains("a repo"));
}
