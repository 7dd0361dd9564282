use std::collections::HashMap;
use std::str::FromStr;

use crank::catalog::{
    actions_by_category, load_embedded, validate, validate_given, ActionDefinition, ActionId, Catalog,
    CatalogError, CatalogFiles, CatalogSource, Category, CategoryId, EmbeddedFiles, Interpreter,
    Requirements,
};

struct TestFiles(HashMap<String, Vec<u8>>);

impl CatalogFiles for TestFiles {
    fn read(&self, relative_path: &str) -> Option<Vec<u8>> {
        self.0.get(relative_path).cloned()
    }

    fn paths(&self) -> Vec<String> {
        self.0.keys().cloned().collect()
    }
}

fn files() -> TestFiles {
    TestFiles(HashMap::from([(
        "scripts/test.sh".to_owned(),
        b"#!/bin/sh\nprintf 'ok\\n'\n".to_vec(),
    )]))
}

/// The catalog of the manifest used by the validation tests:
/// one category `tests` and one action `test.action` running `scripts/test.sh`.
fn catalog() -> Catalog {
    Catalog {
        schema_version: 1,
        categories: vec![Category {
            id: CategoryId::from_str("tests").unwrap(),
            label: "Tests".to_owned(),
            description: String::new(),
        }],
        actions: vec![ActionDefinition {
            id: ActionId::from_str("test.action").unwrap(),
            label: "Test".to_owned(),
            description: "A test".to_owned(),
            category: CategoryId::from_str("tests").unwrap(),
            script: "scripts/test.sh".to_owned(),
            interpreter: Interpreter::default(),
            requirements: Requirements::default(),
        }],
    }
}

#[test]
fn embedded_catalog_is_valid() {
    let bundle = load_embedded().unwrap();
    assert!(!bundle.catalog.actions.is_empty());
}

#[test]
fn rejects_escaping_script_path() {
    let mut source = catalog();
    source.actions[0].script = "../test.sh".to_owned();
    let error = validate(&source, &files()).unwrap_err();
    assert!(matches!(error, CatalogError::UnsafeScriptPath { .. }));
}

#[test]
fn rejects_unknown_category() {
    let mut source = catalog();
    source.actions[0].category = CategoryId::from_str("missing").unwrap();
    let error = validate(&source, &files()).unwrap_err();
    assert!(matches!(error, CatalogError::UnknownCategory { .. }));
}

#[test]
fn rejects_mismatched_shebang() {
    let mut source = catalog();
    source.actions[0].interpreter.program = "bash".to_owned();
    let error = validate(&source, &files()).unwrap_err();
    assert!(matches!(error, CatalogError::InterpreterMismatch { .. }));
}

#[test]
fn accepts_the_test_catalog() {
    assert!(validate(&catalog(), &files()).is_ok());
}

fn ids(catalog: &Catalog) -> Vec<&str> {
    catalog.actions.iter().map(|a| a.id.as_str()).collect()
}

#[test]
fn embedded_catalog_lists_the_fixtures_in_order() {
    let bundle = load_embedded().unwrap();
    assert_eq!(bundle.source, CatalogSource::Embedded);
    assert_eq!(
        ids(&bundle.catalog),
        vec![
            "fixture.hello",
            "fixture.prompt",
            "fixture.fail",
            "fixture.interrupt",
            "fixture.colors"
        ]
    );
    assert_eq!(bundle.catalog.categories.len(), 2);
    let files = EmbeddedFiles;
    let hello = files.read("scripts/hello.sh").unwrap();
    assert!(String::from_utf8(hello).unwrap().contains("Hello from Crank!"));
    assert!(files.read("assets/message.txt").is_some());
    assert!(files.read("scripts/missing.sh").is_none());
    assert_eq!(files.paths().len(), 6);
}

#[test]
fn identifiers_follow_the_identifier_rules() {
    assert!(ActionId::from_str("fixture.hello-2_b").is_ok());
    assert_eq!(ActionId::from_str("a.b").unwrap().as_str(), "a.b");
    assert!(ActionId::from_str("").is_err());
    assert!(ActionId::from_str("Upper").is_err());
    assert!(ActionId::from_str("has space").is_err());
    assert!(ActionId::from_str("é").is_err());
    assert!(CategoryId::from_str(&"a".repeat(64)).is_ok());
    assert!(CategoryId::from_str(&"a".repeat(65)).is_err());
    assert_eq!(
        ActionId::parse("Bad").unwrap_err(),
        "invalid identifier `Bad`".to_owned()
    );
}

#[test]
fn rejects_unsupported_schema_version() {
    let mut source = catalog();
    source.schema_version = 2;
    let error = validate(&source, &files()).unwrap_err();
    assert!(matches!(error, CatalogError::SchemaVersion { found: 2 }));
}

#[test]
fn rejects_duplicate_category() {
    let mut source = catalog();
    let again = source.categories[0].clone();
    source.categories.push(again);
    let error = validate(&source, &files()).unwrap_err();
    assert!(matches!(error, CatalogError::DuplicateCategory(id) if id.as_str() == "tests"));
}

#[test]
fn rejects_duplicate_action() {
    let mut source = catalog();
    let again = source.actions[0].clone();
    source.actions.push(again);
    let error = validate(&source, &files()).unwrap_err();
    assert!(matches!(error, CatalogError::DuplicateAction(id) if id.as_str() == "test.action"));
}

#[test]
fn rejects_missing_script() {
    let mut source = catalog();
    source.actions[0].script = "scripts/other.sh".to_owned();
    let error = validate(&source, &files()).unwrap_err();
    assert!(
        matches!(error, CatalogError::MissingScript { action, path } if action.as_str() == "test.action" && path == "scripts/other.sh")
    );
}

#[test]
fn rejects_executable_paths() {
    let mut source = catalog();
    source.actions[0].requirements.executables = vec!["git".to_owned(), "/usr/bin/env".to_owned()];
    let error = validate(&source, &files()).unwrap_err();
    assert!(
        matches!(error, CatalogError::InvalidExecutable { executable, .. } if executable == "/usr/bin/env")
    );
    source.actions[0].requirements.executables = vec![String::new()];
    let error = validate(&source, &files()).unwrap_err();
    assert!(matches!(error, CatalogError::InvalidExecutable { .. }));
}

#[test]
fn shebang_is_compared_by_program_name() {
    let mut source = catalog();
    source.actions[0].interpreter.program = "/usr/local/bin/sh".to_owned();
    assert!(validate(&source, &files()).is_ok());
    let env = TestFiles(HashMap::from([(
        "scripts/test.sh".to_owned(),
        b"#!  /usr/bin/env sh\n".to_vec(),
    )]));
    let error = validate(&catalog(), &env).unwrap_err();
    assert!(
        matches!(error, CatalogError::InterpreterMismatch { declared, shebang, .. } if declared == "sh" && shebang == "  /usr/bin/env sh")
    );
    let plain = TestFiles(HashMap::from([(
        "scripts/test.sh".to_owned(),
        b"echo no shebang\n".to_vec(),
    )]));
    assert!(validate(&catalog(), &plain).is_ok());
}

#[test]
fn shebang_text_is_decoded_lossily() {
    let broken = TestFiles(HashMap::from([(
        "scripts/test.sh".to_owned(),
        b"#!/bin/b\xffsh\n".to_vec(),
    )]));
    let error = validate(&catalog(), &broken).unwrap_err();
    assert!(
        matches!(error, CatalogError::InterpreterMismatch { shebang, .. } if shebang == "/bin/b\u{fffd}sh")
    );
}

#[test]
fn validation_stops_at_the_first_problem() {
    let mut source = catalog();
    source.actions[0].category = CategoryId::from_str("missing").unwrap();
    source.actions[0].script = "../escape.sh".to_owned();
    let error = validate(&source, &files()).unwrap_err();
    assert!(matches!(error, CatalogError::UnknownCategory { .. }));
}

#[test]
fn validation_given_read_results() {
    let source = catalog();
    assert!(validate_given(&source, &vec![Some(b"#!/bin/sh\n".to_vec())]).is_ok());
    assert!(matches!(
        validate_given(&source, &vec![None]).unwrap_err(),
        CatalogError::MissingScript { .. }
    ));
    assert!(matches!(
        validate_given(&source, &vec![Some(b"#!/bin/zsh -e\n".to_vec())]).unwrap_err(),
        CatalogError::InterpreterMismatch { .. }
    ));
}

#[test]
fn groups_actions_by_category_in_catalog_order() {
    let bundle = load_embedded().unwrap();
    let groups = actions_by_category(&bundle.catalog);
    assert_eq!(groups.len(), 2);
    assert_eq!(groups[0].0.as_str(), "basics");
    let basics: Vec<&str> = groups[0].1.iter().map(|a| a.id.as_str()).collect();
    assert_eq!(basics, vec!["fixture.hello", "fixture.prompt", "fixture.fail"]);
    assert_eq!(groups[1].0.as_str(), "terminal");
    assert_eq!(groups[1].1.len(), 2);
}

#[test]
fn default_interpreter_is_sh() {
    let interpreter = Interpreter::default();
    assert_eq!(interpreter.program, "sh");
    assert!(interpreter.args.is_empty());
    assert_eq!(crank::catalog::default_interpreter(), "sh");
    let requirements = Requirements::default();
    assert!(requirements.os.is_empty() && requirements.arch.is_empty());
}
