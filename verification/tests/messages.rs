use std::str::FromStr;

use crank::catalog::{load_embedded, ActionId, Catalog, CatalogError, CatalogSource, CategoryId};
use crank::execution::StartError;
use crank::messages::validity_summary;
use crank::runtime::ResolveError;
use crank::tui::TuiError;

fn action() -> ActionId {
    ActionId::from_str("demo.run").unwrap()
}

#[test]
fn validates_embedded_catalog() {
    let bundle = load_embedded().unwrap();
    let summary = validity_summary(&bundle.catalog, &bundle.source);
    assert!(summary.contains("catalog is valid"));
    assert_eq!(summary, "catalog is valid: 2 categories, 5 actions (embedded)");
}

#[test]
fn interactive_mode_explains_when_no_terminal_is_attached() {
    assert!(TuiError::NoTerminal
        .message()
        .contains("interactive mode requires a terminal"));
}

#[test]
fn local_catalogs_are_reported_by_path() {
    let catalog = Catalog { schema_version: 1, categories: Vec::new(), actions: Vec::new() };
    assert_eq!(
        validity_summary(&catalog, &CatalogSource::Local("/srv/catalog".into())),
        "catalog is valid: 0 categories, 0 actions (/srv/catalog)"
    );
}

#[test]
fn catalog_error_messages() {
    let io = std::io::Error::new(std::io::ErrorKind::NotFound, "gone");
    assert_eq!(
        CatalogError::ReadManifest { path: "/x/catalog.toml".into(), source: io }.message(),
        "could not read catalog manifest /x/catalog.toml: gone"
    );
    let parse = toml::from_str::<toml::Value>("= broken").unwrap_err();
    assert!(CatalogError::Parse(parse).message().starts_with("catalog manifest is invalid: "));
    assert_eq!(
        CatalogError::SchemaVersion { found: 27 }.message(),
        "unsupported catalog schema version 27; this build supports version 1"
    );
    assert_eq!(
        CatalogError::DuplicateCategory(CategoryId::from_str("tools").unwrap()).message(),
        "duplicate category ID `tools`"
    );
    assert_eq!(CatalogError::DuplicateAction(action()).message(), "duplicate action ID `demo.run`");
    assert_eq!(
        CatalogError::UnknownCategory {
            action: action(),
            category: CategoryId::from_str("missing").unwrap()
        }
        .message(),
        "action `demo.run` refers to unknown category `missing`"
    );
    assert_eq!(
        CatalogError::UnsafeScriptPath { action: action(), path: "../x.sh".into() }.message(),
        "action `demo.run` has unsafe script path `../x.sh`"
    );
    assert_eq!(
        CatalogError::MissingScript { action: action(), path: "x.sh".into() }.message(),
        "action `demo.run` refers to missing script `x.sh`"
    );
    assert_eq!(
        CatalogError::InterpreterMismatch {
            action: action(),
            declared: "sh".into(),
            shebang: "/bin/bash".into()
        }
        .message(),
        "action `demo.run` declares interpreter `sh` but script shebang uses `/bin/bash`"
    );
    assert_eq!(
        CatalogError::InvalidExecutable { action: action(), executable: "a/b".into() }.message(),
        "action `demo.run` has an invalid executable requirement `a/b`"
    );
}

#[test]
fn resolve_error_messages() {
    assert_eq!(ResolveError::UnknownAction(action()).message(), "action `demo.run` does not exist");
    assert_eq!(
        ResolveError::Unavailable { action: action(), reasons: "requires OS: freebsd".into() }
            .message(),
        "action `demo.run` is unavailable: requires OS: freebsd"
    );
    let io = std::io::Error::new(std::io::ErrorKind::Other, "full");
    assert_eq!(
        ResolveError::CreateTemp { action: action(), source: io }.message(),
        "could not create a temporary directory for action `demo.run`: full"
    );
    assert_eq!(
        ResolveError::MissingAsset { action: action(), path: "a.txt".into() }.message(),
        "bundled asset `a.txt` for action `demo.run` is missing"
    );
    let io = std::io::Error::new(std::io::ErrorKind::Other, "denied");
    assert_eq!(
        ResolveError::Extract { action: action(), path: "a.txt".into(), source: io }.message(),
        "could not extract asset `a.txt` for action `demo.run`: denied"
    );
    assert_eq!(
        ResolveError::InterpreterDisappeared { action: action(), program: "bash".into() }
            .message(),
        "interpreter `bash` for action `demo.run` disappeared from PATH"
    );
}

#[test]
fn start_and_terminal_error_messages() {
    assert_eq!(
        StartError::Allocate("no pty".into()).message(),
        "could not allocate a pseudo-terminal: no pty"
    );
    assert_eq!(
        StartError::OpenReader("x".into()).message(),
        "could not open the pseudo-terminal output stream: x"
    );
    assert_eq!(
        StartError::OpenWriter("y".into()).message(),
        "could not open the pseudo-terminal input stream: y"
    );
    assert_eq!(
        StartError::Spawn { action: action(), message: "not found".into() }.message(),
        "could not launch action `demo.run`: not found"
    );
    let io = std::io::Error::new(std::io::ErrorKind::Other, "no threads");
    assert_eq!(
        StartError::Monitor(io).message(),
        "could not start the action output monitor: no threads"
    );
    let io = std::io::Error::new(std::io::ErrorKind::Other, "closed");
    assert_eq!(TuiError::Terminal(io).message(), "terminal error: closed");
}
