use std::str::FromStr;

use crank::catalog::{ActionDefinition, ActionId, CategoryId, Interpreter, Requirements};
use crank::host::{availability, normalize_arch, normalize_os, Availability, Host};

fn action() -> ActionDefinition {
    ActionDefinition {
        id: ActionId::from_str("test").unwrap(),
        label: "Test".into(),
        description: "Test".into(),
        category: CategoryId::from_str("tests").unwrap(),
        script: "test.sh".into(),
        interpreter: Interpreter::default(),
        requirements: Requirements::default(),
    }
}

fn nothing_is_executable(_: &str) -> bool {
    false
}

#[test]
fn explains_every_missing_capability() {
    let mut action = action();
    action.requirements.os = vec!["freebsd".into()];
    action.requirements.executables = vec!["definitely-not-installed".into()];
    let host = Host {
        os: "linux".into(),
        arch: "x86_64".into(),
        path: Vec::new(),
    };
    let Availability::Unavailable { reasons } = availability(&action, &host, &nothing_is_executable)
    else {
        panic!("action should be unavailable");
    };
    assert_eq!(reasons.len(), 3);
}

#[test]
fn reasons_name_each_unmet_requirement_in_order() {
    let mut action = action();
    action.requirements.os = vec!["freebsd".into(), "darwin".into()];
    action.requirements.arch = vec!["arm64".into()];
    action.requirements.executables = vec!["git".into(), "curl".into()];
    let host = Host::new("linux", "amd64", vec!["/usr/bin".into()]);
    let probe = |path: &str| path == "/usr/bin/sh" || path == "/usr/bin/curl";
    let Availability::Unavailable { reasons } = availability(&action, &host, &probe) else {
        panic!("action should be unavailable");
    };
    assert_eq!(
        reasons,
        vec![
            "requires OS: freebsd, darwin".to_owned(),
            "requires architecture: arm64".to_owned(),
            "required executable `git` was not found on PATH".to_owned(),
        ]
    );
}

#[test]
fn available_when_every_requirement_is_met() {
    let mut action = action();
    action.requirements.os = vec!["darwin".into()];
    action.requirements.arch = vec!["arm64".into()];
    let host = Host::new("macos", "aarch64", vec!["/bin".into()]);
    let result = availability(&action, &host, &|path: &str| path == "/bin/sh");
    assert!(result.is_available());
    assert_eq!(result, Availability::Available);
}

#[test]
fn interpreter_reason_names_the_program() {
    let mut action = action();
    action.interpreter.program = "bash".into();
    let host = Host::new("linux", "x86_64", vec!["/bin".into()]);
    let Availability::Unavailable { reasons } = availability(&action, &host, &nothing_is_executable)
    else {
        panic!("action should be unavailable");
    };
    assert_eq!(reasons, vec!["interpreter `bash` was not found on PATH".to_owned()]);
}

#[test]
fn normalizes_platform_names() {
    assert_eq!(normalize_os("darwin"), "macos");
    assert_eq!(normalize_os("macos"), "macos");
    assert_eq!(normalize_os("linux"), "linux");
    assert_eq!(normalize_arch("amd64"), "x86_64");
    assert_eq!(normalize_arch("x86-64"), "x86_64");
    assert_eq!(normalize_arch("x64"), "x86_64");
    assert_eq!(normalize_arch("arm64"), "aarch64");
    assert_eq!(normalize_arch("riscv64"), "riscv64");
    assert_eq!(normalize_arch(normalize_arch("arm64")), "aarch64");
    let host = Host::new("darwin", "amd64", vec![]);
    assert_eq!((host.os.as_str(), host.arch.as_str()), ("macos", "x86_64"));
}

#[test]
fn resolves_the_first_executable_on_the_path() {
    let host = Host::new("linux", "x86_64", vec!["/opt/bin".into(), "/usr/bin/".into(), "/bin".into()]);
    let probe = |path: &str| path == "/usr/bin/sh" || path == "/bin/sh";
    assert_eq!(host.resolve_executable("sh", &probe).as_deref(), Some("/usr/bin/sh"));
    assert_eq!(host.resolve_executable("zsh", &probe), None);
    let exact = |path: &str| path == "./tools/run";
    assert_eq!(host.resolve_executable("./tools/run", &exact).as_deref(), Some("./tools/run"));
    assert_eq!(host.resolve_executable("tools/run", &exact), None);
}
