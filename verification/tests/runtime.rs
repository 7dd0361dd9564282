use std::str::FromStr;

use crank::catalog::{load_embedded, ActionId};
use crank::execution::{exit_result, output_chunk, ExecutionStatus, RuntimeEvent};
use crank::host::Host;
use crank::runtime::{command_for, find_action, select_action, ResolveError};

fn host() -> Host {
    Host::new("linux", "x86_64", vec!["/usr/bin".into(), "/bin".into()])
}

fn sh_only(path: &str) -> bool {
    path == "/bin/sh"
}

#[test]
fn command_keeps_extracted_script_alive() {
    let bundle = load_embedded().unwrap();
    let host = host();
    let id = bundle.catalog.actions[0].id.clone();
    let action = select_action(&bundle.catalog, &id, &host, &sh_only).unwrap();
    let command = command_for(action, &host, &sh_only, "/tmp/crank-test").unwrap();
    let script = command.args.last().unwrap();
    assert_eq!(script, "/tmp/crank-test/scripts/hello.sh");
    assert!(command.working_directory.starts_with(command.assets_root()));
    assert_eq!(command.working_directory, "/tmp/crank-test/scripts");
    assert_eq!(command.program, "/bin/sh");
    assert_eq!(command.action_id, id);
}

#[test]
fn unknown_and_unavailable_actions_are_refused() {
    let bundle = load_embedded().unwrap();
    let host = host();
    let missing = ActionId::from_str("fixture.missing").unwrap();
    assert!(matches!(
        select_action(&bundle.catalog, &missing, &host, &sh_only),
        Err(ResolveError::UnknownAction(id)) if id == missing
    ));
    assert!(find_action(&bundle.catalog, &missing).is_none());
    let id = ActionId::from_str("fixture.hello").unwrap();
    let result = select_action(&bundle.catalog, &id, &host, &|_: &str| false);
    assert!(matches!(
        result,
        Err(ResolveError::Unavailable { reasons, .. }) if reasons == "interpreter `sh` was not found on PATH"
    ));
}

#[test]
fn interpreter_that_disappeared_is_reported() {
    let bundle = load_embedded().unwrap();
    let action = &bundle.catalog.actions[0];
    let result = command_for(action, &host(), &|_: &str| false, "/tmp/x");
    assert!(matches!(
        result,
        Err(ResolveError::InterpreterDisappeared { program, .. }) if program == "sh"
    ));
}

#[test]
fn interpreter_arguments_come_before_the_script() {
    let bundle = load_embedded().unwrap();
    let mut action = bundle.catalog.actions[2].clone();
    action.interpreter.args = vec!["-e".into(), "-u".into()];
    let command = command_for(&action, &host(), &sh_only, "/var/tmp/a b").unwrap();
    assert_eq!(command.args, vec!["-e", "-u", "/var/tmp/a b/scripts/fail.sh"]);
}

#[test]
fn cancelled_runs_have_a_distinct_status() {
    let id = ActionId::from_str("fixture.interrupt").unwrap();
    let cancelled = exit_result(id.clone(), true, 0, None);
    assert_eq!(cancelled.status, ExecutionStatus::Cancelled);
    let signalled = exit_result(id.clone(), true, 1, Some("Interrupt".into()));
    assert_eq!(signalled.status, ExecutionStatus::Cancelled);
    assert_eq!(signalled.exit_code, None);
    assert_eq!(signalled.signal.as_deref(), Some("Interrupt"));
    let ok = exit_result(id.clone(), false, 0, None);
    assert_eq!((ok.status, ok.exit_code), (ExecutionStatus::Succeeded, Some(0)));
    let failed = exit_result(id.clone(), false, 42, None);
    assert_eq!((failed.status, failed.exit_code), (ExecutionStatus::Failed, Some(42)));
    let killed = exit_result(id, false, 0, Some("Killed".into()));
    assert_eq!(killed.status, ExecutionStatus::Failed);
}

#[test]
fn output_chunks_keep_every_byte_read() {
    let buffer = b"hello world";
    assert_eq!(
        output_chunk(buffer, Some(5)),
        Some(RuntimeEvent::Output(b"hello".to_vec()))
    );
    assert_eq!(output_chunk(buffer, Some(0)), None);
    assert_eq!(output_chunk(buffer, None), None);
}
