use std::str::FromStr;

use crank::catalog::{load_embedded, ActionId, EmbeddedFiles};
use crank::execution::{ExecutionResult, ExecutionStatus, RuntimeEvent};
use crank::tui::{
    accent, cell_style, centered, encode_key, execution_dimensions, execution_status,
    preview_source, resize_message, shifted, single_column, too_small, App, CellAttributes,
    Color, Command, Event, ExecutionView, KeyCode, KeyEvent, KeyEventKind, KeyModifiers, Pane,
    Rect, Screen, TerminalColor,
};

fn everything_is_executable(_: &str) -> bool {
    true
}

fn app() -> App {
    let bundle = load_embedded().unwrap();
    App::new(bundle.catalog, bundle.source, crank::host::Host::new("linux", "x86_64", vec!["/bin".into()]), true, &everything_is_executable)
}

fn press(code: KeyCode) -> Event {
    Event::Key(KeyEvent {
        code,
        modifiers: KeyModifiers { control: false, alt: false },
        kind: KeyEventKind::Press,
    })
}

fn control(c: char) -> KeyEvent {
    KeyEvent {
        code: KeyCode::Char(c),
        modifiers: KeyModifiers { control: true, alt: false },
        kind: KeyEventKind::Press,
    }
}

fn id_of(app: &App, index: usize) -> String {
    app.catalog.actions[index].id.as_str().to_owned()
}

#[test]
fn search_matches_descriptions_across_categories() {
    let mut app = app();
    app.search = "status 42".to_owned();
    let actions = app.filtered_actions();
    assert_eq!(actions.len(), 1);
    assert_eq!(app.catalog.actions[actions[0]].id.as_str(), "fixture.fail");
}

#[test]
fn cancel_is_the_confirmation_default() {
    let action = ActionId::from_str("fixture.hello").unwrap();
    let view = Screen::Confirm {
        action,
        run_selected: false,
    };
    assert!(matches!(
        view,
        Screen::Confirm {
            run_selected: false,
            ..
        }
    ));
}

#[test]
fn control_c_is_forwarded_as_an_interrupt_byte() {
    assert_eq!(encode_key(control('c')), Some(vec![3]));
}

#[test]
fn terminal_output_preserves_ansi_colors() {
    let mut parser = vt100::Parser::new(2, 10, 0);
    parser.process(b"\x1b[31mred\x1b[0m");
    let cell = parser.screen().cell(0, 0).unwrap();
    let convert = |c: vt100::Color| match c {
        vt100::Color::Default => TerminalColor::Default,
        vt100::Color::Idx(i) => TerminalColor::Indexed(i),
        vt100::Color::Rgb(r, g, b) => TerminalColor::Rgb(r, g, b),
    };
    let attributes = CellAttributes {
        foreground: convert(cell.fgcolor()),
        background: convert(cell.bgcolor()),
        inverse: cell.inverse(),
        bold: cell.bold(),
        italic: cell.italic(),
        underline: cell.underline(),
    };
    assert_eq!(cell_style(attributes, true).foreground, Some(Color::Indexed(1)));
}

#[test]
fn search_ignores_case() {
    let mut app = app();
    app.search = "STATUS 42".to_owned();
    let actions = app.filtered_actions();
    assert_eq!(actions.len(), 1);
    assert_eq!(id_of(&app, actions[0]), "fixture.fail");
}

#[test]
fn without_search_the_selected_category_is_listed() {
    let mut app = app();
    assert_eq!(app.filtered_actions(), vec![0, 1, 2]);
    app.selected_category = 1;
    assert_eq!(app.filtered_actions(), vec![3, 4]);
    app.selected_category = 7;
    assert!(app.filtered_actions().is_empty());
    assert_eq!(app.details_text(), "No actions match the current filters.");
}

#[test]
fn typing_in_search_edits_the_query() {
    let mut app = app();
    let files = EmbeddedFiles;
    assert_eq!(app.handle_event(&files, press(KeyCode::Char('/'))), Command::Idle);
    assert!(app.searching);
    for c in "colx".chars() {
        app.handle_event(&files, press(KeyCode::Char(c)));
    }
    assert_eq!(app.search, "colx");
    app.handle_event(&files, press(KeyCode::Backspace));
    assert_eq!(app.search, "col");
    assert_eq!(app.search_line(), "col_");
    assert_eq!(app.actions_title(), " Search results ");
    assert_eq!(app.search_box_height(), 3);
    app.handle_event(&files, press(KeyCode::Enter));
    assert!(!app.searching);
    assert_eq!(app.search_line(), "col");
    let actions = app.filtered_actions();
    assert_eq!(actions.len(), 1);
    assert_eq!(id_of(&app, actions[0]), "fixture.colors");
}

#[test]
fn q_quits_and_question_mark_opens_help() {
    let mut app = app();
    let files = EmbeddedFiles;
    app.handle_event(&files, press(KeyCode::Char('?')));
    assert_eq!(app.view, Screen::Help);
    app.handle_event(&files, press(KeyCode::Char('q')));
    assert_eq!(app.view, Screen::Browse);
    assert!(!app.quit);
    app.handle_event(&files, press(KeyCode::Char('q')));
    assert!(app.quit);
}

#[test]
fn enter_opens_confirmation_and_run_starts_the_action() {
    let mut app = app();
    let files = EmbeddedFiles;
    app.terminal_width = 100;
    app.terminal_height = 30;
    app.handle_event(&files, press(KeyCode::Enter));
    assert_eq!(app.pane, Pane::Actions);
    app.handle_event(&files, press(KeyCode::Down));
    app.handle_event(&files, press(KeyCode::Enter));
    let Screen::Confirm { action, run_selected } = &app.view else {
        panic!("confirmation expected");
    };
    assert_eq!(action.as_str(), "fixture.prompt");
    assert!(!run_selected);
    let text = app.confirm_text(action, false).unwrap();
    assert!(text.starts_with("Prompt\n\nAsk for a name and greet it.\n\n> Cancel <"));
    app.handle_event(&files, press(KeyCode::Right));
    let command = app.handle_event(&files, press(KeyCode::Enter));
    let Command::Start { action, rows, cols } = command else {
        panic!("start expected");
    };
    assert_eq!(action.as_str(), "fixture.prompt");
    assert_eq!((rows, cols), (25, 98));
}

#[test]
fn enter_on_cancel_returns_to_the_catalog() {
    let mut app = app();
    let files = EmbeddedFiles;
    app.pane = Pane::Actions;
    app.handle_event(&files, press(KeyCode::Enter));
    assert!(matches!(app.view, Screen::Confirm { .. }));
    assert_eq!(app.handle_event(&files, press(KeyCode::Enter)), Command::Idle);
    assert_eq!(app.view, Screen::Browse);
}

#[test]
fn unavailable_actions_cannot_be_confirmed() {
    let bundle = load_embedded().unwrap();
    let mut app = App::new(
        bundle.catalog,
        bundle.source,
        crank::host::Host::new("linux", "x86_64", Vec::new()),
        false,
        &|_: &str| false,
    );
    let files = EmbeddedFiles;
    assert!(app.filtered_actions().is_empty());
    app.handle_event(&files, press(KeyCode::Char('u')));
    assert!(app.show_unavailable);
    assert_eq!(app.action_items(), vec![
        "Hello [unavailable]".to_owned(),
        "Prompt [unavailable]".to_owned(),
        "Fail [unavailable]".to_owned(),
    ]);
    assert!(app.details_text().starts_with(
        "Print a greeting and the text of a bundled asset. Unavailable: interpreter `sh` was not found on PATH"
    ));
    app.pane = Pane::Actions;
    app.handle_event(&files, press(KeyCode::Enter));
    assert_eq!(app.view, Screen::Browse);
    assert_eq!(app.key_hints(), "↑↓ move  Enter select  / search  p preview  u hide unavailable  ? help  q quit");
}

#[test]
fn preview_shows_the_script_source() {
    let mut app = app();
    let files = EmbeddedFiles;
    app.selected_action = 2;
    app.handle_event(&files, press(KeyCode::Char('p')));
    let Screen::Preview { action, source } = &app.view else {
        panic!("preview expected");
    };
    assert_eq!(action.as_str(), "fixture.fail");
    assert!(source.contains("exit 42"));
    app.handle_event(&files, press(KeyCode::Esc));
    assert_eq!(app.view, Screen::Browse);
}

#[test]
fn preview_of_unreadable_script() {
    assert_eq!(preview_source(None), "Script source is unavailable.");
    assert_eq!(preview_source(Some(b"ab\xffc".to_vec())), "ab\u{fffd}c");
}

#[test]
fn running_action_receives_keys_and_results() {
    let mut app = app();
    let files = EmbeddedFiles;
    let id = ActionId::from_str("fixture.fail").unwrap();
    app.begin_execution(&id, 20, 70);
    let Screen::Execution(e) = &app.view else {
        panic!("execution view expected");
    };
    assert_eq!(e.label, "Fail");
    assert_eq!(execution_status(e), "Ctrl-C interrupts child  Ctrl-X cancels session");
    assert_eq!(
        app.handle_event(&files, Event::Key(control('c'))),
        Command::Send(vec![3])
    );
    assert_eq!(app.handle_event(&files, Event::Key(control('x'))), Command::Cancel);
    assert_eq!(
        app.handle_event(&files, press(KeyCode::Up)),
        Command::Send(vec![27, 91, 65])
    );
    assert_eq!(
        app.handle_event(&files, Event::Resize { width: 90, height: 40 }),
        Command::Resize { rows: 35, cols: 88 }
    );
    assert_eq!(
        app.record_runtime_event(RuntimeEvent::Output(b"x".to_vec())),
        Some(b"x".to_vec())
    );
    let result = ExecutionResult {
        action_id: id.clone(),
        status: ExecutionStatus::Failed,
        exit_code: Some(42),
        signal: None,
    };
    assert_eq!(app.record_runtime_event(RuntimeEvent::Exited(result)), None);
    let Screen::Execution(e) = &app.view else {
        panic!("execution view expected");
    };
    assert_eq!(execution_status(e), "Failed (exit 42)  Esc or Enter returns to catalog");
    assert_eq!(app.handle_event(&files, press(KeyCode::Char('a'))), Command::Idle);
    app.handle_event(&files, press(KeyCode::Enter));
    assert_eq!(app.view, Screen::Browse);
}

#[test]
fn errors_are_recorded_in_the_execution_view() {
    let mut app = app();
    let id = ActionId::from_str("fixture.hello").unwrap();
    app.cancel_failed("ignored");
    assert_eq!(app.view, Screen::Browse);
    app.begin_execution(&id, 5, 5);
    app.input_failed("broken pipe");
    let Screen::Execution(ExecutionView { error: Some(error), .. }) = &app.view else {
        panic!("error expected");
    };
    assert_eq!(error, "could not send input to action: broken pipe");
    let Screen::Execution(e) = &app.view else {
        panic!("execution view expected");
    };
    assert_eq!(execution_status(e), "Error: could not send input to action: broken pipe  Esc returns to catalog");
}

#[test]
fn start_failure_is_previewed() {
    let mut app = app();
    let id = ActionId::from_str("fixture.hello").unwrap();
    app.start_failed(&id, "no shell");
    assert_eq!(
        app.view,
        Screen::Preview { action: id, source: "Unable to start action:\n\nno shell".to_owned() }
    );
}

#[test]
fn released_keys_are_ignored() {
    let mut app = app();
    let files = EmbeddedFiles;
    let event = Event::Key(KeyEvent {
        code: KeyCode::Char('q'),
        modifiers: KeyModifiers { control: false, alt: false },
        kind: KeyEventKind::Release,
    });
    assert_eq!(app.handle_event(&files, event), Command::Idle);
    assert!(!app.quit);
}

#[test]
fn selection_moves_stop_at_the_ends() {
    assert_eq!(shifted(0, 3, -1), 0);
    assert_eq!(shifted(1, 3, 1), 2);
    assert_eq!(shifted(2, 3, 5), 2);
    assert_eq!(shifted(4, 0, 1), 0);
    let mut app = app();
    app.move_selection(1);
    assert_eq!(app.selected_category, 1);
    app.move_selection(1);
    assert_eq!(app.selected_category, 1);
    app.pane = Pane::Actions;
    app.move_selection(-1);
    assert_eq!(app.selected_action, 0);
    app.move_selection(1);
    assert_eq!(app.selected_action, 1);
    assert_eq!(app.list_selection(0), None);
    assert_eq!(app.list_selection(1), Some(0));
}

#[test]
fn key_encoding() {
    let plain = |code| KeyEvent { code, modifiers: KeyModifiers { control: false, alt: false }, kind: KeyEventKind::Press };
    assert_eq!(encode_key(plain(KeyCode::Enter)), Some(vec![13]));
    assert_eq!(encode_key(plain(KeyCode::Delete)), Some(vec![27, 91, 51, 126]));
    assert_eq!(encode_key(plain(KeyCode::Char('é'))), Some("é".as_bytes().to_vec()));
    assert_eq!(encode_key(control('Z')), Some(vec![26]));
    assert_eq!(encode_key(control('1')), Some(vec![b'1']));
    assert_eq!(encode_key(plain(KeyCode::Other)), None);
}

#[test]
fn layout_helpers() {
    assert!(too_small(47, 20));
    assert!(too_small(60, 13));
    assert!(!too_small(48, 14));
    assert!(single_column(71));
    assert!(!single_column(72));
    assert_eq!(resize_message(30, 10), "Crank needs at least 48x14.\nCurrent size: 30x10");
    assert_eq!(execution_dimensions(2, 3), (1, 1));
    assert_eq!(execution_dimensions(80, 24), (19, 78));
    let area = Rect { x: 2, y: 1, width: 40, height: 10 };
    assert_eq!(centered(area, 20, 4), Rect { x: 12, y: 4, width: 20, height: 4 });
    assert_eq!(centered(area, 60, 40), area);
}

#[test]
fn styles() {
    let cell = CellAttributes {
        foreground: TerminalColor::Indexed(2),
        background: TerminalColor::Rgb(1, 2, 3),
        inverse: true,
        bold: true,
        italic: false,
        underline: true,
    };
    let coloured = cell_style(cell, true);
    assert_eq!(coloured.foreground, Some(Color::Rgb(1, 2, 3)));
    assert_eq!(coloured.background, Some(Color::Indexed(2)));
    assert!(!coloured.reversed && coloured.bold && coloured.underlined && !coloured.italic);
    let plain = cell_style(cell, false);
    assert_eq!(plain.foreground, None);
    assert!(plain.reversed);
    assert_eq!(accent(true).foreground, Some(Color::Cyan));
    assert!(accent(false).bold);
}

#[test]
fn local_catalogs_are_marked() {
    let mut app = app();
    assert_eq!(app.mode_label(), "");
    app.source = crank::catalog::CatalogSource::Local("/tmp/cat".into());
    assert_eq!(app.mode_label(), "  LOCAL CATALOG: /tmp/cat");
}

#[test]
fn returning_to_the_catalog_keeps_navigation() {
    let mut app = app();
    let files = EmbeddedFiles;
    app.handle_event(&files, press(KeyCode::Char('/')));
    app.handle_event(&files, press(KeyCode::Char('e')));
    app.handle_event(&files, press(KeyCode::Enter));
    app.pane = Pane::Actions;
    app.handle_event(&files, press(KeyCode::Down));
    let before = (app.selected_category, app.selected_action, app.pane, app.search.clone(), app.searching);
    assert_eq!(before.1, 1);
    app.handle_event(&files, press(KeyCode::Char('?')));
    app.handle_event(&files, press(KeyCode::Esc));
    app.handle_event(&files, press(KeyCode::Enter));
    assert!(matches!(app.view, Screen::Confirm { .. }));
    app.handle_event(&files, press(KeyCode::Esc));
    let id = ActionId::from_str("fixture.hello").unwrap();
    app.begin_execution(&id, 10, 10);
    app.start_failed(&id, "gone");
    app.handle_event(&files, press(KeyCode::Esc));
    assert_eq!(app.view, Screen::Browse);
    let after = (app.selected_category, app.selected_action, app.pane, app.search.clone(), app.searching);
    assert_eq!(before, after);
}

#[test]
fn search_results_do_not_depend_on_the_selected_category() {
    let mut app = app();
    app.search = "e".to_owned();
    let first = app.filtered_actions();
    app.selected_category = 1;
    assert_eq!(app.filtered_actions(), first);
    assert_eq!(first.len(), 5);
}
