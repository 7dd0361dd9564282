//! The interactive catalog browser: navigation, search, confirmation and the
//! execution view, as a state machine driven by terminal events.
use vstd::prelude::*;

use crate::catalog::{ActionDefinition, ActionId, Catalog, CatalogFiles, CatalogSource};
use crate::execution::{ExecutionResult, ExecutionStatus, RuntimeEvent};
use crate::host::{availability, possible_reasons, reason_texts, Availability, Host};
use crate::text::{chars_of, contains_text, lowercase, text_contains, to_lowercase};

verus! {

/// Smallest width and height at which the browser is drawn.
pub const MINIMUM_WIDTH: u16 = 48;

pub const MINIMUM_HEIGHT: u16 = 14;

/// Lines of scrollback kept by the terminal emulator of the execution view.
pub const SCROLLBACK_LINES: usize = 1000;

#[derive(Debug)]
pub enum TuiError {
    NoTerminal,
    Terminal(std::io::Error),
}

#[derive(Clone, Copy, Debug, PartialEq, Eq, Structural)]
pub enum Pane {
    Categories,
    Actions,
}

/// The keys the browser distinguishes.
#[derive(Clone, Copy, Debug, PartialEq, Eq, Structural)]
pub enum KeyCode {
    Enter,
    Backspace,
    Tab,
    Esc,
    Up,
    Down,
    Left,
    Right,
    Home,
    End,
    Delete,
    Char(char),
    Other,
}

#[derive(Clone, Copy, Debug, PartialEq, Eq, Structural)]
pub struct KeyModifiers {
    pub control: bool,
    pub alt: bool,
}

#[derive(Clone, Copy, Debug, PartialEq, Eq, Structural)]
pub enum KeyEventKind {
    Press,
    Repeat,
    Release,
}

#[derive(Clone, Copy, Debug, PartialEq, Eq, Structural)]
pub struct KeyEvent {
    pub code: KeyCode,
    pub modifiers: KeyModifiers,
    pub kind: KeyEventKind,
}

/// A terminal event.
#[derive(Clone, Copy, Debug, PartialEq, Eq, Structural)]
pub enum Event {
    Key(KeyEvent),
    Resize { width: u16, height: u16 },
    Other,
}

/// The running (or finished) action shown in the execution view.
#[derive(Clone, Debug, PartialEq, Eq)]
pub struct ExecutionView {
    pub action: ActionId,
    pub label: String,
    pub result: Option<ExecutionResult>,
    pub error: Option<String>,
    pub rows: u16,
    pub cols: u16,
}

#[derive(Clone, Debug, PartialEq, Eq)]
pub enum Screen {
    Browse,
    Help,
    Preview { action: ActionId, source: String },
    Confirm { action: ActionId, run_selected: bool },
    Execution(ExecutionView),
}

/// What the caller must do after an event.
#[derive(Clone, Debug, PartialEq, Eq)]
pub enum Command {
    Idle,
    /// Resolve and launch the action in a terminal of this size.
    Start { action: ActionId, rows: u16, cols: u16 },
    /// Resize the running session's terminal.
    Resize { rows: u16, cols: u16 },
    /// Send these bytes to the running session.
    Send(Vec<u8>),
    /// Cancel the running session.
    Cancel,
}

/// The browser's state.
#[derive(Clone, Debug)]
pub struct App {
    pub catalog: Catalog,
    pub source: CatalogSource,
    pub host: Host,
    pub availability: Vec<Availability>,
    pub selected_category: usize,
    pub selected_action: usize,
    pub pane: Pane,
    pub search: String,
    pub searching: bool,
    pub show_unavailable: bool,
    pub view: Screen,
    pub quit: bool,
    pub color: bool,
    pub terminal_width: u16,
    pub terminal_height: u16,
}

impl App {
    /// One availability entry per action.
    pub open spec fn well_formed(&self) -> bool {
        self.availability@.len() == self.catalog.actions@.len()
    }
}

/// Action `i` is listed: it is available (or unavailable actions are shown),
/// and it matches the search (case-insensitively, in its label or description)
/// or, with no search, belongs to the selected category.
pub open spec fn shown(app: App, i: int) -> bool {
    let a = app.catalog.actions@[i];
    let q = lowercase(app.search@);
    &&& (app.show_unavailable || app.availability@[i] is Available)
    &&& (q.len() == 0 || contains_text(lowercase(a.label@), q) || contains_text(
        lowercase(a.description@),
        q,
    ))
    &&& (q.len() != 0 || (app.selected_category < app.catalog.categories@.len()
        && a.category@ == app.catalog.categories@[app.selected_category as int].id@))
}

/// The listed actions among the first `n`, by index, in catalog order.
pub open spec fn shown_upto(app: App, n: int) -> Seq<int>
    decreases n,
{
    if n <= 0 {
        Seq::empty()
    } else if shown(app, n - 1) {
        shown_upto(app, n - 1).push(n - 1)
    } else {
        shown_upto(app, n - 1)
    }
}

/// Indices of the listed actions, in catalog order.
pub open spec fn filtered(app: App) -> Seq<int> {
    shown_upto(app, app.catalog.actions@.len() as int)
}

/// `selection` kept within a list of `len` entries.
pub open spec fn clamped(selection: int, len: int) -> int {
    if len == 0 {
        0
    } else if selection < len - 1 {
        selection
    } else {
        len - 1
    }
}

/// Index of the highlighted action, if any action is listed.
pub open spec fn selected_index(app: App) -> Option<int> {
    let f = filtered(app);
    if f.len() == 0 {
        None
    } else {
        Some(f[clamped(app.selected_action as int, f.len() as int)])
    }
}

/// Moving a selection by `delta` in a list of `len` entries: downward moves stop
/// at the last entry, upward moves at the first; an empty list selects 0.
pub open spec fn shifted_to(current: int, len: int, delta: int) -> int {
    if len == 0 {
        0
    } else if delta < 0 {
        if current + delta < 0 {
            0
        } else {
            current + delta
        }
    } else if current + delta < len - 1 {
        current + delta
    } else {
        len - 1
    }
}

pub fn shifted(current: usize, len: usize, delta: isize) -> (r: usize)
    ensures
        r == shifted_to(current as int, len as int, delta as int),
{
    if len == 0 {
        0
    } else if delta < 0 {
        let up: isize = -(delta + 1);
        let magnitude: usize = (up as usize) + 1;
        if current >= magnitude {
            current - magnitude
        } else {
            0
        }
    } else {
        let down: usize = delta as usize;
        if current < len - 1 && down < len - 1 - current {
            current + down
        } else {
            len - 1
        }
    }
}

proof fn lemma_shown_upto_bounds(app: App, n: int)
    requires
        0 <= n,
    ensures
        shown_upto(app, n).len() <= n,
        forall|k: int| 0 <= k < shown_upto(app, n).len() ==> 0 <= #[trigger] shown_upto(app, n)[k] < n,
        forall|k: int, l: int| 0 <= k < l < shown_upto(app, n).len() ==> shown_upto(app, n)[k] < shown_upto(app, n)[l],
    decreases n,
{
    if n > 0 {
        lemma_shown_upto_bounds(app, n - 1);
    }
}

impl App {
    /// A browser over `catalog` in its initial state, with the availability
    /// of every action computed once.
    pub fn new<F: Fn(&str) -> bool>(
        catalog: Catalog,
        source: CatalogSource,
        host: Host,
        color: bool,
        is_executable: &F,
    ) -> (r: App)
        requires
            forall|s: &str| call_requires(*is_executable, (s,)),
        ensures
            r.well_formed(),
            r.catalog == catalog,
            r.source == source,
            r.host == host,
            forall|i: int|
                0 <= i < r.availability@.len() ==> possible_reasons(
                    catalog.actions@[i],
                    host,
                    *is_executable,
                    reason_texts(#[trigger] r.availability@[i]),
                ),
            forall|i: int|
                0 <= i < r.availability@.len() ==> ((#[trigger] r.availability@[i]) is Available
                    <==> reason_texts(r.availability@[i]).len() == 0),
            r.selected_category == 0,
            r.selected_action == 0,
            r.pane == Pane::Categories,
            r.search@.len() == 0,
            !r.searching,
            !r.show_unavailable,
            r.view == Screen::Browse,
            !r.quit,
            r.color == color,
            r.terminal_width == 80,
            r.terminal_height == 24,
    {
        let mut states: Vec<Availability> = Vec::new();
        let mut i: usize = 0;
        while i < catalog.actions.len()
            invariant
                i <= catalog.actions@.len(),
                states@.len() == i,
                forall|s: &str| call_requires(*is_executable, (s,)),
                forall|j: int|
                    0 <= j < i ==> possible_reasons(
                        catalog.actions@[j],
                        host,
                        *is_executable,
                        reason_texts(#[trigger] states@[j]),
                    ),
                forall|j: int|
                    0 <= j < i ==> ((#[trigger] states@[j]) is Available <==> reason_texts(
                        states@[j],
                    ).len() == 0),
            decreases catalog.actions@.len() - i,
        {
            let a = availability(&catalog.actions[i], &host, is_executable);
            states.push(a);
            i = i + 1;
        }
        App {
            catalog,
            source,
            host,
            availability: states,
            selected_category: 0,
            selected_action: 0,
            pane: Pane::Categories,
            search: String::new(),
            searching: false,
            show_unavailable: false,
            view: Screen::Browse,
            quit: false,
            color,
            terminal_width: 80,
            terminal_height: 24,
        }
    }

    /// Indices of the listed actions, in catalog order.
    pub fn filtered_actions(&self) -> (r: Vec<usize>)
        requires
            self.well_formed(),
        ensures
            r@.len() == filtered(*self).len(),
            forall|k: int| 0 <= k < r@.len() ==> r@[k] as int == #[trigger] filtered(*self)[k],
    {
        let query = to_lowercase(self.search.as_str());
        let q = chars_of(query.as_str());
        let n = self.catalog.actions.len();
        let mut r: Vec<usize> = Vec::new();
        let mut i: usize = 0;
        while i < n
            invariant
                self.well_formed(),
                n == self.catalog.actions@.len(),
                q@ == lowercase(self.search@),
                i <= n,
                r@.len() == shown_upto(*self, i as int).len(),
                forall|k: int| 0 <= k < r@.len() ==> r@[k] as int == #[trigger] shown_upto(*self, i as int)[k],
            decreases n - i,
        {
            let action = &self.catalog.actions[i];
            let available = self.show_unavailable || self.availability[i].is_available();
            let matches = if q.len() == 0 {
                match self.catalog.categories.get(self.selected_category) {
                    Some(category) => action.category.same_as(&category.id),
                    None => false,
                }
            } else {
                let label = chars_of(to_lowercase(action.label.as_str()).as_str());
                let description = chars_of(to_lowercase(action.description.as_str()).as_str());
                text_contains(&label, &q) || text_contains(&description, &q)
            };
            let ghost before = r@;
            if available && matches {
                r.push(i);
            }
            assert(shown(*self, i as int) == (available && matches));
            assert forall|k: int| 0 <= k < r@.len() implies r@[k] as int == #[trigger] shown_upto(
                *self,
                i + 1,
            )[k] by {
                if k < before.len() {
                    assert(r@[k] == before[k]);
                }
            }
            i = i + 1;
        }
        r
    }
}

} // verus!

verus! {

/// The terminal size given to a running action: the screen less its frame.
pub open spec fn execution_size(width: u16, height: u16) -> (u16, u16) {
    (
        if height > 6 {
            (height - 5) as u16
        } else {
            1
        },
        if width > 3 {
            (width - 2) as u16
        } else {
            1
        },
    )
}

pub fn execution_dimensions(width: u16, height: u16) -> (r: (u16, u16))
    ensures
        r == execution_size(width, height),
        r.0 >= 1,
        r.1 >= 1,
{
    let rows = if height > 6 {
        height - 5
    } else {
        1
    };
    let cols = if width > 3 {
        width - 2
    } else {
        1
    };
    (rows, cols)
}

pub open spec fn is_ascii_alphabetic(c: char) -> bool {
    ('a' <= c && c <= 'z') || ('A' <= c && c <= 'Z')
}

/// The control byte for Ctrl + letter: 1 for `a`, 26 for `z`, either case.
pub open spec fn control_byte(c: char) -> u8 {
    if 'A' <= c && c <= 'Z' {
        ((c as u32) - 64) as u8
    } else {
        ((c as u32) - 96) as u8
    }
}

/// The bytes a key sends to a running action.
pub open spec fn key_bytes(key: KeyEvent) -> Option<Seq<u8>> {
    match key.code {
        KeyCode::Enter => Some(seq![13u8]),
        KeyCode::Backspace => Some(seq![127u8]),
        KeyCode::Tab => Some(seq![9u8]),
        KeyCode::Esc => Some(seq![27u8]),
        KeyCode::Up => Some(seq![27u8, 91u8, 65u8]),
        KeyCode::Down => Some(seq![27u8, 91u8, 66u8]),
        KeyCode::Right => Some(seq![27u8, 91u8, 67u8]),
        KeyCode::Left => Some(seq![27u8, 91u8, 68u8]),
        KeyCode::Home => Some(seq![27u8, 91u8, 72u8]),
        KeyCode::End => Some(seq![27u8, 91u8, 70u8]),
        KeyCode::Delete => Some(seq![27u8, 91u8, 51u8, 126u8]),
        KeyCode::Char(c) => if key.modifiers.control && is_ascii_alphabetic(c) {
            Some(seq![control_byte(c)])
        } else {
            Some(vstd::utf8::encode_utf8(seq![c]))
        },
        KeyCode::Other => None,
    }
}

fn bytes(values: &[u8]) -> (r: Vec<u8>)
    ensures
        r@ == values@,
{
    vstd::slice::slice_to_vec(values)
}

pub fn encode_key(key: KeyEvent) -> (r: Option<Vec<u8>>)
    ensures
        match r {
            Some(b) => key_bytes(key) == Some(b@),
            None => key_bytes(key) is None,
        },
{
    match key.code {
        KeyCode::Enter => Some(bytes(&[13u8])),
        KeyCode::Backspace => Some(bytes(&[127u8])),
        KeyCode::Tab => Some(bytes(&[9u8])),
        KeyCode::Esc => Some(bytes(&[27u8])),
        KeyCode::Up => Some(bytes(&[27u8, 91u8, 65u8])),
        KeyCode::Down => Some(bytes(&[27u8, 91u8, 66u8])),
        KeyCode::Right => Some(bytes(&[27u8, 91u8, 67u8])),
        KeyCode::Left => Some(bytes(&[27u8, 91u8, 68u8])),
        KeyCode::Home => Some(bytes(&[27u8, 91u8, 72u8])),
        KeyCode::End => Some(bytes(&[27u8, 91u8, 70u8])),
        KeyCode::Delete => Some(bytes(&[27u8, 91u8, 51u8, 126u8])),
        KeyCode::Char(c) => {
            if key.modifiers.control && (('a' <= c && c <= 'z') || ('A' <= c && c <= 'Z')) {
                let b: u8 = if 'A' <= c && c <= 'Z' {
                    ((c as u32) - 64) as u8
                } else {
                    ((c as u32) - 96) as u8
                };
                let mut v: Vec<u8> = Vec::new();
                v.push(b);
                Some(v)
            } else {
                let mut one: Vec<char> = Vec::new();
                one.push(c);
                let s = crate::text::string_of(one.as_slice());
                let v = vstd::slice::slice_to_vec(s.as_str().as_bytes());
                assert(one@ =~= seq![c]);
                Some(v)
            }
        },
        KeyCode::Other => None,
    }
}

} // verus!

verus! {

pub open spec fn active(key: KeyEvent) -> bool {
    key.kind == KeyEventKind::Press || key.kind == KeyEventKind::Repeat
}

/// The execution view's action has finished (or could not be followed).
pub open spec fn finished(screen: Screen) -> bool {
    match screen {
        Screen::Execution(e) => e.result is Some || e.error is Some,
        _ => false,
    }
}

/// The text previewed for a script, given what reading it returned: its bytes
/// decoded, or a notice when it could not be read.
pub open spec fn preview_text(read: Option<Seq<u8>>) -> Seq<char> {
    match read {
        Some(bytes) => crate::text::lossy_text(bytes),
        None => "Script source is unavailable."@,
    }
}

/// The text previewed for a script, given what reading it returned.
pub fn preview_source(read: Option<Vec<u8>>) -> (r: String)
    ensures
        r@ == preview_text(
            match read {
                Some(v) => Some(v@),
                None => None,
            },
        ),
{
    match read {
        Some(content) => crate::text::decode_lossy(content.as_slice()),
        None => owned("Script source is unavailable."),
    }
}

/// The text shown when an action could not be started.
pub open spec fn start_failure_text(reason: Seq<char>) -> Seq<char> {
    "Unable to start action:\n\n"@ + reason
}

pub open spec fn missing_action_text(id: Seq<char>) -> Seq<char> {
    "action `"@ + id + "` no longer exists"@
}

/// A selection move by `delta` in the focused pane.
pub open spec fn moved(old: App, new: App, delta: int) -> bool {
    match old.pane {
        Pane::Categories => new == App {
            selected_category: shifted_to(
                old.selected_category as int,
                old.catalog.categories@.len() as int,
                delta,
            ) as usize,
            selected_action: 0,
            ..old
        },
        Pane::Actions => new == App {
            selected_action: shifted_to(
                old.selected_action as int,
                filtered(old).len() as int,
                delta,
            ) as usize,
            ..old
        },
    }
}

/// The highlight clamped to the listed actions.
pub open spec fn clamp_of(app: App) -> App {
    App { selected_action: clamped(app.selected_action as int, filtered(app).len() as int) as usize, ..app }
}

/// A key typed while the search field has focus.
pub open spec fn search_key(old: App, new: App, key: KeyEvent) -> bool {
    if key.code == KeyCode::Esc || key.code == KeyCode::Enter {
        new == clamp_of(App { searching: false, ..old })
    } else if key.code == KeyCode::Backspace {
        &&& new == App { search: new.search, selected_action: 0, ..old }
        &&& new.search@ == (if old.search@.len() > 0 {
            old.search@.drop_last()
        } else {
            old.search@
        })
    } else if key.code is Char && !key.modifiers.control && !key.modifiers.alt {
        &&& new == App { search: new.search, selected_action: 0, ..old }
        &&& new.search@ == old.search@.push(key.code->Char_0)
    } else {
        new == clamp_of(old)
    }
}

/// A key in the catalog view while the search field does not have focus.
pub open spec fn navigation_key<F: CatalogFiles>(old: App, new: App, files: &F, key: KeyEvent) -> bool {
    let code = key.code;
    if code == KeyCode::Char('q') {
        new == App { quit: true, ..old }
    } else if code == KeyCode::Char('?') {
        new == App { view: Screen::Help, ..old }
    } else if code == KeyCode::Char('/') {
        new == App { searching: true, ..old }
    } else if code == KeyCode::Char('u') {
        new == clamp_of(App { show_unavailable: !old.show_unavailable, ..old })
    } else if code == KeyCode::Char('p') {
        match selected_index(old) {
            Some(i) => {
                &&& new == App { view: new.view, ..old }
                &&& new.view matches Screen::Preview { action, source } && action@
                    == old.catalog.actions@[i].id@ && exists|read: Option<Seq<u8>>|
                    files.read_returns(old.catalog.actions@[i].script@, read) && source@
                    == #[trigger] preview_text(read)
            },
            None => new == old,
        }
    } else if code == KeyCode::Left || code == KeyCode::Esc {
        new == App { pane: Pane::Categories, ..old }
    } else if (code == KeyCode::Right || code == KeyCode::Tab) && old.pane == Pane::Categories {
        new == App { pane: Pane::Actions, ..old }
    } else if code == KeyCode::Up {
        moved(old, new, -1)
    } else if code == KeyCode::Down {
        moved(old, new, 1)
    } else if code == KeyCode::Enter && old.pane == Pane::Categories {
        new == App { pane: Pane::Actions, ..old }
    } else if code == KeyCode::Enter {
        match selected_index(old) {
            Some(i) => if old.availability@[i] is Available {
                &&& new == App { view: new.view, ..old }
                &&& new.view matches Screen::Confirm { action, run_selected } && action@
                    == old.catalog.actions@[i].id@ && !run_selected
            } else {
                new == old
            },
            None => new == old,
        }
    } else {
        new == old
    }
}

/// A key in the confirmation dialog for `action`.
pub open spec fn confirm_key(
    old: App,
    new: App,
    key: KeyEvent,
    action: ActionId,
    run_selected: bool,
    command: Command,
) -> bool {
    let code = key.code;
    if code == KeyCode::Esc {
        new == App { view: Screen::Browse, ..old } && command == Command::Idle
    } else if code == KeyCode::Left || code == KeyCode::Right || code == KeyCode::Tab {
        new == App { view: Screen::Confirm { action, run_selected: !run_selected }, ..old }
            && command == Command::Idle
    } else if code == KeyCode::Enter {
        if !run_selected {
            new == App { view: Screen::Browse, ..old } && command == Command::Idle
        } else if crate::runtime::action_index(old.catalog.actions@, action@) is Some {
            &&& new == old
            &&& command matches Command::Start { action: id, rows, cols } && id@ == action@ && (
            rows,
            cols,
            ) == execution_size(old.terminal_width, old.terminal_height)
        } else {
            &&& new == App { view: new.view, ..old }
            &&& new.view matches Screen::Preview { action: id, source } && id@ == action@
                && source@ == start_failure_text(missing_action_text(action@))
            &&& command == Command::Idle
        }
    } else {
        new == old && command == Command::Idle
    }
}

/// A key while an action runs: Ctrl-X cancels it, other keys are forwarded.
pub open spec fn execution_key(key: KeyEvent, finished: bool, command: Command) -> bool {
    if finished {
        command == Command::Idle
    } else if key.modifiers.control && key.code == KeyCode::Char('x') {
        command == Command::Cancel
    } else {
        match key_bytes(key) {
            Some(b) => command matches Command::Send(sent) && sent@ == b,
            None => command == Command::Idle,
        }
    }
}

/// The browser's response to one terminal event.
pub open spec fn handled<F: CatalogFiles>(
    old: App,
    new: App,
    files: &F,
    event: Event,
    command: Command,
) -> bool {
    match event {
        Event::Resize { width, height } => match old.view {
            Screen::Execution(e) => {
                let size = execution_size(width, height);
                &&& new == App {
                    view: Screen::Execution(ExecutionView { rows: size.0, cols: size.1, ..e }),
                    ..old
                }
                &&& command == Command::Resize { rows: size.0, cols: size.1 }
            },
            _ => new == old && command == Command::Idle,
        },
        Event::Other => new == old && command == Command::Idle,
        Event::Key(key) => if !active(key) {
            new == old && command == Command::Idle
        } else if finished(old.view) && (key.code == KeyCode::Esc || key.code == KeyCode::Enter) {
            new == App { view: Screen::Browse, ..old } && command == Command::Idle
        } else {
            match old.view {
                Screen::Execution(_) => new == old && execution_key(key, finished(old.view), command),
                Screen::Help | Screen::Preview { .. } => {
                    &&& command == Command::Idle
                    &&& if key.code == KeyCode::Esc || key.code == KeyCode::Char('q') || key.code
                        == KeyCode::Char('?') {
                        new == App { view: Screen::Browse, ..old }
                    } else {
                        new == old
                    }
                },
                Screen::Confirm { action, run_selected } => confirm_key(
                    old,
                    new,
                    key,
                    action,
                    run_selected,
                    command,
                ),
                Screen::Browse => command == Command::Idle && if old.searching {
                    search_key(old, new, key)
                } else {
                    navigation_key(old, new, files, key)
                },
            }
        },
    }
}

} // verus!

verus! {

proof fn lemma_filtered_bounds(app: App)
    ensures
        filtered(app).len() <= app.catalog.actions@.len(),
        forall|k: int|
            0 <= k < filtered(app).len() ==> 0 <= #[trigger] filtered(app)[k]
                < app.catalog.actions@.len(),
{
    lemma_shown_upto_bounds(app, app.catalog.actions@.len() as int);
}

impl App {
    /// The highlighted action and its index in the catalog.
    pub fn selected_action(&self) -> (r: Option<(usize, &ActionDefinition)>)
        requires
            self.well_formed(),
        ensures
            match r {
                Some((i, a)) => selected_index(*self) == Some(i as int) && i
                    < self.catalog.actions@.len() && *a == self.catalog.actions@[i as int],
                None => selected_index(*self) is None,
            },
    {
        let actions = self.filtered_actions();
        if actions.len() == 0 {
            return None;
        }
        let k = if self.selected_action < actions.len() - 1 {
            self.selected_action
        } else {
            actions.len() - 1
        };
        let index = actions[k];
        proof {
            lemma_filtered_bounds(*self);
            assert(index as int == filtered(*self)[k as int]);
        }
        Some((index, &self.catalog.actions[index]))
    }

    /// Keeps the highlight within the listed actions.
    pub fn clamp_selection(&mut self)
        requires
            old(self).well_formed(),
        ensures
            *final(self) == clamp_of(*old(self)),
    {
        let len = self.filtered_actions().len();
        if len == 0 {
            self.selected_action = 0;
        } else if self.selected_action >= len - 1 {
            self.selected_action = len - 1;
        }
    }

    /// Moves the highlight in the focused pane.
    pub fn move_selection(&mut self, delta: isize)
        requires
            old(self).well_formed(),
        ensures
            moved(*old(self), *final(self), delta as int),
    {
        match self.pane {
            Pane::Categories => {
                let len = self.catalog.categories.len();
                self.selected_category = shifted(self.selected_category, len, delta);
                self.selected_action = 0;
            },
            Pane::Actions => {
                let len = self.filtered_actions().len();
                self.selected_action = shifted(self.selected_action, len, delta);
            },
        }
    }
}

} // verus!

verus! {

fn owned(text: &str) -> (r: String)
    ensures
        r@ == text@,
{
    String::from_str(text)
}

impl App {
    fn handle_search_key(&mut self, key: KeyEvent)
        requires
            old(self).well_formed(),
        ensures
            search_key(*old(self), *final(self), key),
    {
        match key.code {
            KeyCode::Esc | KeyCode::Enter => {
                self.searching = false;
            },
            KeyCode::Backspace => {
                crate::text::pop_char(&mut self.search);
                self.selected_action = 0;
            },
            KeyCode::Char(c) => {
                if !key.modifiers.control && !key.modifiers.alt {
                    crate::text::push_char(&mut self.search, c);
                    self.selected_action = 0;
                }
            },
            _ => {},
        }
        self.clamp_selection();
    }

    fn handle_navigation_key<F: CatalogFiles>(&mut self, files: &F, key: KeyEvent)
        requires
            old(self).well_formed(),
        ensures
            navigation_key(*old(self), *final(self), files, key),
    {
        let code = key.code;
        if code == KeyCode::Char('q') {
            self.quit = true;
        } else if code == KeyCode::Char('?') {
            self.view = Screen::Help;
        } else if code == KeyCode::Char('/') {
            self.searching = true;
        } else if code == KeyCode::Char('u') {
            self.show_unavailable = !self.show_unavailable;
            self.clamp_selection();
        } else if code == KeyCode::Char('p') {
            let preview = match self.selected_action() {
                Some((_, action)) => {
                    let source = preview_source(files.read(action.script.as_str()));
                    Some(Screen::Preview { action: action.id.duplicate(), source })
                },
                None => None,
            };
            if let Some(screen) = preview {
                self.view = screen;
            }
        } else if code == KeyCode::Left || code == KeyCode::Esc {
            self.pane = Pane::Categories;
        } else if (code == KeyCode::Right || code == KeyCode::Tab) && self.pane == Pane::Categories {
            self.pane = Pane::Actions;
        } else if code == KeyCode::Up {
            self.move_selection(-1);
        } else if code == KeyCode::Down {
            self.move_selection(1);
        } else if code == KeyCode::Enter && self.pane == Pane::Categories {
            self.pane = Pane::Actions;
        } else if code == KeyCode::Enter {
            let confirm = match self.selected_action() {
                Some((index, action)) => {
                    if self.availability[index].is_available() {
                        Some(Screen::Confirm { action: action.id.duplicate(), run_selected: false })
                    } else {
                        None
                    }
                },
                None => None,
            };
            if let Some(screen) = confirm {
                self.view = screen;
            }
        }
    }

    fn handle_confirm_key(&mut self, key: KeyEvent) -> (command: Command)
        requires
            old(self).well_formed(),
            old(self).view is Confirm,
        ensures
            match old(self).view {
                Screen::Confirm { action, run_selected } => confirm_key(
                    *old(self),
                    *final(self),
                    key,
                    action,
                    run_selected,
                    command,
                ),
                _ => false,
            },
    {
        let (action, run_selected) = match &self.view {
            Screen::Confirm { action, run_selected } => (action.duplicate(), *run_selected),
            _ => {
                assert(false);
                return Command::Idle;
            },
        };
        let code = key.code;
        if code == KeyCode::Esc {
            self.view = Screen::Browse;
            Command::Idle
        } else if code == KeyCode::Left || code == KeyCode::Right || code == KeyCode::Tab {
            match &mut self.view {
                Screen::Confirm { run_selected, .. } => {
                    *run_selected = !*run_selected;
                },
                _ => {},
            }
            Command::Idle
        } else if code == KeyCode::Enter {
            if !run_selected {
                self.view = Screen::Browse;
                Command::Idle
            } else if crate::runtime::find_action(&self.catalog, &action).is_some() {
                let (rows, cols) = execution_dimensions(self.terminal_width, self.terminal_height);
                Command::Start { action, rows, cols }
            } else {
                let mut reason = owned("action `");
                crate::text::append_str(&mut reason, action.as_str());
                crate::text::append_str(&mut reason, "` no longer exists");
                let mut source = owned("Unable to start action:\n\n");
                crate::text::append_str(&mut source, reason.as_str());
                self.view = Screen::Preview { action, source };
                Command::Idle
            }
        } else {
            Command::Idle
        }
    }

    fn handle_execution_key(&self, key: KeyEvent) -> (command: Command)
        requires
            self.view is Execution,
        ensures
            execution_key(key, finished(self.view), command),
    {
        let done = match &self.view {
            Screen::Execution(e) => e.result.is_some() || e.error.is_some(),
            _ => false,
        };
        if done {
            return Command::Idle;
        }
        if key.modifiers.control && key.code == KeyCode::Char('x') {
            return Command::Cancel;
        }
        match encode_key(key) {
            Some(b) => Command::Send(b),
            None => Command::Idle,
        }
    }

    /// Responds to one terminal event; the returned command tells the caller
    /// what to do with the running session, if anything.
    pub fn handle_event<F: CatalogFiles>(&mut self, files: &F, event: Event) -> (command: Command)
        requires
            old(self).well_formed(),
        ensures
            final(self).well_formed(),
            handled(*old(self), *final(self), files, event, command),
    {
        match event {
            Event::Resize { width, height } => {
                match &mut self.view {
                    Screen::Execution(execution) => {
                        let (rows, cols) = execution_dimensions(width, height);
                        execution.rows = rows;
                        execution.cols = cols;
                        Command::Resize { rows, cols }
                    },
                    _ => Command::Idle,
                }
            },
            Event::Other => Command::Idle,
            Event::Key(key) => {
                if !(key.kind == KeyEventKind::Press || key.kind == KeyEventKind::Repeat) {
                    return Command::Idle;
                }
                let done = match &self.view {
                    Screen::Execution(e) => e.result.is_some() || e.error.is_some(),
                    _ => false,
                };
                if done && (key.code == KeyCode::Esc || key.code == KeyCode::Enter) {
                    self.view = Screen::Browse;
                    return Command::Idle;
                }
                match &self.view {
                    Screen::Execution(_) => self.handle_execution_key(key),
                    Screen::Help | Screen::Preview { .. } => {
                        if key.code == KeyCode::Esc || key.code == KeyCode::Char('q') || key.code
                            == KeyCode::Char('?') {
                            self.view = Screen::Browse;
                        }
                        Command::Idle
                    },
                    Screen::Confirm { .. } => self.handle_confirm_key(key),
                    Screen::Browse => {
                        if self.searching {
                            self.handle_search_key(key);
                        } else {
                            self.handle_navigation_key(files, key);
                        }
                        Command::Idle
                    },
                }
            },
        }
    }
}

} // verus!

verus! {

/// In the execution view, the error message is set to `message` and nothing
/// else changes; other views are left as they are.
pub open spec fn error_recorded(old: Screen, new: Screen, message: Seq<char>) -> bool {
    match old {
        Screen::Execution(e) => match new {
            Screen::Execution(f) => {
                &&& f == ExecutionView { error: f.error, ..e }
                &&& f.error is Some
                &&& f.error->0@ == message
            },
            _ => false,
        },
        _ => new == old,
    }
}

impl App {
    /// Switches to the execution view once the action has been launched.
    pub fn begin_execution(&mut self, action: &ActionId, rows: u16, cols: u16)
        requires
            old(self).well_formed(),
        ensures
            final(self).well_formed(),
            *final(self) == (App { view: final(self).view, ..*old(self) }),
            final(self).view matches Screen::Execution(e) && e.action@ == action@ && e.result is None
                && e.error is None && e.rows == rows && e.cols == cols && match crate::runtime::action_index(
                old(self).catalog.actions@,
                action@,
            ) {
                Some(k) => e.label@ == old(self).catalog.actions@[k].label@,
                None => e.label@.len() == 0,
            },
    {
        let label = match crate::runtime::find_action(&self.catalog, action) {
            Some(a) => a.label.clone(),
            None => String::new(),
        };
        self.view = Screen::Execution(
            ExecutionView { action: action.duplicate(), label, result: None, error: None, rows, cols },
        );
    }

    /// Shows why the action could not be launched.
    pub fn start_failed(&mut self, action: &ActionId, reason: &str)
        requires
            old(self).well_formed(),
        ensures
            final(self).well_formed(),
            *final(self) == (App { view: final(self).view, ..*old(self) }),
            final(self).view matches Screen::Preview { action: id, source } && id@ == action@
                && source@ == start_failure_text(reason@),
    {
        let mut source = owned("Unable to start action:\n\n");
        crate::text::append_str(&mut source, reason);
        self.view = Screen::Preview { action: action.duplicate(), source };
    }

    /// Records an event of the running action. Output is handed back for the
    /// terminal emulator; exit and failure are recorded in the execution view.
    /// Outside the execution view events are ignored.
    pub fn record_runtime_event(&mut self, event: RuntimeEvent) -> (output: Option<Vec<u8>>)
        requires
            old(self).well_formed(),
        ensures
            final(self).well_formed(),
            *final(self) == (App { view: final(self).view, ..*old(self) }),
            match old(self).view {
                Screen::Execution(e) => match event {
                    RuntimeEvent::Output(b) => output == Some(b) && final(self).view == old(self).view,
                    RuntimeEvent::Exited(result) => output is None && final(self).view
                        == Screen::Execution(ExecutionView { result: Some(result), ..e }),
                    RuntimeEvent::Failed(message) => output is None && final(self).view
                        == Screen::Execution(ExecutionView { error: Some(message), ..e }),
                    RuntimeEvent::Started { .. } => output is None && final(self).view == old(
                        self,
                    ).view,
                },
                _ => output is None && final(self).view == old(self).view,
            },
    {
        match &mut self.view {
            Screen::Execution(execution) => match event {
                RuntimeEvent::Output(b) => Some(b),
                RuntimeEvent::Exited(result) => {
                    execution.result = Some(result);
                    None
                },
                RuntimeEvent::Failed(message) => {
                    execution.error = Some(message);
                    None
                },
                RuntimeEvent::Started { .. } => None,
            },
            _ => None,
        }
    }

    fn record_execution_error(&mut self, prefix: &str, detail: &str)
        requires
            old(self).well_formed(),
        ensures
            final(self).well_formed(),
            *final(self) == (App { view: final(self).view, ..*old(self) }),
            error_recorded(old(self).view, final(self).view, prefix@ + detail@),
    {
        match &mut self.view {
            Screen::Execution(execution) => {
                let mut message = owned(prefix);
                crate::text::append_str(&mut message, detail);
                execution.error = Some(message);
            },
            _ => {},
        }
    }

    /// Records that cancelling the running action failed.
    pub fn cancel_failed(&mut self, detail: &str)
        requires
            old(self).well_formed(),
        ensures
            final(self).well_formed(),
            *final(self) == (App { view: final(self).view, ..*old(self) }),
            error_recorded(old(self).view, final(self).view, "could not cancel action: "@ + detail@),
    {
        self.record_execution_error("could not cancel action: ", detail);
    }

    /// Records that input could not be sent to the running action.
    pub fn input_failed(&mut self, detail: &str)
        requires
            old(self).well_formed(),
        ensures
            final(self).well_formed(),
            *final(self) == (App { view: final(self).view, ..*old(self) }),
            error_recorded(old(self).view, final(self).view, "could not send input to action: "@ + detail@),
    {
        self.record_execution_error("could not send input to action: ", detail);
    }
}

} // verus!

verus! {

/// The screen is too small to draw the browser.
pub fn too_small(width: u16, height: u16) -> (r: bool)
    ensures
        r == (width < MINIMUM_WIDTH || height < MINIMUM_HEIGHT),
{
    width < MINIMUM_WIDTH || height < MINIMUM_HEIGHT
}

/// The notice drawn instead of the browser on a screen that is too small.
pub fn resize_message(width: u16, height: u16) -> (r: String)
    ensures
        r@ == "Crank needs at least "@ + crate::text::decimal(MINIMUM_WIDTH as nat) + "x"@
            + crate::text::decimal(MINIMUM_HEIGHT as nat) + ".\nCurrent size: "@ + crate::text::decimal(
            width as nat,
        ) + "x"@ + crate::text::decimal(height as nat),
{
    let mut r = owned("Crank needs at least ");
    crate::text::append_str(&mut r, crate::text::decimal_string(MINIMUM_WIDTH as u64).as_str());
    crate::text::append_str(&mut r, "x");
    crate::text::append_str(&mut r, crate::text::decimal_string(MINIMUM_HEIGHT as u64).as_str());
    crate::text::append_str(&mut r, ".\nCurrent size: ");
    crate::text::append_str(&mut r, crate::text::decimal_string(width as u64).as_str());
    crate::text::append_str(&mut r, "x");
    crate::text::append_str(&mut r, crate::text::decimal_string(height as u64).as_str());
    r
}

/// The browser lists categories and actions in one column below this width.
pub fn single_column(width: u16) -> (r: bool)
    ensures
        r == (width < 72),
{
    width < 72
}

/// A rectangle of terminal cells.
#[derive(Clone, Copy, Debug, PartialEq, Eq, Structural)]
pub struct Rect {
    pub x: u16,
    pub y: u16,
    pub width: u16,
    pub height: u16,
}

/// A `width` x `height` rectangle centred in `area`, shrunk to fit it.
pub fn centered(area: Rect, width: u16, height: u16) -> (r: Rect)
    requires
        area.x + area.width <= u16::MAX,
        area.y + area.height <= u16::MAX,
    ensures
        r.width == (if width < area.width {
            width
        } else {
            area.width
        }),
        r.height == (if height < area.height {
            height
        } else {
            area.height
        }),
        r.x == area.x + (area.width - r.width) / 2,
        r.y == area.y + (area.height - r.height) / 2,
        area.x <= r.x,
        r.x + r.width <= area.x + area.width,
        area.y <= r.y,
        r.y + r.height <= area.y + area.height,
{
    let w = if width < area.width {
        width
    } else {
        area.width
    };
    let h = if height < area.height {
        height
    } else {
        area.height
    };
    Rect { x: area.x + (area.width - w) / 2, y: area.y + (area.height - h) / 2, width: w, height: h }
}

/// A colour as the terminal emulator reports it for a cell.
#[derive(Clone, Copy, Debug, PartialEq, Eq, Structural)]
pub enum TerminalColor {
    Default,
    Indexed(u8),
    Rgb(u8, u8, u8),
}

/// A colour to draw with.
#[derive(Clone, Copy, Debug, PartialEq, Eq, Structural)]
pub enum Color {
    Cyan,
    Indexed(u8),
    Rgb(u8, u8, u8),
}

/// The attributes of one emulated terminal cell.
#[derive(Clone, Copy, Debug, PartialEq, Eq, Structural)]
pub struct CellAttributes {
    pub foreground: TerminalColor,
    pub background: TerminalColor,
    pub inverse: bool,
    pub bold: bool,
    pub italic: bool,
    pub underline: bool,
}

/// How to draw a cell; absent colours keep the terminal's own.
#[derive(Clone, Copy, Debug, PartialEq, Eq, Structural)]
pub struct Style {
    pub foreground: Option<Color>,
    pub background: Option<Color>,
    pub reversed: bool,
    pub bold: bool,
    pub italic: bool,
    pub underlined: bool,
}

pub fn terminal_color(color: TerminalColor) -> (r: Option<Color>)
    ensures
        r == terminal_color_of(color),
{
    match color {
        TerminalColor::Default => None,
        TerminalColor::Indexed(i) => Some(Color::Indexed(i)),
        TerminalColor::Rgb(red, green, blue) => Some(Color::Rgb(red, green, blue)),
    }
}

/// The style of an emulated cell. With colour, an inverse cell swaps its
/// colours; without colour, inverse becomes reversed video. Bold, italic and
/// underline carry over.
pub fn cell_style(cell: CellAttributes, color: bool) -> (r: Style)
    ensures
        color && !cell.inverse ==> r.foreground == terminal_color_of(cell.foreground)
            && r.background == terminal_color_of(cell.background),
        color && cell.inverse ==> r.foreground == terminal_color_of(cell.background)
            && r.background == terminal_color_of(cell.foreground),
        !color ==> r.foreground is None && r.background is None,
        r.reversed == (!color && cell.inverse),
        r.bold == cell.bold,
        r.italic == cell.italic,
        r.underlined == cell.underline,
{
    let mut style = Style {
        foreground: None,
        background: None,
        reversed: false,
        bold: false,
        italic: false,
        underlined: false,
    };
    if color {
        let (foreground, background) = if cell.inverse {
            (cell.background, cell.foreground)
        } else {
            (cell.foreground, cell.background)
        };
        style.foreground = terminal_color(foreground);
        style.background = terminal_color(background);
    } else if cell.inverse {
        style.reversed = true;
    }
    if cell.bold {
        style.bold = true;
    }
    if cell.italic {
        style.italic = true;
    }
    if cell.underline {
        style.underlined = true;
    }
    style
}

pub open spec fn terminal_color_of(color: TerminalColor) -> Option<Color> {
    match color {
        TerminalColor::Default => None,
        TerminalColor::Indexed(i) => Some(Color::Indexed(i)),
        TerminalColor::Rgb(red, green, blue) => Some(Color::Rgb(red, green, blue)),
    }
}

/// The highlight style: cyan with colour, bold without.
pub fn accent(enabled: bool) -> (r: Style)
    ensures
        r.foreground == (if enabled {
            Some(Color::Cyan)
        } else {
            None
        }),
        r.bold == !enabled,
        r.background is None,
        !r.reversed && !r.italic && !r.underlined,
{
    if enabled {
        Style {
            foreground: Some(Color::Cyan),
            background: None,
            reversed: false,
            bold: false,
            italic: false,
            underlined: false,
        }
    } else {
        Style {
            foreground: None,
            background: None,
            reversed: false,
            bold: true,
            italic: false,
            underlined: false,
        }
    }
}

} // verus!

verus! {

/// The description of the highlighted action, with the reasons when it is
/// unavailable; otherwise why nothing is listed.
pub open spec fn details(app: App) -> Seq<char> {
    match selected_index(app) {
        Some(i) => match app.availability@[i] {
            Availability::Available => app.catalog.actions@[i].description@,
            Availability::Unavailable { reasons } => app.catalog.actions@[i].description@
                + " Unavailable: "@ + crate::host::joined(crate::host::texts(reasons@), "; "@),
        },
        None => if app.catalog.actions@.len() == 0 {
            "This catalog has no actions."@
        } else {
            "No actions match the current filters."@
        },
    }
}

/// What the status line of the execution view says.
pub open spec fn status_line(e: ExecutionView) -> Seq<char> {
    match e.error {
        Some(error) => "Error: "@ + error@ + "  Esc returns to catalog"@,
        None => match e.result {
            Some(result) => {
                let outcome = match result.status {
                    ExecutionStatus::Succeeded => "Succeeded"@,
                    ExecutionStatus::Failed => match result.exit_code {
                        Some(code) => "Failed (exit "@ + crate::text::decimal(code as nat) + ")"@,
                        None => "Failed"@,
                    },
                    ExecutionStatus::Cancelled => "Cancelled"@,
                };
                outcome + "  Esc or Enter returns to catalog"@
            },
            None => "Ctrl-C interrupts child  Ctrl-X cancels session"@,
        },
    }
}

pub fn execution_status(e: &ExecutionView) -> (r: String)
    ensures
        r@ == status_line(*e),
{
    match &e.error {
        Some(error) => {
            let mut r = owned("Error: ");
            crate::text::append_str(&mut r, error.as_str());
            crate::text::append_str(&mut r, "  Esc returns to catalog");
            r
        },
        None => match &e.result {
            Some(result) => {
                let mut r = match result.status {
                    ExecutionStatus::Succeeded => owned("Succeeded"),
                    ExecutionStatus::Failed => match result.exit_code {
                        Some(code) => {
                            let mut f = owned("Failed (exit ");
                            crate::text::append_str(
                                &mut f,
                                crate::text::decimal_string(code as u64).as_str(),
                            );
                            crate::text::append_str(&mut f, ")");
                            f
                        },
                        None => owned("Failed"),
                    },
                    ExecutionStatus::Cancelled => owned("Cancelled"),
                };
                crate::text::append_str(&mut r, "  Esc or Enter returns to catalog");
                r
            },
            None => owned("Ctrl-C interrupts child  Ctrl-X cancels session"),
        },
    }
}

/// The dialog text asking to run `action`: its label and description, and the
/// Cancel and Run choices with the selected one marked.
pub open spec fn confirm_message(a: ActionDefinition, run_selected: bool) -> Seq<char> {
    let cancel = if run_selected {
        "  Cancel  "@
    } else {
        "> Cancel <"@
    };
    let run = if run_selected {
        ">  Run  <"@
    } else {
        "    Run    "@
    };
    a.label@ + "\n\n"@ + a.description@ + "\n\n"@ + cancel + "       "@ + run
        + "\n\n←/→ choose, Enter confirm, Esc close"@
}

/// The hint line of the catalog view.
pub open spec fn hint_line(show_unavailable: bool) -> Seq<char> {
    "↑↓ move  Enter select  / search  p preview  u "@ + (if show_unavailable {
        "hide"@
    } else {
        "show"@
    }) + " unavailable  ? help  q quit"@
}

/// One list entry per listed action: its label, marked when unavailable.
pub open spec fn item_text(app: App, i: int) -> Seq<char> {
    if app.availability@[i] is Available {
        app.catalog.actions@[i].label@
    } else {
        app.catalog.actions@[i].label@ + " [unavailable]"@
    }
}

impl App {
    pub fn details_text(&self) -> (r: String)
        requires
            self.well_formed(),
        ensures
            r@ == details(*self),
    {
        match self.selected_action() {
            Some((index, action)) => match &self.availability[index] {
                Availability::Available => action.description.clone(),
                Availability::Unavailable { reasons } => {
                    let mut r = action.description.clone();
                    crate::text::append_str(&mut r, " Unavailable: ");
                    let list = crate::host::join_strings(reasons, "; ");
                    crate::text::append_str(&mut r, list.as_str());
                    r
                },
            },
            None => if self.catalog.actions.len() == 0 {
                owned("This catalog has no actions.")
            } else {
                owned("No actions match the current filters.")
            },
        }
    }

    /// The confirmation dialog's text, when `action` is in the catalog.
    pub fn confirm_text(&self, action: &ActionId, run_selected: bool) -> (r: Option<String>)
        ensures
            match r {
                Some(t) => exists|k: int|
                    crate::runtime::action_index(self.catalog.actions@, action@) == Some(k) && t@
                        == confirm_message(self.catalog.actions@[k], run_selected),
                None => crate::runtime::action_index(self.catalog.actions@, action@) is None,
            },
    {
        let a = match crate::runtime::find_action(&self.catalog, action) {
            Some(a) => a,
            None => {
                return None;
            },
        };
        let mut t = a.label.clone();
        crate::text::append_str(&mut t, "\n\n");
        crate::text::append_str(&mut t, a.description.as_str());
        crate::text::append_str(&mut t, "\n\n");
        if run_selected {
            crate::text::append_str(&mut t, "  Cancel  ");
        } else {
            crate::text::append_str(&mut t, "> Cancel <");
        }
        crate::text::append_str(&mut t, "       ");
        if run_selected {
            crate::text::append_str(&mut t, ">  Run  <");
        } else {
            crate::text::append_str(&mut t, "    Run    ");
        }
        crate::text::append_str(&mut t, "\n\n←/→ choose, Enter confirm, Esc close");
        Some(t)
    }

    pub fn key_hints(&self) -> (r: String)
        ensures
            r@ == hint_line(self.show_unavailable),
    {
        let mut r = owned("↑↓ move  Enter select  / search  p preview  u ");
        if self.show_unavailable {
            crate::text::append_str(&mut r, "hide");
        } else {
            crate::text::append_str(&mut r, "show");
        }
        crate::text::append_str(&mut r, " unavailable  ? help  q quit");
        r
    }

    /// The search field's text, with a cursor while it has focus.
    pub fn search_line(&self) -> (r: String)
        ensures
            r@ == (if self.searching {
                self.search@.push('_')
            } else {
                self.search@
            }),
    {
        let mut r = self.search.clone();
        if self.searching {
            crate::text::push_char(&mut r, '_');
        }
        r
    }

    /// Rows given to the search field: shown while searching or holding a query.
    pub fn search_box_height(&self) -> (r: u16)
        ensures
            r == (if self.searching || self.search@.len() > 0 {
                3u16
            } else {
                0u16
            }),
    {
        if self.searching || !self.search.as_str().is_empty() {
            3
        } else {
            0
        }
    }

    pub fn actions_title(&self) -> (r: &'static str)
        ensures
            r@ == (if self.search@.len() == 0 {
                " Actions "@
            } else {
                " Search results "@
            }),
    {
        if self.search.as_str().is_empty() {
            " Actions "
        } else {
            " Search results "
        }
    }

    /// The entries of the action list, one per listed action.
    pub fn action_items(&self) -> (r: Vec<String>)
        requires
            self.well_formed(),
        ensures
            r@.len() == filtered(*self).len(),
            forall|k: int|
                0 <= k < r@.len() ==> (#[trigger] r@[k])@ == item_text(*self, filtered(*self)[k]),
    {
        let indices = self.filtered_actions();
        proof {
            lemma_filtered_bounds(*self);
        }
        let mut r: Vec<String> = Vec::new();
        let mut k: usize = 0;
        while k < indices.len()
            invariant
                self.well_formed(),
                indices@.len() == filtered(*self).len(),
                forall|m: int| 0 <= m < indices@.len() ==> indices@[m] as int == #[trigger] filtered(*self)[m],
                forall|m: int|
                    0 <= m < filtered(*self).len() ==> 0 <= #[trigger] filtered(*self)[m]
                        < self.catalog.actions@.len(),
                k <= indices@.len(),
                r@.len() == k,
                forall|m: int| 0 <= m < k ==> (#[trigger] r@[m])@ == item_text(*self, filtered(*self)[m]),
            decreases indices@.len() - k,
        {
            let i = indices[k];
            assert(i as int == filtered(*self)[k as int]);
            let mut item = self.catalog.actions[i].label.clone();
            if !self.availability[i].is_available() {
                crate::text::append_str(&mut item, " [unavailable]");
            }
            r.push(item);
            k = k + 1;
        }
        r
    }

    /// The highlighted row of the action list, if it has rows.
    pub fn list_selection(&self, len: usize) -> (r: Option<usize>)
        ensures
            r == (if len == 0 {
                None
            } else {
                Some(clamped(self.selected_action as int, len as int) as usize)
            }),
    {
        if len == 0 {
            None
        } else if self.selected_action < len - 1 {
            Some(self.selected_action)
        } else {
            Some(len - 1)
        }
    }

    /// The marker shown after the title for a local catalog.
    pub fn mode_label(&self) -> (r: String)
        ensures
            r@ == match self.source {
                CatalogSource::Embedded => Seq::<char>::empty(),
                CatalogSource::Local(path) => "  LOCAL CATALOG: "@ + path@,
            },
    {
        match &self.source {
            CatalogSource::Embedded => String::new(),
            CatalogSource::Local(path) => {
                let mut r = owned("  LOCAL CATALOG: ");
                crate::text::append_str(&mut r, path.as_str());
                r
            },
        }
    }
}

} // verus!

verus! {

/// The highlight is within the lists it belongs to (or at the top).
pub open spec fn selection_in_range(app: App) -> bool {
    &&& (app.selected_action == 0 || app.selected_action < filtered(app).len())
    &&& (app.selected_category == 0 || app.selected_category < app.catalog.categories@.len())
}

/// The fields the action list depends on are equal.
pub open spec fn same_listing(a: App, b: App) -> bool {
    &&& a.catalog == b.catalog
    &&& a.availability == b.availability
    &&& a.search@ == b.search@
    &&& a.show_unavailable == b.show_unavailable
    &&& a.selected_category == b.selected_category
}

proof fn lemma_same_listing(a: App, b: App, n: int)
    requires
        same_listing(a, b),
    ensures
        shown_upto(a, n) == shown_upto(b, n),
    decreases n,
{
    if n > 0 {
        lemma_same_listing(a, b, n - 1);
        assert(shown(a, n - 1) == shown(b, n - 1));
    }
}

/// The navigation and search state that returning to the catalog keeps.
pub open spec fn same_navigation(a: App, b: App) -> bool {
    &&& a.selected_category == b.selected_category
    &&& a.selected_action == b.selected_action
    &&& a.pane == b.pane
    &&& a.search@ == b.search@
    &&& a.searching == b.searching
    &&& a.show_unavailable == b.show_unavailable
}

/// Navigation never launches anything: an action is started only from the
/// confirmation dialog, with Run chosen, by a key press of Enter.
pub proof fn lemma_start_only_after_confirmation<F: CatalogFiles>(
    old: App,
    new: App,
    files: &F,
    event: Event,
    command: Command,
)
    requires
        handled(old, new, files, event, command),
        command is Start,
    ensures
        old.view matches Screen::Confirm { run_selected, .. } && run_selected,
        event matches Event::Key(key) && key.code == KeyCode::Enter && active(key),
{
}

/// Opening the confirmation dialog selects Cancel, and is only possible for
/// the highlighted action when it is available.
pub proof fn lemma_confirmation_defaults_to_cancel<F: CatalogFiles>(
    old: App,
    new: App,
    files: &F,
    event: Event,
    command: Command,
)
    requires
        handled(old, new, files, event, command),
        !(old.view is Confirm),
        new.view is Confirm,
    ensures
        new.view matches Screen::Confirm { run_selected, .. } && !run_selected,
        selected_index(old) is Some,
        old.availability@[selected_index(old)->0] is Available,
        new.view matches Screen::Confirm { action, .. } && action@
            == old.catalog.actions@[selected_index(old)->0].id@,
{
}

/// Closing a view to return to the catalog keeps the navigation and search state.
pub proof fn lemma_return_keeps_navigation<F: CatalogFiles>(
    old: App,
    new: App,
    files: &F,
    event: Event,
    command: Command,
)
    requires
        handled(old, new, files, event, command),
        !(old.view is Browse),
        new.view is Browse,
    ensures
        same_navigation(old, new),
{
}

/// The browser quits only on `q` in the catalog view outside the search field.
pub proof fn lemma_quit_only_on_q<F: CatalogFiles>(
    old: App,
    new: App,
    files: &F,
    event: Event,
    command: Command,
)
    requires
        handled(old, new, files, event, command),
        !old.quit,
        new.quit,
    ensures
        old.view is Browse,
        !old.searching,
        event matches Event::Key(key) && key.code == KeyCode::Char('q'),
{
}

/// Every event keeps the highlight within the listed actions and categories.
pub proof fn lemma_selection_stays_in_range<F: CatalogFiles>(
    old: App,
    new: App,
    files: &F,
    event: Event,
    command: Command,
)
    requires
        old.well_formed(),
        selection_in_range(old),
        handled(old, new, files, event, command),
    ensures
        selection_in_range(new),
{
    let n = old.catalog.actions@.len() as int;
    if same_listing(old, new) {
        lemma_same_listing(old, new, n);
    }
    match event {
        Event::Key(key) => {
            if active(key) && !(finished(old.view) && (key.code == KeyCode::Esc || key.code
                == KeyCode::Enter)) && old.view is Browse {
                if old.searching {
                    if key.code == KeyCode::Esc || key.code == KeyCode::Enter {
                        let mid = App { searching: false, ..old };
                        lemma_same_listing(old, mid, n);
                        lemma_same_listing(mid, new, n);
                    }
                } else if key.code == KeyCode::Char('u') {
                    let mid = App { show_unavailable: !old.show_unavailable, ..old };
                    lemma_same_listing(mid, new, n);
                } else if key.code == KeyCode::Up || key.code == KeyCode::Down {
                    if old.pane == Pane::Actions {
                        lemma_same_listing(old, new, n);
                    }
                }
            }
        },
        _ => {},
    }
}


proof fn lemma_shown_upto_members(app: App, n: int)
    requires
        0 <= n,
    ensures
        forall|k: int| 0 <= k < shown_upto(app, n).len() ==> shown(app, #[trigger] shown_upto(app, n)[k]),
    decreases n,
{
    if n > 0 {
        lemma_shown_upto_members(app, n - 1);
        let prev = shown_upto(app, n - 1);
        assert forall|k: int| 0 <= k < shown_upto(app, n).len() implies shown(
            app,
            #[trigger] shown_upto(app, n)[k],
        ) by {
            if k < prev.len() {
                assert(shown_upto(app, n)[k] == prev[k]);
            }
        }
    }
}

/// Unavailable actions are listed only on request: otherwise every listed
/// action is available.
pub proof fn lemma_unavailable_listed_on_request(app: App, k: int)
    requires
        !app.show_unavailable,
        0 <= k < filtered(app).len(),
    ensures
        app.availability@[filtered(app)[k]] is Available,
{
    lemma_shown_upto_members(app, app.catalog.actions@.len() as int);
}

proof fn lemma_search_upto(a: App, b: App, n: int)
    requires
        a == (App { selected_category: a.selected_category, ..b }),
        lowercase(a.search@).len() > 0,
    ensures
        shown_upto(a, n) == shown_upto(b, n),
    decreases n,
{
    if n > 0 {
        lemma_search_upto(a, b, n - 1);
        assert(shown(a, n - 1) == shown(b, n - 1));
    }
}

/// A search looks through every category: while the (lowercased) query is not
/// empty, the listed actions do not depend on the selected category.
pub proof fn lemma_search_spans_categories(a: App, b: App)
    requires
        a == (App { selected_category: a.selected_category, ..b }),
        lowercase(a.search@).len() > 0,
    ensures
        filtered(a) == filtered(b),
{
    lemma_search_upto(a, b, a.catalog.actions@.len() as int);
}


/// The action list is in catalog order: listed indices are valid and strictly
/// increasing, so each action is listed at most once.
pub proof fn lemma_listing_in_catalog_order(app: App)
    ensures
        forall|k: int|
            0 <= k < filtered(app).len() ==> 0 <= #[trigger] filtered(app)[k] < app.catalog.actions@.len(),
        forall|k: int, l: int| 0 <= k < l < filtered(app).len() ==> filtered(app)[k] < filtered(app)[l],
{
    lemma_shown_upto_bounds(app, app.catalog.actions@.len() as int);
}


proof fn lemma_shown_is_listed(app: App, n: int, i: int)
    requires
        0 <= i < n,
        shown(app, i),
    ensures
        shown_upto(app, n).contains(i),
    decreases n,
{
    if i < n - 1 {
        lemma_shown_is_listed(app, n - 1, i);
        let prev = shown_upto(app, n - 1);
        let k = choose|k: int| 0 <= k < prev.len() && prev[k] == i;
        if shown(app, n - 1) {
            assert(shown_upto(app, n)[k] == i);
        }
    } else {
        assert(shown_upto(app, n) == shown_upto(app, n - 1).push(i));
        assert(shown_upto(app, n)[shown_upto(app, n - 1).len() as int] == i);
    }
}

/// A search lists every shown action whose lowercased label contains the
/// lowercased query, whatever its description and category.
pub proof fn lemma_search_finds_label(app: App, i: int, start: int)
    requires
        0 <= i < app.catalog.actions@.len(),
        app.show_unavailable || app.availability@[i] is Available,
        lowercase(app.search@).len() > 0,
        0 <= start,
        start + lowercase(app.search@).len() <= lowercase(app.catalog.actions@[i].label@).len(),
        lowercase(app.catalog.actions@[i].label@).subrange(
            start,
            start + lowercase(app.search@).len(),
        ) == lowercase(app.search@),
    ensures
        filtered(app).contains(i),
{
    assert(crate::text::occurs_at(
        lowercase(app.catalog.actions@[i].label@),
        lowercase(app.search@),
        start,
    ));
    lemma_shown_is_listed(app, app.catalog.actions@.len() as int, i);
}

/// A search lists every shown action whose lowercased description contains
/// the lowercased query, whatever its label and category.
pub proof fn lemma_search_finds_description(app: App, i: int, start: int)
    requires
        0 <= i < app.catalog.actions@.len(),
        app.show_unavailable || app.availability@[i] is Available,
        lowercase(app.search@).len() > 0,
        0 <= start,
        start + lowercase(app.search@).len() <= lowercase(
            app.catalog.actions@[i].description@,
        ).len(),
        lowercase(app.catalog.actions@[i].description@).subrange(
            start,
            start + lowercase(app.search@).len(),
        ) == lowercase(app.search@),
    ensures
        filtered(app).contains(i),
{
    assert(crate::text::occurs_at(
        lowercase(app.catalog.actions@[i].description@),
        lowercase(app.search@),
        start,
    ));
    lemma_shown_is_listed(app, app.catalog.actions@.len() as int, i);
}

/// Without a search, every shown action of the selected category is listed.
pub proof fn lemma_category_lists_its_actions(app: App, i: int)
    requires
        0 <= i < app.catalog.actions@.len(),
        app.show_unavailable || app.availability@[i] is Available,
        lowercase(app.search@).len() == 0,
        app.selected_category < app.catalog.categories@.len(),
        app.catalog.actions@[i].category@ == app.catalog.categories@[app.selected_category as int].id@,
    ensures
        filtered(app).contains(i),
{
    lemma_shown_is_listed(app, app.catalog.actions@.len() as int, i);
}

/// Moving the highlight by `delta` in a non-empty list lands `delta` entries
/// away, stopping at the first and the last entry.
pub proof fn lemma_shift_moves_by_delta(current: int, len: int, delta: int)
    requires
        0 < len,
    ensures
        delta < 0 && 0 <= current + delta ==> shifted_to(current, len, delta) == current + delta,
        delta < 0 && current + delta < 0 ==> shifted_to(current, len, delta) == 0,
        0 <= delta && current + delta < len ==> shifted_to(current, len, delta) == current + delta,
        0 <= delta && len <= current + delta ==> shifted_to(current, len, delta) == len - 1,
{
}

/// In the action list, Up highlights the previous entry and Down the next one.
pub proof fn lemma_arrows_move_highlight<F: CatalogFiles>(
    old: App,
    new: App,
    files: &F,
    key: KeyEvent,
    command: Command,
)
    requires
        handled(old, new, files, Event::Key(key), command),
        active(key),
        old.view == Screen::Browse,
        !old.searching,
        old.pane == Pane::Actions,
        old.selected_action < filtered(old).len(),
    ensures
        key.code == KeyCode::Up && 0 < old.selected_action ==> new.selected_action
            == old.selected_action - 1,
        key.code == KeyCode::Down && old.selected_action + 1 < filtered(old).len()
            && old.selected_action < usize::MAX ==> new.selected_action == old.selected_action + 1,
{
    let len = filtered(old).len() as int;
    if key.code == KeyCode::Down && old.selected_action + 1 < len && old.selected_action < usize::MAX {
        lemma_shift_moves_by_delta(old.selected_action as int, len, 1);
        assert(navigation_key(old, new, files, key));
        assert(moved(old, new, 1));
    }
}

/// The arrow keys reach a running action as the standard cursor sequences
/// ESC [ A (up), ESC [ B (down), ESC [ C (right) and ESC [ D (left),
/// whatever modifiers are held.
pub proof fn lemma_cursor_key_sequences(key: KeyEvent)
    ensures
        key.code == KeyCode::Up ==> key_bytes(key) == Some(seq![0x1bu8, 0x5bu8, 0x41u8]),
        key.code == KeyCode::Down ==> key_bytes(key) == Some(seq![0x1bu8, 0x5bu8, 0x42u8]),
        key.code == KeyCode::Right ==> key_bytes(key) == Some(seq![0x1bu8, 0x5bu8, 0x43u8]),
        key.code == KeyCode::Left ==> key_bytes(key) == Some(seq![0x1bu8, 0x5bu8, 0x44u8]),
{
}

/// While an action runs, an arrow key is forwarded to it as its cursor sequence.
pub proof fn lemma_arrows_forwarded<F: CatalogFiles>(
    old: App,
    new: App,
    files: &F,
    key: KeyEvent,
    command: Command,
)
    requires
        handled(old, new, files, Event::Key(key), command),
        active(key),
        old.view is Execution,
        !finished(old.view),
    ensures
        key.code == KeyCode::Left ==> (command matches Command::Send(b) && b@ == seq![
            0x1bu8,
            0x5bu8,
            0x44u8,
        ]),
        key.code == KeyCode::Right ==> (command matches Command::Send(b) && b@ == seq![
            0x1bu8,
            0x5bu8,
            0x43u8,
        ]),
{
}

} // verus!
