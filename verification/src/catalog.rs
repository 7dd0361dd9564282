//! Catalog schema, stable identifiers and validation.
use vstd::prelude::*;

pub use crate::bundled::{load_embedded, EmbeddedFiles};

use crate::paths::{base_name, base_name_of, is_safe_relative_path, safe_relative_path};
use crate::text::{append_str, chars_of, decode_lossy, has_char, lossy_text, same_text};

verus! {

/// Characters allowed in action and category identifiers.
pub open spec fn is_identifier_char(c: char) -> bool {
    ('a' <= c && c <= 'z') || ('0' <= c && c <= '9') || c == '.' || c == '-' || c == '_'
}

/// A stable identifier: 1 to 64 characters drawn from `a-z`, `0-9`, `.`, `-` and `_`.
pub open spec fn valid_identifier(s: Seq<char>) -> bool {
    &&& 0 < s.len() <= 64
    &&& forall|i: int| 0 <= i < s.len() ==> is_identifier_char(#[trigger] s[i])
}

/// The message with which an identifier is refused.
pub open spec fn invalid_identifier_message(value: Seq<char>) -> Seq<char> {
    "invalid identifier `"@ + value + "`"@
}

/// Checks the identifier rules on the characters of `value`.
fn identifier_is_valid(value: &str) -> (r: bool)
    ensures
        r == valid_identifier(value@),
{
    let cs = chars_of(value);
    if cs.len() == 0 || cs.len() > 64 {
        return false;
    }
    let mut i: usize = 0;
    while i < cs.len()
        invariant
            cs@ == value@,
            i <= cs@.len(),
            forall|k: int| 0 <= k < i ==> is_identifier_char(#[trigger] cs@[k]),
        decreases cs@.len() - i,
    {
        let c = cs[i];
        let ok = ('a' <= c && c <= 'z') || ('0' <= c && c <= '9') || c == '.' || c == '-' || c
            == '_';
        if !ok {
            assert(!is_identifier_char(cs@[i as int]));
            return false;
        }
        i = i + 1;
    }
    true
}

fn identifier_error(value: &str) -> (r: String)
    ensures
        r@ == invalid_identifier_message(value@),
{
    let mut message = String::from_str("invalid identifier `");
    append_str(&mut message, value);
    append_str(&mut message, "`");
    message
}

/// Unique, stable, machine-readable identifier of an action.
#[derive(Clone, Debug, PartialEq, Eq, Hash, PartialOrd, Ord)]
pub struct ActionId(String);

/// Identifier of a category.
#[derive(Clone, Debug, PartialEq, Eq, Hash, PartialOrd, Ord)]
pub struct CategoryId(String);

impl View for ActionId {
    type V = Seq<char>;

    closed spec fn view(&self) -> Seq<char> {
        self.0@
    }
}

impl View for CategoryId {
    type V = Seq<char>;

    closed spec fn view(&self) -> Seq<char> {
        self.0@
    }
}

impl ActionId {
    /// Accepts `value` exactly when it is a valid identifier.
    pub fn parse(value: &str) -> (r: Result<ActionId, String>)
        ensures
            r is Ok <==> valid_identifier(value@),
            r matches Ok(id) ==> id@ == value@,
            r matches Err(message) ==> message@ == invalid_identifier_message(value@),
    {
        if identifier_is_valid(value) {
            Ok(ActionId(String::from_str(value)))
        } else {
            Err(identifier_error(value))
        }
    }

    pub fn as_str(&self) -> (r: &str)
        ensures
            r@ == self@,
    {
        self.0.as_str()
    }

    /// An identifier from characters already known to be valid.
    pub(crate) fn from_known(value: &str) -> (r: ActionId)
        requires
            valid_identifier(value@),
        ensures
            r@ == value@,
    {
        ActionId(String::from_str(value))
    }

    /// A copy with the same characters.
    pub fn duplicate(&self) -> (r: ActionId)
        ensures
            r@ == self@,
    {
        ActionId(self.0.clone())
    }

    /// Whether two identifiers hold the same characters.
    pub fn same_as(&self, other: &ActionId) -> (r: bool)
        ensures
            r == (self@ == other@),
    {
        self.0 == other.0
    }
}

impl CategoryId {
    /// Accepts `value` exactly when it is a valid identifier.
    pub fn parse(value: &str) -> (r: Result<CategoryId, String>)
        ensures
            r is Ok <==> valid_identifier(value@),
            r matches Ok(id) ==> id@ == value@,
            r matches Err(message) ==> message@ == invalid_identifier_message(value@),
    {
        if identifier_is_valid(value) {
            Ok(CategoryId(String::from_str(value)))
        } else {
            Err(identifier_error(value))
        }
    }

    pub fn as_str(&self) -> (r: &str)
        ensures
            r@ == self@,
    {
        self.0.as_str()
    }

    /// An identifier from characters already known to be valid.
    pub(crate) fn from_known(value: &str) -> (r: CategoryId)
        requires
            valid_identifier(value@),
        ensures
            r@ == value@,
    {
        CategoryId(String::from_str(value))
    }

    /// A copy with the same characters.
    pub fn duplicate(&self) -> (r: CategoryId)
        ensures
            r@ == self@,
    {
        CategoryId(self.0.clone())
    }

    /// Whether two identifiers hold the same characters.
    pub fn same_as(&self, other: &CategoryId) -> (r: bool)
        ensures
            r == (self@ == other@),
    {
        self.0 == other.0
    }
}

impl std::str::FromStr for ActionId {
    type Err = String;

    /// Accepts `value` exactly when it is a valid identifier, as `parse` does.
    fn from_str(value: &str) -> (r: Result<Self, Self::Err>)
        ensures
            r is Ok <==> valid_identifier(value@),
            r matches Ok(id) ==> id@ == value@,
            r matches Err(message) ==> message@ == invalid_identifier_message(value@),
    {
        ActionId::parse(value)
    }
}

impl std::str::FromStr for CategoryId {
    type Err = String;

    /// Accepts `value` exactly when it is a valid identifier, as `parse` does.
    fn from_str(value: &str) -> (r: Result<Self, Self::Err>)
        ensures
            r is Ok <==> valid_identifier(value@),
            r matches Ok(id) ==> id@ == value@,
            r matches Err(message) ==> message@ == invalid_identifier_message(value@),
    {
        CategoryId::parse(value)
    }
}

/// A versioned catalog document: categories group actions for navigation.
#[derive(Clone, Debug, PartialEq, Eq)]
pub struct Catalog {
    pub schema_version: u32,
    pub categories: Vec<Category>,
    pub actions: Vec<ActionDefinition>,
}

/// Navigation metadata; never executable.
#[derive(Clone, Debug, PartialEq, Eq)]
pub struct Category {
    pub id: CategoryId,
    pub label: String,
    pub description: String,
}

/// An action: a script file run by an explicit interpreter, with host requirements.
#[derive(Clone, Debug, PartialEq, Eq)]
pub struct ActionDefinition {
    pub id: ActionId,
    pub label: String,
    pub description: String,
    pub category: CategoryId,
    /// Path of the script, relative to the catalog root, `/`-separated.
    pub script: String,
    pub interpreter: Interpreter,
    pub requirements: Requirements,
}

/// The program that runs a script and the arguments placed before the script path.
#[derive(Clone, Debug, PartialEq, Eq)]
pub struct Interpreter {
    pub program: String,
    pub args: Vec<String>,
}

/// Host requirements; an empty list places no constraint.
#[derive(Clone, Debug, PartialEq, Eq)]
pub struct Requirements {
    pub os: Vec<String>,
    pub arch: Vec<String>,
    pub executables: Vec<String>,
}

/// The interpreter used when a catalog entry names none.
pub fn default_interpreter() -> (r: String)
    ensures
        r@ == "sh"@,
{
    String::from_str("sh")
}

impl Default for Interpreter {
    fn default() -> (r: Self)
        ensures
            r.program@ == "sh"@,
            r.args@.len() == 0,
    {
        Interpreter { program: default_interpreter(), args: Vec::new() }
    }
}

impl Default for Requirements {
    fn default() -> (r: Self)
        ensures
            r.os@.len() == 0,
            r.arch@.len() == 0,
            r.executables@.len() == 0,
    {
        Requirements { os: Vec::new(), arch: Vec::new(), executables: Vec::new() }
    }
}

/// Why a catalog could not be loaded.
#[derive(Debug)]
pub enum CatalogError {
    ReadManifest { path: String, source: std::io::Error },
    Parse(toml::de::Error),
    SchemaVersion { found: u32 },
    DuplicateCategory(CategoryId),
    DuplicateAction(ActionId),
    UnknownCategory { action: ActionId, category: CategoryId },
    UnsafeScriptPath { action: ActionId, path: String },
    MissingScript { action: ActionId, path: String },
    InterpreterMismatch { action: ActionId, declared: String, shebang: String },
    InvalidExecutable { action: ActionId, executable: String },
}

/// The content of a `CatalogError`, as plain values.
pub enum CatalogIssue {
    ReadManifest { path: Seq<char> },
    Parse,
    SchemaVersion { found: u32 },
    DuplicateCategory { id: Seq<char> },
    DuplicateAction { id: Seq<char> },
    UnknownCategory { action: Seq<char>, category: Seq<char> },
    UnsafeScriptPath { action: Seq<char>, path: Seq<char> },
    MissingScript { action: Seq<char>, path: Seq<char> },
    InterpreterMismatch { action: Seq<char>, declared: Seq<char>, shebang: Seq<char> },
    InvalidExecutable { action: Seq<char>, executable: Seq<char> },
}

impl CatalogError {
    pub open spec fn issue(&self) -> CatalogIssue {
        match self {
            CatalogError::ReadManifest { path, .. } => CatalogIssue::ReadManifest { path: path@ },
            CatalogError::Parse(_) => CatalogIssue::Parse,
            CatalogError::SchemaVersion { found } => CatalogIssue::SchemaVersion { found: *found },
            CatalogError::DuplicateCategory(id) => CatalogIssue::DuplicateCategory { id: id@ },
            CatalogError::DuplicateAction(id) => CatalogIssue::DuplicateAction { id: id@ },
            CatalogError::UnknownCategory { action, category } => CatalogIssue::UnknownCategory {
                action: action@,
                category: category@,
            },
            CatalogError::UnsafeScriptPath { action, path } => CatalogIssue::UnsafeScriptPath {
                action: action@,
                path: path@,
            },
            CatalogError::MissingScript { action, path } => CatalogIssue::MissingScript {
                action: action@,
                path: path@,
            },
            CatalogError::InterpreterMismatch { action, declared, shebang } =>
                CatalogIssue::InterpreterMismatch {
                action: action@,
                declared: declared@,
                shebang: shebang@,
            },
            CatalogError::InvalidExecutable { action, executable } =>
                CatalogIssue::InvalidExecutable { action: action@, executable: executable@ },
        }
    }
}

/// The bytes of an optional buffer, as a sequence.
pub open spec fn bytes_view(r: Option<Vec<u8>>) -> Option<Seq<u8>> {
    match r {
        Some(v) => Some(v@),
        None => None,
    }
}

/// Read access to the files of a catalog, by path relative to its root.
pub trait CatalogFiles {
    /// Reading `path` may give `result`. Implementations verified with this
    /// library state what their files hold; by default nothing is known.
    closed spec fn read_returns(&self, path: Seq<char>, result: Option<Seq<u8>>) -> bool {
        true
    }

    /// The bytes stored at `relative_path`, if there is such a file.
    fn read(&self, relative_path: &str) -> (r: Option<Vec<u8>>)
        ensures
            self.read_returns(relative_path@, bytes_view(r)),
    ;

    /// Every file of the catalog other than the manifest.
    fn paths(&self) -> Vec<String>;
}

/// Where a catalog came from.
#[derive(Clone, Debug, PartialEq, Eq)]
pub enum CatalogSource {
    Embedded,
    Local(String),
}

/// A validated catalog together with access to its files.
#[derive(Clone, Debug)]
pub struct CatalogBundle<F> {
    pub catalog: Catalog,
    pub files: F,
    pub source: CatalogSource,
}

// ---------------------------------------------------------------------------
// Shebang lines

pub open spec fn is_ascii_whitespace(c: char) -> bool {
    c == ' ' || c == '\t' || c == '\n' || c == '\x0C' || c == '\r'
}

/// End of the run of ASCII whitespace that starts at `i`.
pub open spec fn whitespace_end(s: Seq<char>, i: int) -> int
    decreases s.len() - i,
{
    if i < 0 || i >= s.len() || !is_ascii_whitespace(s[i]) {
        i
    } else {
        whitespace_end(s, i + 1)
    }
}

/// End of the run of non-whitespace characters that starts at `i`.
pub open spec fn word_end(s: Seq<char>, i: int) -> int
    decreases s.len() - i,
{
    if i < 0 || i >= s.len() || is_ascii_whitespace(s[i]) {
        i
    } else {
        word_end(s, i + 1)
    }
}

/// The first whitespace-separated word of `s`; empty when there is none.
pub open spec fn first_word(s: Seq<char>) -> Seq<char> {
    s.subrange(whitespace_end(s, 0), word_end(s, whitespace_end(s, 0)))
}

/// End of the line that starts at `i`: the index of the next `\n`, or the length.
pub open spec fn line_end(b: Seq<u8>, i: int) -> int
    decreases b.len() - i,
{
    if i < 0 || i >= b.len() || b[i] == 10 {
        i
    } else {
        line_end(b, i + 1)
    }
}

/// The bytes after `#!` up to the first newline, when the script starts with `#!`.
pub open spec fn shebang_line(script: Seq<u8>) -> Option<Seq<u8>> {
    if script.len() >= 2 && script[0] == 35 && script[1] == 33 {
        Some(script.subrange(2, line_end(script, 2)))
    } else {
        None
    }
}

/// A shebang must name the declared interpreter (compared by final path component).
pub open spec fn shebang_issue(action: ActionDefinition, script: Seq<u8>) -> Option<CatalogIssue> {
    match shebang_line(script) {
        None => None,
        Some(line) => {
            let text = lossy_text(line);
            if base_name(first_word(text)) != base_name(action.interpreter.program@) {
                Some(
                    CatalogIssue::InterpreterMismatch {
                        action: action.id@,
                        declared: action.interpreter.program@,
                        shebang: text,
                    },
                )
            } else {
                None
            }
        },
    }
}

proof fn lemma_whitespace_end(s: Seq<char>, i: int)
    requires
        0 <= i <= s.len(),
    ensures
        i <= whitespace_end(s, i) <= s.len(),
    decreases s.len() - i,
{
    if i < s.len() && is_ascii_whitespace(s[i]) {
        lemma_whitespace_end(s, i + 1);
    }
}

proof fn lemma_word_end(s: Seq<char>, i: int)
    requires
        0 <= i <= s.len(),
    ensures
        i <= word_end(s, i) <= s.len(),
    decreases s.len() - i,
{
    if i < s.len() && !is_ascii_whitespace(s[i]) {
        lemma_word_end(s, i + 1);
    }
}

proof fn lemma_line_end(b: Seq<u8>, i: int)
    requires
        0 <= i <= b.len(),
    ensures
        i <= line_end(b, i) <= b.len(),
    decreases b.len() - i,
{
    if i < b.len() && b[i] != 10 {
        lemma_line_end(b, i + 1);
    }
}

fn ascii_whitespace(c: char) -> (r: bool)
    ensures
        r == is_ascii_whitespace(c),
{
    c == ' ' || c == '\t' || c == '\n' || c == '\x0C' || c == '\r'
}

fn first_word_of(text: &str) -> (r: String)
    ensures
        r@ == first_word(text@),
{
    let cs = chars_of(text);
    let n = cs.len();
    let mut start: usize = 0;
    while start < n && ascii_whitespace(cs[start])
        invariant
            cs@ == text@,
            n == cs@.len(),
            start <= n,
            whitespace_end(cs@, 0) == whitespace_end(cs@, start as int),
        decreases n - start,
    {
        start = start + 1;
    }
    let mut end = start;
    while end < n && !ascii_whitespace(cs[end])
        invariant
            cs@ == text@,
            n == cs@.len(),
            start <= end <= n,
            whitespace_end(cs@, 0) == start,
            word_end(cs@, start as int) == word_end(cs@, end as int),
        decreases n - end,
    {
        end = end + 1;
    }
    let part = vstd::slice::slice_subrange(cs.as_slice(), start, end);
    crate::text::string_of(part)
}

/// Checks the script's shebang line, if any, against the declared interpreter.
fn check_shebang(action: &ActionDefinition, script: &Vec<u8>) -> (r: Result<(), CatalogError>)
    ensures
        match r {
            Ok(()) => shebang_issue(*action, script@) is None,
            Err(e) => shebang_issue(*action, script@) == Some(e.issue()),
        },
{
    let n = script.len();
    if !(n >= 2 && script[0] == 35u8 && script[1] == 33u8) {
        return Ok(());
    }
    let mut end: usize = 2;
    while end < n && script[end] != 10u8
        invariant
            n == script@.len(),
            2 <= end <= n,
            line_end(script@, 2) == line_end(script@, end as int),
        decreases n - end,
    {
        end = end + 1;
    }
    let line = vstd::slice::slice_subrange(script.as_slice(), 2, end);
    let text = decode_lossy(line);
    let program = first_word_of(text.as_str());
    let shebang_base = base_name_of(program.as_str());
    let declared_base = base_name_of(action.interpreter.program.as_str());
    if same_text(shebang_base.as_str(), declared_base.as_str()) {
        Ok(())
    } else {
        Err(
            CatalogError::InterpreterMismatch {
                action: action.id.duplicate(),
                declared: action.interpreter.program.clone(),
                shebang: text,
            },
        )
    }
}

// ---------------------------------------------------------------------------
// Validation

/// The first category (in order) whose ID repeats an earlier one, among the first `n`.
pub open spec fn duplicate_category(cats: Seq<Category>, n: int) -> Option<Seq<char>>
    decreases n,
{
    if n <= 0 {
        None
    } else {
        match duplicate_category(cats, n - 1) {
            Some(id) => Some(id),
            None => if exists|j: int| 0 <= j < n - 1 && #[trigger] cats[j].id@ == cats[n - 1].id@ {
                Some(cats[n - 1].id@)
            } else {
                None
            },
        }
    }
}

pub open spec fn category_declared(c: Catalog, id: Seq<char>) -> bool {
    exists|j: int| 0 <= j < c.categories@.len() && #[trigger] c.categories@[j].id@ == id
}

/// An executable requirement must be a bare, non-empty program name.
pub open spec fn bad_executable(e: Seq<char>) -> bool {
    e.len() == 0 || e.contains('/')
}

/// The first malformed executable requirement among the first `n`.
pub open spec fn first_bad_executable(es: Seq<String>, n: int) -> Option<Seq<char>>
    decreases n,
{
    if n <= 0 {
        None
    } else {
        match first_bad_executable(es, n - 1) {
            Some(e) => Some(e),
            None => if bad_executable(es[n - 1]@) {
                Some(es[n - 1]@)
            } else {
                None
            },
        }
    }
}

/// A problem with action `i` found before its script is read.
pub open spec fn structure_issue(c: Catalog, i: int) -> Option<CatalogIssue> {
    let a = c.actions@[i];
    if exists|j: int| 0 <= j < i && #[trigger] c.actions@[j].id@ == a.id@ {
        Some(CatalogIssue::DuplicateAction { id: a.id@ })
    } else if !category_declared(c, a.category@) {
        Some(CatalogIssue::UnknownCategory { action: a.id@, category: a.category@ })
    } else if !safe_relative_path(a.script@) {
        Some(CatalogIssue::UnsafeScriptPath { action: a.id@, path: a.script@ })
    } else {
        match first_bad_executable(
            a.requirements.executables@,
            a.requirements.executables@.len() as int,
        ) {
            Some(e) => Some(CatalogIssue::InvalidExecutable { action: a.id@, executable: e }),
            None => None,
        }
    }
}

/// The problem with an action's script, given what reading it returned.
pub open spec fn script_issue(a: ActionDefinition, script: Option<Seq<u8>>) -> Option<CatalogIssue> {
    match script {
        None => Some(CatalogIssue::MissingScript { action: a.id@, path: a.script@ }),
        Some(bytes) => shebang_issue(a, bytes),
    }
}

/// The problem with action `i`, given that the actions before it passed and
/// that reading its script returned `script`.
pub open spec fn action_issue(c: Catalog, i: int, script: Option<Seq<u8>>) -> Option<CatalogIssue> {
    match structure_issue(c, i) {
        Some(issue) => Some(issue),
        None => script_issue(c.actions@[i], script),
    }
}

/// The first problem among the first `n` actions; `reads[i]` is what reading
/// the script of action `i` returned.
pub open spec fn actions_issue(c: Catalog, n: int, reads: Seq<Option<Seq<u8>>>) -> Option<CatalogIssue>
    decreases n,
{
    if n <= 0 {
        None
    } else {
        match actions_issue(c, n - 1, reads) {
            Some(issue) => Some(issue),
            None => action_issue(c, n - 1, reads[n - 1]),
        }
    }
}

/// A problem with the schema version or the categories.
pub open spec fn header_issue(c: Catalog) -> Option<CatalogIssue> {
    if c.schema_version != 1 {
        Some(CatalogIssue::SchemaVersion { found: c.schema_version })
    } else {
        match duplicate_category(c.categories@, c.categories@.len() as int) {
            Some(id) => Some(CatalogIssue::DuplicateCategory { id }),
            None => None,
        }
    }
}

/// The first problem found in a catalog, checking the schema version, then the
/// categories in order, then each action in order; `None` when it is valid.
/// `reads[i]` is what reading the script of action `i` returned.
pub open spec fn validation_issue(c: Catalog, reads: Seq<Option<Seq<u8>>>) -> Option<CatalogIssue> {
    match header_issue(c) {
        Some(issue) => Some(issue),
        None => actions_issue(c, c.actions@.len() as int, reads),
    }
}

/// The outcome of validation matches `issue`.
pub open spec fn reports(r: Result<(), CatalogError>, issue: Option<CatalogIssue>) -> bool {
    match r {
        Ok(()) => issue is None,
        Err(e) => issue == Some(e.issue()),
    }
}

pub open spec fn read_views(reads: Seq<Option<Vec<u8>>>) -> Seq<Option<Seq<u8>>> {
    reads.map_values(
        |r: Option<Vec<u8>>|
            match r {
                Some(v) => Some(v@),
                None => None,
            },
    )
}

proof fn lemma_duplicate_category_stable(cats: Seq<Category>, m: int, n: int)
    requires
        0 <= m <= n,
        duplicate_category(cats, m) is Some,
    ensures
        duplicate_category(cats, n) == duplicate_category(cats, m),
    decreases n - m,
{
    if n > m {
        lemma_duplicate_category_stable(cats, m, n - 1);
    }
}

proof fn lemma_first_bad_executable_stable(es: Seq<String>, m: int, n: int)
    requires
        0 <= m <= n,
        first_bad_executable(es, m) is Some,
    ensures
        first_bad_executable(es, n) == first_bad_executable(es, m),
    decreases n - m,
{
    if n > m {
        lemma_first_bad_executable_stable(es, m, n - 1);
    }
}

proof fn lemma_actions_issue_stable(c: Catalog, m: int, n: int, reads: Seq<Option<Seq<u8>>>)
    requires
        0 <= m <= n,
        actions_issue(c, m, reads) is Some,
    ensures
        actions_issue(c, n, reads) == actions_issue(c, m, reads),
    decreases n - m,
{
    if n > m {
        lemma_actions_issue_stable(c, m, n - 1, reads);
    }
}

/// Only the reads of the first `n` actions matter to the first `n` actions.
proof fn lemma_actions_issue_prefix(
    c: Catalog,
    n: int,
    r1: Seq<Option<Seq<u8>>>,
    r2: Seq<Option<Seq<u8>>>,
)
    requires
        0 <= n <= r1.len(),
        n <= r2.len(),
        forall|k: int| 0 <= k < n ==> r1[k] == r2[k],
    ensures
        actions_issue(c, n, r1) == actions_issue(c, n, r2),
    decreases n,
{
    if n > 0 {
        lemma_actions_issue_prefix(c, n - 1, r1, r2);
    }
}

fn category_is_declared(catalog: &Catalog, id: &CategoryId) -> (r: bool)
    ensures
        r == category_declared(*catalog, id@),
{
    let mut j: usize = 0;
    while j < catalog.categories.len()
        invariant
            j <= catalog.categories@.len(),
            forall|k: int| 0 <= k < j ==> catalog.categories@[k].id@ != id@,
        decreases catalog.categories@.len() - j,
    {
        if catalog.categories[j].id.same_as(id) {
            return true;
        }
        j = j + 1;
    }
    false
}

fn check_executables(action: &ActionDefinition) -> (r: Result<(), CatalogError>)
    ensures
        r is Ok <==> first_bad_executable(
            action.requirements.executables@,
            action.requirements.executables@.len() as int,
        ) is None,
        r matches Err(e) ==> e.issue() == (CatalogIssue::InvalidExecutable {
            action: action.id@,
            executable: first_bad_executable(
                action.requirements.executables@,
                action.requirements.executables@.len() as int,
            )->0,
        }),
{
    let es = &action.requirements.executables;
    let mut k: usize = 0;
    while k < es.len()
        invariant
            es == &action.requirements.executables,
            k <= es@.len(),
            first_bad_executable(es@, k as int) is None,
        decreases es@.len() - k,
    {
        let cs = chars_of(es[k].as_str());
        if cs.len() == 0 || has_char(&cs, '/') {
            assert(bad_executable(es@[k as int]@));
            assert(first_bad_executable(es@, k + 1) == Some(es@[k as int]@));
            proof {
                lemma_first_bad_executable_stable(es@, k + 1, es@.len() as int);
            }
            let e = CatalogError::InvalidExecutable {
                action: action.id.duplicate(),
                executable: es[k].clone(),
            };
            return Err(e);
        }
        k = k + 1;
    }
    Ok(())
}

fn check_header(catalog: &Catalog) -> (r: Result<(), CatalogError>)
    ensures
        reports(r, header_issue(*catalog)),
{
    if catalog.schema_version != 1 {
        return Err(CatalogError::SchemaVersion { found: catalog.schema_version });
    }
    let cats = &catalog.categories;
    let mut i: usize = 0;
    while i < cats.len()
        invariant
            cats == &catalog.categories,
            catalog.schema_version == 1,
            i <= cats@.len(),
            duplicate_category(cats@, i as int) is None,
        decreases cats@.len() - i,
    {
        let mut j: usize = 0;
        while j < i
            invariant
                cats == &catalog.categories,
                catalog.schema_version == 1,
                duplicate_category(cats@, i as int) is None,
                i < cats@.len(),
                j <= i,
                forall|k: int| 0 <= k < j ==> cats@[k].id@ != cats@[i as int].id@,
            decreases i - j,
        {
            if cats[j].id.same_as(&cats[i].id) {
                assert(cats@[j as int].id@ == cats@[i as int].id@);
                assert(duplicate_category(cats@, i + 1) == Some(cats@[i as int].id@));
                proof {
                    lemma_duplicate_category_stable(cats@, i + 1, cats@.len() as int);
                }
                return Err(CatalogError::DuplicateCategory(cats[i].id.duplicate()));
            }
            j = j + 1;
        }
        i = i + 1;
    }
    Ok(())
}

fn check_structure(catalog: &Catalog, i: usize) -> (r: Result<(), CatalogError>)
    requires
        i < catalog.actions@.len(),
    ensures
        reports(r, structure_issue(*catalog, i as int)),
{
    let actions = &catalog.actions;
    let action = &actions[i];
    let mut j: usize = 0;
    while j < i
        invariant
            actions == &catalog.actions,
            i < actions@.len(),
            j <= i,
            action == &actions@[i as int],
            forall|k: int| 0 <= k < j ==> actions@[k].id@ != action.id@,
        decreases i - j,
    {
        if actions[j].id.same_as(&action.id) {
            assert(actions@[j as int].id@ == action.id@);
            return Err(CatalogError::DuplicateAction(action.id.duplicate()));
        }
        j = j + 1;
    }
    if !category_is_declared(catalog, &action.category) {
        return Err(
            CatalogError::UnknownCategory {
                action: action.id.duplicate(),
                category: action.category.duplicate(),
            },
        );
    }
    if !is_safe_relative_path(action.script.as_str()) {
        return Err(
            CatalogError::UnsafeScriptPath {
                action: action.id.duplicate(),
                path: action.script.clone(),
            },
        );
    }
    check_executables(action)
}

fn check_script(action: &ActionDefinition, script: Option<Vec<u8>>) -> (r: Result<(), CatalogError>)
    ensures
        reports(
            r,
            script_issue(
                *action,
                match script {
                    Some(v) => Some(v@),
                    None => None,
                },
            ),
        ),
{
    match script {
        Some(bytes) => check_shebang(action, &bytes),
        None => Err(
            CatalogError::MissingScript { action: action.id.duplicate(), path: action.script.clone() },
        ),
    }
}

/// Validates a catalog given what reading each action's script returned:
/// `reads[i]` for action `i`.
pub fn validate_given(catalog: &Catalog, reads: &Vec<Option<Vec<u8>>>) -> (r: Result<(), CatalogError>)
    requires
        reads@.len() == catalog.actions@.len(),
    ensures
        reports(r, validation_issue(*catalog, read_views(reads@))),
{
    let ghost rv = read_views(reads@);
    match check_header(catalog) {
        Ok(()) => {},
        Err(e) => {
            return Err(e);
        },
    }
    let mut i: usize = 0;
    while i < catalog.actions.len()
        invariant
            rv == read_views(reads@),
            reads@.len() == catalog.actions@.len(),
            header_issue(*catalog) is None,
            i <= catalog.actions@.len(),
            actions_issue(*catalog, i as int, rv) is None,
        decreases catalog.actions@.len() - i,
    {
        match check_structure(catalog, i) {
            Ok(()) => {},
            Err(e) => {
                proof {
                    lemma_actions_issue_stable(*catalog, i + 1, catalog.actions@.len() as int, rv);
                }
                return Err(e);
            },
        }
        let script = match &reads[i] {
            Some(v) => Some(v.clone()),
            None => None,
        };
        let ghost sv = match script {
            Some(ref v) => Some(v@),
            None => None,
        };
        assert(sv == rv[i as int]);
        match check_script(&catalog.actions[i], script) {
            Ok(()) => {},
            Err(e) => {
                proof {
                    lemma_actions_issue_stable(*catalog, i + 1, catalog.actions@.len() as int, rv);
                }
                return Err(e);
            },
        }
        i = i + 1;
    }
    Ok(())
}

/// Validation gets as far as reading the script of action `i`: the header and
/// the actions before it passed, and so did the checks of action `i` that come
/// before its script is read.
pub open spec fn read_reached(c: Catalog, i: int, reads: Seq<Option<Seq<u8>>>) -> bool {
    &&& header_issue(c) is None
    &&& actions_issue(c, i, reads) is None
    &&& structure_issue(c, i) is None
}

/// Each script that validation gets to read is taken from `files` at the
/// action's own script path: `reads[i]` is what reading it gave.
pub open spec fn read_from<F: CatalogFiles>(files: &F, c: Catalog, reads: Seq<Option<Seq<u8>>>) -> bool {
    forall|i: int|
        0 <= i < c.actions@.len() && read_reached(c, i, reads) ==> files.read_returns(
            c.actions@[i].script@,
            #[trigger] reads[i],
        )
}

/// Checks a catalog's structure and the scripts it refers to, reading each
/// action's script only once the checks before it have passed.
///
/// The outcome is what `validation_issue` gives for the catalog and the read
/// results that `files` returned: success when there is no problem, otherwise
/// the first problem in the order that `validation_issue` checks. The script
/// of every action that validation reaches is read from `files` at that
/// action's script path.
pub fn validate<F: CatalogFiles>(catalog: &Catalog, files: &F) -> (r: Result<(), CatalogError>)
    ensures
        exists|reads: Seq<Option<Seq<u8>>>|
            reads.len() == catalog.actions@.len() && #[trigger] reports(
                r,
                validation_issue(*catalog, reads),
            ) && read_from(files, *catalog, reads),
{
    let n = catalog.actions.len();
    let ghost none_read: Option<Seq<u8>> = None;
    match check_header(catalog) {
        Ok(()) => {},
        Err(e) => {
            let ghost pad = Seq::new(n as nat, |k: int| none_read);
            assert(reports(Err::<(), CatalogError>(e), validation_issue(*catalog, pad)));
            assert(read_from(files, *catalog, pad));
            return Err(e);
        },
    }
    let ghost mut seen: Seq<Option<Seq<u8>>> = Seq::empty();
    let mut i: usize = 0;
    while i < n
        invariant
            n == catalog.actions@.len(),
            header_issue(*catalog) is None,
            i <= n,
            seen.len() == i,
            actions_issue(*catalog, i as int, seen) is None,
            forall|k: int|
                0 <= k < i ==> files.read_returns(catalog.actions@[k].script@, #[trigger] seen[k]),
        decreases n - i,
    {
        match check_structure(catalog, i) {
            Ok(()) => {},
            Err(e) => {
                let ghost pad = seen + Seq::new((n - i) as nat, |k: int| none_read);
                proof {
                    lemma_actions_issue_prefix(*catalog, i as int, seen, pad);
                    lemma_actions_issue_stable(*catalog, i + 1, n as int, pad);
                    assert forall|k: int|
                        0 <= k < n && read_reached(*catalog, k, pad) implies files.read_returns(
                        catalog.actions@[k].script@,
                        #[trigger] pad[k],
                    ) by {
                        if k > i {
                            lemma_actions_issue_stable(*catalog, i + 1, k, pad);
                        } else if k < i {
                            assert(pad[k] == seen[k]);
                        }
                    }
                }
                assert(reports(Err::<(), CatalogError>(e), validation_issue(*catalog, pad)));
                return Err(e);
            },
        }
        let script = files.read(catalog.actions[i].script.as_str());
        let ghost sv = match script {
            Some(ref v) => Some(v@),
            None => None,
        };
        proof {
            let next = seen.push(sv);
            lemma_actions_issue_prefix(*catalog, i as int, seen, next);
            assert forall|k: int|
                0 <= k < i + 1 implies files.read_returns(catalog.actions@[k].script@, #[trigger] next[k]) by {
                if k < i {
                    assert(next[k] == seen[k]);
                }
            }
            seen = next;
        }
        match check_script(&catalog.actions[i], script) {
            Ok(()) => {},
            Err(e) => {
                let ghost pad = seen + Seq::new((n - i - 1) as nat, |k: int| none_read);
                proof {
                    lemma_actions_issue_prefix(*catalog, i + 1, seen, pad);
                    lemma_actions_issue_stable(*catalog, i + 1, n as int, pad);
                    assert forall|k: int|
                        0 <= k < n && read_reached(*catalog, k, pad) implies files.read_returns(
                        catalog.actions@[k].script@,
                        #[trigger] pad[k],
                    ) by {
                        if k > i {
                            lemma_actions_issue_stable(*catalog, i + 1, k, pad);
                        } else {
                            assert(pad[k] == seen[k]);
                        }
                    }
                }
                assert(reports(Err::<(), CatalogError>(e), validation_issue(*catalog, pad)));
                return Err(e);
            },
        }
        i = i + 1;
    }
    assert(reports(Ok::<(), CatalogError>(()), validation_issue(*catalog, seen)));
    assert(read_from(files, *catalog, seen));
    Ok(())
}

} // verus!

verus! {

/// The actions among the first `n` whose category is `category`, in catalog order.
pub open spec fn category_members(actions: Seq<ActionDefinition>, category: Seq<char>, n: int) -> Seq<
    ActionDefinition,
>
    decreases n,
{
    if n <= 0 {
        Seq::empty()
    } else if actions[n - 1].category@ == category {
        category_members(actions, category, n - 1).push(actions[n - 1])
    } else {
        category_members(actions, category, n - 1)
    }
}

proof fn lemma_no_members(actions: Seq<ActionDefinition>, category: Seq<char>, n: int)
    requires
        0 <= n <= actions.len(),
        forall|j: int| 0 <= j < n ==> actions[j].category@ != category,
    ensures
        category_members(actions, category, n) =~= Seq::empty(),
    decreases n,
{
    if n > 0 {
        lemma_no_members(actions, category, n - 1);
    }
}

/// The categories named by the first `n` actions, each once, in order of first use.
pub open spec fn first_uses(actions: Seq<ActionDefinition>, n: int) -> Seq<Seq<char>>
    decreases n,
{
    if n <= 0 {
        Seq::empty()
    } else if exists|j: int| 0 <= j < n - 1 && #[trigger] actions[j].category@ == actions[n - 1].category@ {
        first_uses(actions, n - 1)
    } else {
        first_uses(actions, n - 1).push(actions[n - 1].category@)
    }
}

/// Some group is keyed by `category`.
pub open spec fn has_group<'a>(groups: Seq<(&'a CategoryId, Vec<&'a ActionDefinition>)>, category: Seq<char>) -> bool {
    exists|k: int| 0 <= k < groups.len() && #[trigger] groups[k].0@ == category
}

pub open spec fn deref_all<'a>(refs: Seq<&'a ActionDefinition>) -> Seq<ActionDefinition> {
    refs.map_values(|a: &ActionDefinition| *a)
}

/// Groups the actions by category. There is one group per category that some
/// action names, in order of first use; each group lists that category's
/// actions in catalog order.
pub fn actions_by_category<'a>(catalog: &'a Catalog) -> (r: Vec<(&'a CategoryId, Vec<&'a ActionDefinition>)>)
    ensures
        r@.len() == first_uses(catalog.actions@, catalog.actions@.len() as int).len(),
        forall|k: int|
            0 <= k < r@.len() ==> (#[trigger] r@[k]).0@ == first_uses(
                catalog.actions@,
                catalog.actions@.len() as int,
            )[k],
        forall|k: int, l: int| 0 <= k < l < r@.len() ==> r@[k].0@ != r@[l].0@,
        forall|k: int|
            0 <= k < r@.len() ==> deref_all(#[trigger] r@[k].1@) == category_members(
                catalog.actions@,
                r@[k].0@,
                catalog.actions@.len() as int,
            ),
        forall|k: int| 0 <= k < r@.len() ==> #[trigger] r@[k].1@.len() > 0,
        forall|i: int|
            0 <= i < catalog.actions@.len() ==> has_group(r@, (#[trigger] catalog.actions@[i]).category@),
{
    let actions = &catalog.actions;
    let mut groups: Vec<(&'a CategoryId, Vec<&'a ActionDefinition>)> = Vec::new();
    let mut i: usize = 0;
    while i < actions.len()
        invariant
            actions == &catalog.actions,
            i <= actions@.len(),
            forall|k: int, l: int| 0 <= k < l < groups@.len() ==> groups@[k].0@ != groups@[l].0@,
            forall|k: int|
                0 <= k < groups@.len() ==> deref_all(#[trigger] groups@[k].1@) == category_members(
                    actions@,
                    groups@[k].0@,
                    i as int,
                ),
            forall|k: int| 0 <= k < groups@.len() ==> #[trigger] groups@[k].1@.len() > 0,
            forall|j: int|
                0 <= j < i ==> has_group(groups@, (#[trigger] catalog.actions@[j]).category@),
            groups@.len() == first_uses(actions@, i as int).len(),
            forall|k: int|
                0 <= k < groups@.len() ==> (#[trigger] groups@[k]).0@ == first_uses(actions@, i as int)[k],
            forall|k: int|
                0 <= k < groups@.len() ==> exists|j: int|
                    0 <= j < i && #[trigger] actions@[j].category@ == (#[trigger] groups@[k]).0@,
        decreases actions@.len() - i,
    {
        let action = &actions[i];
        let mut k: usize = 0;
        while k < groups.len()
            invariant
                k <= groups@.len(),
                action == &actions@[i as int],
                forall|m: int| 0 <= m < k ==> groups@[m].0@ != action.category@,
            ensures
                k <= groups@.len(),
                forall|m: int| 0 <= m < k ==> groups@[m].0@ != action.category@,
                k < groups@.len() ==> groups@[k as int].0@ == action.category@,
            decreases groups@.len() - k,
        {
            if groups[k].0.same_as(&action.category) {
                break;
            }
            k = k + 1;
        }
        let ghost old_groups = groups@;
        if k < groups.len() {
            groups[k].1.push(action);
            assert forall|m: int| 0 <= m < groups@.len() implies deref_all(#[trigger] groups@[m].1@)
                == category_members(actions@, groups@[m].0@, i + 1) by {
                if m == k {
                    assert(deref_all(groups@[m].1@) =~= deref_all(old_groups[m].1@).push(*action));
                } else {
                    assert(groups@[m] == old_groups[m]);
                }
            }
            assert(groups@[k as int].0@ == actions@[i as int].category@);
        } else {
            proof {
                lemma_no_members(actions@, action.category@, i as int);
            }
            let mut members: Vec<&'a ActionDefinition> = Vec::new();
            members.push(action);
            groups.push((&action.category, members));
            assert forall|m: int| 0 <= m < groups@.len() implies deref_all(#[trigger] groups@[m].1@)
                == category_members(actions@, groups@[m].0@, i + 1) by {
                if m == k {
                    assert(deref_all(groups@[m].1@) =~= seq![*action]);
                    assert(category_members(actions@, action.category@, i as int) =~= Seq::empty());
                } else {
                    assert(groups@[m] == old_groups[m]);
                }
            }
            assert(groups@[k as int].0@ == actions@[i as int].category@);
        }
        assert forall|j: int| 0 <= j < i + 1 implies has_group(
            groups@,
            (#[trigger] catalog.actions@[j]).category@,
        ) by {
            if j == i {
                assert(groups@[k as int].0@ == actions@[j].category@);
            } else {
                assert(has_group(old_groups, catalog.actions@[j].category@));
                let m = choose|m: int|
                    0 <= m < old_groups.len() && #[trigger] old_groups[m].0@
                        == catalog.actions@[j].category@;
                assert(groups@[m].0@ == actions@[j].category@);
            }
        }
        i = i + 1;
    }
    groups
}

} // verus!

verus! {

proof fn lemma_no_duplicate_category(cats: Seq<Category>, n: int)
    requires
        0 <= n <= cats.len(),
        duplicate_category(cats, n) is None,
    ensures
        forall|i: int, j: int| 0 <= i < j < n ==> cats[i].id@ != cats[j].id@,
    decreases n,
{
    if n > 0 {
        lemma_no_duplicate_category(cats, n - 1);
        assert forall|i: int, j: int| 0 <= i < j < n implies cats[i].id@ != cats[j].id@ by {
            if j == n - 1 {
                if cats[i].id@ == cats[j].id@ {
                    assert(exists|k: int| 0 <= k < n - 1 && #[trigger] cats[k].id@ == cats[n - 1].id@);
                }
            }
        }
    }
}

proof fn lemma_no_bad_executable(es: Seq<String>, n: int)
    requires
        0 <= n <= es.len(),
        first_bad_executable(es, n) is None,
    ensures
        forall|k: int| 0 <= k < n ==> !bad_executable(#[trigger] es[k]@),
    decreases n,
{
    if n > 0 {
        lemma_no_bad_executable(es, n - 1);
    }
}

proof fn lemma_no_action_issue(c: Catalog, n: int, reads: Seq<Option<Seq<u8>>>)
    requires
        0 <= n <= c.actions@.len(),
        n <= reads.len(),
        actions_issue(c, n, reads) is None,
    ensures
        forall|i: int| 0 <= i < n ==> #[trigger] action_issue(c, i, reads[i]) is None,
    decreases n,
{
    if n > 0 {
        lemma_no_action_issue(c, n - 1, reads);
    }
}

/// What validation guarantees: a catalog that passes has schema version 1,
/// unique category IDs and unique action IDs; every action refers to a declared
/// category through a safe relative script path, names its required
/// executables as bare program names, and has a script that was found and
/// whose shebang, if any, names the declared interpreter.
pub proof fn lemma_valid_catalog(c: Catalog, reads: Seq<Option<Seq<u8>>>)
    requires
        reads.len() == c.actions@.len(),
        validation_issue(c, reads) is None,
    ensures
        c.schema_version == 1,
        forall|i: int, j: int|
            0 <= i < j < c.categories@.len() ==> c.categories@[i].id@ != c.categories@[j].id@,
        forall|i: int, j: int|
            0 <= i < j < c.actions@.len() ==> c.actions@[i].id@ != c.actions@[j].id@,
        forall|i: int|
            0 <= i < c.actions@.len() ==> category_declared(c, (#[trigger] c.actions@[i]).category@)
                && safe_relative_path(c.actions@[i].script@),
        forall|i: int, k: int|
            0 <= i < c.actions@.len() && 0 <= k < c.actions@[i].requirements.executables@.len()
                ==> !bad_executable(
                (#[trigger] c.actions@[i].requirements.executables@[k])@,
            ),
        forall|i: int|
            0 <= i < c.actions@.len() ==> (#[trigger] reads[i]) is Some && shebang_issue(
                c.actions@[i],
                reads[i]->0,
            ) is None,
{
    lemma_no_duplicate_category(c.categories@, c.categories@.len() as int);
    lemma_no_action_issue(c, c.actions@.len() as int, reads);
    assert forall|i: int, j: int|
        0 <= i < j < c.actions@.len() implies c.actions@[i].id@ != c.actions@[j].id@ by {
        assert(action_issue(c, j, reads[j]) is None);
    }
    assert forall|i: int| 0 <= i < c.actions@.len() implies category_declared(
        c,
        (#[trigger] c.actions@[i]).category@,
    ) && safe_relative_path(c.actions@[i].script@) by {
        assert(action_issue(c, i, reads[i]) is None);
    }
    assert forall|i: int, k: int|
        0 <= i < c.actions@.len() && 0 <= k < c.actions@[i].requirements.executables@.len()
            implies !bad_executable((#[trigger] c.actions@[i].requirements.executables@[k])@) by {
        assert(action_issue(c, i, reads[i]) is None);
        let es = c.actions@[i].requirements.executables@;
        lemma_no_bad_executable(es, es.len() as int);
    }
    assert forall|i: int| 0 <= i < c.actions@.len() implies (#[trigger] reads[i]) is Some
        && shebang_issue(c.actions@[i], reads[i]->0) is None by {
        assert(action_issue(c, i, reads[i]) is None);
    }
}


proof fn lemma_bad_executable_found(es: Seq<String>, n: int)
    requires
        0 <= n <= es.len(),
        first_bad_executable(es, n) is Some,
    ensures
        exists|k: int|
            0 <= k < n && bad_executable(#[trigger] es[k]@) && first_bad_executable(es, n)
                == Some(es[k]@),
    decreases n,
{
    if first_bad_executable(es, n - 1) is Some {
        lemma_bad_executable_found(es, n - 1);
        let k = choose|k: int|
            0 <= k < n - 1 && bad_executable(#[trigger] es[k]@) && first_bad_executable(es, n - 1)
                == Some(es[k]@);
        assert(0 <= k < n);
    } else {
        assert(bad_executable(es[n - 1]@));
    }
}

proof fn lemma_actions_issue_from(c: Catalog, n: int, reads: Seq<Option<Seq<u8>>>)
    requires
        0 <= n,
        actions_issue(c, n, reads) is Some,
    ensures
        exists|i: int| 0 <= i < n && #[trigger] action_issue(c, i, reads[i]) == actions_issue(c, n, reads),
    decreases n,
{
    if actions_issue(c, n - 1, reads) is Some {
        lemma_actions_issue_from(c, n - 1, reads);
        let i = choose|i: int|
            0 <= i < n - 1 && #[trigger] action_issue(c, i, reads[i]) == actions_issue(c, n - 1, reads);
        assert(0 <= i < n);
    } else {
        assert(action_issue(c, n - 1, reads[n - 1]) == actions_issue(c, n, reads));
    }
}

/// A required executable is refused only when it is empty or contains `/`:
/// when every required executable of the catalog is a non-empty name without
/// `/`, validation never reports an invalid executable, whatever it read; and
/// a reported one is one of the action's requirements, empty or with a `/`.
pub proof fn lemma_executable_names(c: Catalog, reads: Seq<Option<Seq<u8>>>)
    ensures
        (forall|i: int, k: int|
            0 <= i < c.actions@.len() && 0 <= k < c.actions@[i].requirements.executables@.len()
                ==> #[trigger] c.actions@[i].requirements.executables@[k]@.len() > 0
                && !c.actions@[i].requirements.executables@[k]@.contains('/'))
            ==> !(validation_issue(c, reads) matches Some(CatalogIssue::InvalidExecutable { .. })),
        validation_issue(c, reads) matches Some(CatalogIssue::InvalidExecutable { action, executable })
            ==> exists|i: int, k: int|
            0 <= i < c.actions@.len() && 0 <= k < c.actions@[i].requirements.executables@.len()
                && c.actions@[i].id@ == action && #[trigger] c.actions@[i].requirements.executables@[k]@
                == executable && (executable.len() == 0 || executable.contains('/')),
{
    let n = c.actions@.len() as int;
    if validation_issue(c, reads) is Some && validation_issue(c, reads)->0 is InvalidExecutable {
        let executable = validation_issue(c, reads)->0->InvalidExecutable_executable;
        assert(header_issue(c) is None);
        lemma_actions_issue_from(c, n, reads);
        let i = choose|i: int|
            0 <= i < n && #[trigger] action_issue(c, i, reads[i]) == actions_issue(c, n, reads);
        let a = c.actions@[i];
        let es = a.requirements.executables@;
        assert(structure_issue(c, i) is Some);
        assert(first_bad_executable(es, es.len() as int) is Some);
        lemma_bad_executable_found(es, es.len() as int);
        let k = choose|k: int|
            0 <= k < es.len() && bad_executable(#[trigger] es[k]@) && first_bad_executable(
                es,
                es.len() as int,
            ) == Some(es[k]@);
        assert(c.actions@[i].requirements.executables@[k]@ == executable);
    }
}

} // verus!

