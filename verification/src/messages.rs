//! The text shown to users for the library's errors and reports.
use vstd::prelude::*;

use crate::catalog::{Catalog, CatalogError, CatalogIssue, CatalogSource};
use crate::execution::StartError;
use crate::runtime::ResolveError;
use crate::text::{append_str, decimal, decimal_string};
use crate::tui::TuiError;

verus! {

/// How std describes an I/O error (its `Display` text).
/// Nothing is claimed of the text: it may come from the operating system.
#[verifier::external_body]
fn io_error_text(error: &std::io::Error) -> (r: String) {
    format!("{}", error)
}

/// How the `toml` crate describes a parse error (`toml::de::Error`'s `Display`).
/// Nothing is claimed of the text.
#[verifier::external_body]
fn toml_error_text(error: &toml::de::Error) -> (r: String) {
    format!("{}", error)
}

fn owned(text: &str) -> (r: String)
    ensures
        r@ == text@,
{
    String::from_str(text)
}

/// `s` between backquotes.
pub open spec fn quoted(s: Seq<char>) -> Seq<char> {
    "`"@ + s + "`"@
}

/// Appends `` `text` `` to `r`.
fn append_quoted(r: &mut String, text: &str)
    ensures
        final(r)@ == old(r)@ + quoted(text@),
{
    append_str(r, "`");
    append_str(r, text);
    append_str(r, "`");
    assert(final(r)@ =~= old(r)@ + quoted(text@));
}

/// The message for a catalog problem; `detail` is the text of the underlying
/// I/O or parse error, for the two problems that have one.
pub open spec fn catalog_message(issue: CatalogIssue, detail: Seq<char>) -> Seq<char> {
    match issue {
        CatalogIssue::ReadManifest { path } => "could not read catalog manifest "@ + path + ": "@
            + detail,
        CatalogIssue::Parse => "catalog manifest is invalid: "@ + detail,
        CatalogIssue::SchemaVersion { found } => "unsupported catalog schema version "@ + decimal(
            found as nat,
        ) + "; this build supports version 1"@,
        CatalogIssue::DuplicateCategory { id } => "duplicate category ID "@ + quoted(id),
        CatalogIssue::DuplicateAction { id } => "duplicate action ID "@ + quoted(id),
        CatalogIssue::UnknownCategory { action, category } => "action "@ + quoted(action)
            + " refers to unknown category "@ + quoted(category),
        CatalogIssue::UnsafeScriptPath { action, path } => "action "@ + quoted(action)
            + " has unsafe script path "@ + quoted(path),
        CatalogIssue::MissingScript { action, path } => "action "@ + quoted(action)
            + " refers to missing script "@ + quoted(path),
        CatalogIssue::InterpreterMismatch { action, declared, shebang } => "action "@ + quoted(
            action,
        ) + " declares interpreter "@ + quoted(declared) + " but script shebang uses "@ + quoted(
            shebang,
        ),
        CatalogIssue::InvalidExecutable { action, executable } => "action "@ + quoted(action)
            + " has an invalid executable requirement "@ + quoted(executable),
    }
}

/// The problem carries the text of an underlying error.
pub open spec fn has_detail(issue: CatalogIssue) -> bool {
    issue is ReadManifest || issue is Parse
}

impl CatalogError {
    /// The user-facing description of the error.
    pub fn message(&self) -> (r: String)
        ensures
            has_detail(self.issue()) ==> catalog_message(self.issue(), Seq::empty()).is_prefix_of(
                r@,
            ),
            !has_detail(self.issue()) ==> r@ == catalog_message(self.issue(), Seq::empty()),
    {
        let mut r: String;
        match self {
            CatalogError::ReadManifest { path, source } => {
                r = owned("could not read catalog manifest ");
                append_str(&mut r, path.as_str());
                append_str(&mut r, ": ");
                let ghost head = r@;
                append_str(&mut r, io_error_text(source).as_str());
                assert(head == r@.subrange(0, head.len() as int));
            },
            CatalogError::Parse(error) => {
                r = owned("catalog manifest is invalid: ");
                let ghost head = r@;
                append_str(&mut r, toml_error_text(error).as_str());
                assert(head == r@.subrange(0, head.len() as int));
            },
            CatalogError::SchemaVersion { found } => {
                r = owned("unsupported catalog schema version ");
                append_str(&mut r, decimal_string(*found as u64).as_str());
                append_str(&mut r, "; this build supports version 1");
            },
            CatalogError::DuplicateCategory(id) => {
                r = owned("duplicate category ID ");
                append_quoted(&mut r, id.as_str());
            },
            CatalogError::DuplicateAction(id) => {
                r = owned("duplicate action ID ");
                append_quoted(&mut r, id.as_str());
            },
            CatalogError::UnknownCategory { action, category } => {
                r = owned("action ");
                append_quoted(&mut r, action.as_str());
                append_str(&mut r, " refers to unknown category ");
                append_quoted(&mut r, category.as_str());
            },
            CatalogError::UnsafeScriptPath { action, path } => {
                r = owned("action ");
                append_quoted(&mut r, action.as_str());
                append_str(&mut r, " has unsafe script path ");
                append_quoted(&mut r, path.as_str());
            },
            CatalogError::MissingScript { action, path } => {
                r = owned("action ");
                append_quoted(&mut r, action.as_str());
                append_str(&mut r, " refers to missing script ");
                append_quoted(&mut r, path.as_str());
            },
            CatalogError::InterpreterMismatch { action, declared, shebang } => {
                r = owned("action ");
                append_quoted(&mut r, action.as_str());
                append_str(&mut r, " declares interpreter ");
                append_quoted(&mut r, declared.as_str());
                append_str(&mut r, " but script shebang uses ");
                append_quoted(&mut r, shebang.as_str());
            },
            CatalogError::InvalidExecutable { action, executable } => {
                r = owned("action ");
                append_quoted(&mut r, action.as_str());
                append_str(&mut r, " has an invalid executable requirement ");
                append_quoted(&mut r, executable.as_str());
            },
        }
        r
    }
}

impl ResolveError {
    /// The user-facing description of the error; for the two errors caused by
    /// an I/O failure, the text of that failure follows the prefix stated here.
    pub fn message(&self) -> (r: String)
        ensures
            match self {
                ResolveError::UnknownAction(id) => r@ == "action "@ + quoted(id@) + " does not exist"@,
                ResolveError::Unavailable { action, reasons } => r@ == "action "@ + quoted(action@)
                    + " is unavailable: "@ + reasons@,
                ResolveError::CreateTemp { action, .. } => ("could not create a temporary directory for action "@
                    + quoted(action@) + ": "@).is_prefix_of(r@),
                ResolveError::MissingAsset { action, path } => r@ == "bundled asset "@ + quoted(path@)
                    + " for action "@ + quoted(action@) + " is missing"@,
                ResolveError::Extract { action, path, .. } => ("could not extract asset "@ + quoted(path@)
                    + " for action "@ + quoted(action@) + ": "@).is_prefix_of(r@),
                ResolveError::InterpreterDisappeared { action, program } => r@ == "interpreter "@
                    + quoted(program@) + " for action "@ + quoted(action@) + " disappeared from PATH"@,
            },
    {
        let mut r: String;
        match self {
            ResolveError::UnknownAction(id) => {
                r = owned("action ");
                append_quoted(&mut r, id.as_str());
                append_str(&mut r, " does not exist");
            },
            ResolveError::Unavailable { action, reasons } => {
                r = owned("action ");
                append_quoted(&mut r, action.as_str());
                append_str(&mut r, " is unavailable: ");
                append_str(&mut r, reasons.as_str());
            },
            ResolveError::CreateTemp { action, source } => {
                r = owned("could not create a temporary directory for action ");
                append_quoted(&mut r, action.as_str());
                append_str(&mut r, ": ");
                let ghost head = r@;
                append_str(&mut r, io_error_text(source).as_str());
                assert(head == r@.subrange(0, head.len() as int));
            },
            ResolveError::MissingAsset { action, path } => {
                r = owned("bundled asset ");
                append_quoted(&mut r, path.as_str());
                append_str(&mut r, " for action ");
                append_quoted(&mut r, action.as_str());
                append_str(&mut r, " is missing");
            },
            ResolveError::Extract { action, path, source } => {
                r = owned("could not extract asset ");
                append_quoted(&mut r, path.as_str());
                append_str(&mut r, " for action ");
                append_quoted(&mut r, action.as_str());
                append_str(&mut r, ": ");
                let ghost head = r@;
                append_str(&mut r, io_error_text(source).as_str());
                assert(head == r@.subrange(0, head.len() as int));
            },
            ResolveError::InterpreterDisappeared { action, program } => {
                r = owned("interpreter ");
                append_quoted(&mut r, program.as_str());
                append_str(&mut r, " for action ");
                append_quoted(&mut r, action.as_str());
                append_str(&mut r, " disappeared from PATH");
            },
        }
        r
    }
}

impl StartError {
    /// The user-facing description of the error; when the monitor thread could
    /// not start, the text of the I/O failure follows the prefix stated here.
    pub fn message(&self) -> (r: String)
        ensures
            match self {
                StartError::Allocate(detail) => r@ == "could not allocate a pseudo-terminal: "@ + detail@,
                StartError::OpenReader(detail) => r@ == "could not open the pseudo-terminal output stream: "@
                    + detail@,
                StartError::OpenWriter(detail) => r@ == "could not open the pseudo-terminal input stream: "@
                    + detail@,
                StartError::Spawn { action, message } => r@ == "could not launch action "@ + quoted(action@)
                    + ": "@ + message@,
                StartError::Monitor(_) => "could not start the action output monitor: "@.is_prefix_of(r@),
            },
    {
        let mut r: String;
        match self {
            StartError::Allocate(detail) => {
                r = owned("could not allocate a pseudo-terminal: ");
                append_str(&mut r, detail.as_str());
            },
            StartError::OpenReader(detail) => {
                r = owned("could not open the pseudo-terminal output stream: ");
                append_str(&mut r, detail.as_str());
            },
            StartError::OpenWriter(detail) => {
                r = owned("could not open the pseudo-terminal input stream: ");
                append_str(&mut r, detail.as_str());
            },
            StartError::Spawn { action, message } => {
                r = owned("could not launch action ");
                append_quoted(&mut r, action.as_str());
                append_str(&mut r, ": ");
                append_str(&mut r, message.as_str());
            },
            StartError::Monitor(error) => {
                r = owned("could not start the action output monitor: ");
                let ghost head = r@;
                append_str(&mut r, io_error_text(error).as_str());
                assert(head == r@.subrange(0, head.len() as int));
            },
        }
        r
    }
}

impl TuiError {
    /// The user-facing description of the error; for a terminal failure the
    /// text of the I/O failure follows the prefix stated here.
    pub fn message(&self) -> (r: String)
        ensures
            match self {
                TuiError::NoTerminal => r@ == "interactive mode requires a terminal on standard input and output"@,
                TuiError::Terminal(_) => "terminal error: "@.is_prefix_of(r@),
            },
    {
        match self {
            TuiError::NoTerminal => owned("interactive mode requires a terminal on standard input and output"),
            TuiError::Terminal(error) => {
                let mut r = owned("terminal error: ");
                let ghost head = r@;
                append_str(&mut r, io_error_text(error).as_str());
                assert(head == r@.subrange(0, head.len() as int));
                r
            },
        }
    }
}

/// Where a catalog was loaded from, as reported to users.
pub open spec fn location(source: CatalogSource) -> Seq<char> {
    match source {
        CatalogSource::Embedded => "embedded"@,
        CatalogSource::Local(path) => path@,
    }
}

/// The report of a catalog that passed validation.
pub open spec fn validity_line(catalog: Catalog, source: CatalogSource) -> Seq<char> {
    "catalog is valid: "@ + decimal(catalog.categories@.len()) + " categories, "@ + decimal(
        catalog.actions@.len(),
    ) + " actions ("@ + location(source) + ")"@
}

/// The line that reports a catalog as valid: its numbers of categories and
/// actions, and where it was loaded from.
pub fn validity_summary(catalog: &Catalog, source: &CatalogSource) -> (r: String)
    ensures
        r@ == validity_line(*catalog, *source),
{
    let mut r = owned("catalog is valid: ");
    append_str(&mut r, decimal_string(catalog.categories.len() as u64).as_str());
    append_str(&mut r, " categories, ");
    append_str(&mut r, decimal_string(catalog.actions.len() as u64).as_str());
    append_str(&mut r, " actions (");
    match source {
        CatalogSource::Embedded => append_str(&mut r, "embedded"),
        CatalogSource::Local(path) => append_str(&mut r, path.as_str()),
    }
    append_str(&mut r, ")");
    r
}

} // verus!
