//! Turning a catalog action into a command line for the host.
use vstd::prelude::*;

use crate::catalog::{ActionDefinition, ActionId, Catalog};
use crate::host::{availability, joined, possible_reasons, reason_texts, texts, join_strings, Availability, Host};
use crate::paths::{join, join_path, parent, parent_path};

verus! {

/// Why an action could not be turned into a command.
#[derive(Debug)]
pub enum ResolveError {
    UnknownAction(ActionId),
    Unavailable { action: ActionId, reasons: String },
    CreateTemp { action: ActionId, source: std::io::Error },
    MissingAsset { action: ActionId, path: String },
    Extract { action: ActionId, path: String, source: std::io::Error },
    InterpreterDisappeared { action: ActionId, program: String },
}

/// The interpreter, argument vector and working directory for one action,
/// with the directory its catalog files were extracted to.
#[derive(Debug)]
pub struct ResolvedCommand {
    pub action_id: ActionId,
    pub program: String,
    pub args: Vec<String>,
    pub working_directory: String,
    pub assets_root: String,
}

impl ResolvedCommand {
    /// The directory holding the extracted catalog files.
    pub fn assets_root(&self) -> (r: &str)
        ensures
            r@ == self.assets_root@,
    {
        self.assets_root.as_str()
    }
}

/// Index of the first action whose ID is `id`, if any.
pub open spec fn action_index(actions: Seq<ActionDefinition>, id: Seq<char>) -> Option<int> {
    if exists|k: int| 0 <= k < actions.len() && #[trigger] actions[k].id@ == id {
        let k = choose|k: int|
            0 <= k < actions.len() && #[trigger] actions[k].id@ == id && forall|j: int|
                0 <= j < k ==> actions[j].id@ != id;
        Some(k)
    } else {
        None
    }
}

proof fn lemma_action_index(actions: Seq<ActionDefinition>, id: Seq<char>, k: int)
    requires
        0 <= k < actions.len(),
        actions[k].id@ == id,
        forall|j: int| 0 <= j < k ==> actions[j].id@ != id,
    ensures
        action_index(actions, id) == Some(k),
{
    let c = choose|c: int|
        0 <= c < actions.len() && #[trigger] actions[c].id@ == id && forall|j: int|
            0 <= j < c ==> actions[j].id@ != id;
    if c < k {
        assert(actions[c].id@ != id);
    } else if c > k {
        assert(actions[k].id@ != id);
    }
}

/// The first action of the catalog with the given ID.
pub fn find_action<'a>(catalog: &'a Catalog, id: &ActionId) -> (r: Option<&'a ActionDefinition>)
    ensures
        match r {
            Some(a) => exists|k: int|
                action_index(catalog.actions@, id@) == Some(k) && *a == catalog.actions@[k],
            None => action_index(catalog.actions@, id@) is None,
        },
{
    let mut k: usize = 0;
    while k < catalog.actions.len()
        invariant
            k <= catalog.actions@.len(),
            forall|j: int| 0 <= j < k ==> catalog.actions@[j].id@ != id@,
        decreases catalog.actions@.len() - k,
    {
        if catalog.actions[k].id.same_as(id) {
            proof {
                lemma_action_index(catalog.actions@, id@, k as int);
            }
            return Some(&catalog.actions[k]);
        }
        k = k + 1;
    }
    None
}

/// Finds the action and checks, immediately before it is launched, that it can
/// run on the host.
pub fn select_action<'a, F: Fn(&str) -> bool>(
    catalog: &'a Catalog,
    id: &ActionId,
    host: &Host,
    is_executable: &F,
) -> (r: Result<&'a ActionDefinition, ResolveError>)
    requires
        forall|s: &str| call_requires(*is_executable, (s,)),
    ensures
        match r {
            Ok(a) => {
                &&& exists|k: int|
                    action_index(catalog.actions@, id@) == Some(k) && *a == catalog.actions@[k]
                &&& possible_reasons(*a, *host, *is_executable, Seq::empty())
            },
            Err(ResolveError::UnknownAction(x)) => {
                &&& x@ == id@
                &&& action_index(catalog.actions@, id@) is None
            },
            Err(ResolveError::Unavailable { action, reasons }) => {
                &&& action@ == id@
                &&& exists|k: int, why: Seq<Seq<char>>|
                    {
                        &&& action_index(catalog.actions@, id@) == Some(k)
                        &&& possible_reasons(catalog.actions@[k], *host, *is_executable, why)
                        &&& why.len() > 0
                        &&& reasons@ == joined(why, "; "@)
                    }
            },
            Err(_) => false,
        },
{
    let action = match find_action(catalog, id) {
        Some(a) => a,
        None => {
            return Err(ResolveError::UnknownAction(id.duplicate()));
        },
    };
    match availability(action, host, is_executable) {
        Availability::Available => Ok(action),
        Availability::Unavailable { reasons } => {
            let text = join_strings(&reasons, "; ");
            Err(ResolveError::Unavailable { action: id.duplicate(), reasons: text })
        },
    }
}

/// The command line that runs `action` from catalog files extracted under
/// `assets_root`: the interpreter found on the host, the interpreter's own
/// arguments followed by the extracted script path, and the script's directory
/// as working directory.
pub fn command_for<F: Fn(&str) -> bool>(
    action: &ActionDefinition,
    host: &Host,
    is_executable: &F,
    assets_root: &str,
) -> (r: Result<ResolvedCommand, ResolveError>)
    requires
        forall|s: &str| call_requires(*is_executable, (s,)),
        parent_path(join_path(assets_root@, action.script@)) is Some,
    ensures
        match r {
            Ok(command) => {
                let script = join_path(assets_root@, action.script@);
                &&& command.action_id@ == action.id@
                &&& crate::host::resolution(
                    *host,
                    action.interpreter.program@,
                    *is_executable,
                    Some(command.program@),
                )
                &&& texts(command.args@) == texts(action.interpreter.args@).push(script)
                &&& Some(command.working_directory@) == parent_path(script)
                &&& command.assets_root@ == assets_root@
            },
            Err(ResolveError::InterpreterDisappeared { action: a, program }) => {
                &&& a@ == action.id@
                &&& program@ == action.interpreter.program@
                &&& crate::host::resolution(
                    *host,
                    action.interpreter.program@,
                    *is_executable,
                    None,
                )
            },
            Err(_) => false,
        },
{
    let program = match host.resolve_executable(action.interpreter.program.as_str(), is_executable) {
        Some(p) => p,
        None => {
            return Err(
                ResolveError::InterpreterDisappeared {
                    action: action.id.duplicate(),
                    program: action.interpreter.program.clone(),
                },
            );
        },
    };
    let script = join(assets_root, action.script.as_str());
    let working_directory = match parent(script.as_str()) {
        Some(p) => p,
        None => {
            assert(false);
            String::new()
        },
    };
    let mut args = action.interpreter.args.clone();
    let ghost before = args@;
    args.push(script);
    proof {
        assert(texts(before) =~= texts(action.interpreter.args@));
        assert(texts(args@) =~= texts(before).push(join_path(assets_root@, action.script@)));
    }
    Ok(
        ResolvedCommand {
            action_id: action.id.duplicate(),
            program,
            args,
            working_directory,
            assets_root: String::from_str(assets_root),
        },
    )
}

} // verus!
