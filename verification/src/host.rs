//! Host capabilities and the availability of actions on a host.
use vstd::prelude::*;

use crate::catalog::ActionDefinition;
use crate::paths::{join, join_path};
use crate::text::{append_str, chars_of, has_char, same_text};

verus! {

/// The operating system, architecture and executable search path of a host.
#[derive(Clone, Debug, PartialEq, Eq)]
pub struct Host {
    pub os: String,
    pub arch: String,
    pub path: Vec<String>,
}

/// The canonical spelling of an operating-system name.
pub open spec fn normalized_os(value: Seq<char>) -> Seq<char> {
    if value == "darwin"@ || value == "macos"@ {
        "macos"@
    } else {
        value
    }
}

/// The canonical spelling of an architecture name.
pub open spec fn normalized_arch(value: Seq<char>) -> Seq<char> {
    if value == "amd64"@ || value == "x86-64"@ || value == "x64"@ {
        "x86_64"@
    } else if value == "arm64"@ {
        "aarch64"@
    } else {
        value
    }
}

pub fn normalize_os<'a>(value: &'a str) -> (r: &'a str)
    ensures
        r@ == normalized_os(value@),
{
    if same_text(value, "darwin") || same_text(value, "macos") {
        "macos"
    } else {
        value
    }
}

pub fn normalize_arch<'a>(value: &'a str) -> (r: &'a str)
    ensures
        r@ == normalized_arch(value@),
{
    if same_text(value, "amd64") || same_text(value, "x86-64") || same_text(value, "x64") {
        "x86_64"
    } else if same_text(value, "arm64") {
        "aarch64"
    } else {
        value
    }
}

/// The paths at which `name` is looked for: `name` itself when it contains a
/// `/`, otherwise `name` in each search directory, in order.
pub open spec fn candidates(host: Host, name: Seq<char>) -> Seq<Seq<char>> {
    if name.contains('/') {
        seq![name]
    } else {
        Seq::new(host.path@.len(), |i: int| join_path(host.path@[i]@, name))
    }
}

/// The probe was called on `path` and gave `answer`.
pub open spec fn answered<F: Fn(&str) -> bool>(probe: F, path: Seq<char>, answer: bool) -> bool {
    exists|s: &str| s@ == path && #[trigger] call_ensures(probe, (s,), answer)
}

/// `found` is what looking `name` up on the host gives when the probe tells
/// which paths are executable: the first candidate it accepted, after
/// rejecting all earlier ones, or nothing when it rejected every candidate.
pub open spec fn resolution<F: Fn(&str) -> bool>(
    host: Host,
    name: Seq<char>,
    probe: F,
    found: Option<Seq<char>>,
) -> bool {
    let c = candidates(host, name);
    match found {
        Some(p) => exists|k: int|
            #![trigger c[k]]
            0 <= k < c.len() && c[k] == p && answered(probe, c[k], true) && forall|j: int|
                0 <= j < k ==> answered(probe, #[trigger] c[j], false),
        None => forall|j: int| 0 <= j < c.len() ==> answered(probe, #[trigger] c[j], false),
    }
}

impl Host {
    /// A host description with the operating system and architecture names normalized.
    pub fn new(os: &str, arch: &str, path: Vec<String>) -> (r: Host)
        ensures
            r.os@ == normalized_os(os@),
            r.arch@ == normalized_arch(arch@),
            r.path@ == path@,
    {
        Host {
            os: String::from_str(normalize_os(os)),
            arch: String::from_str(normalize_arch(arch)),
            path,
        }
    }

    /// Finds `name` as the probe sees the file system: `name` itself when it
    /// contains a `/`, otherwise the first search directory holding it.
    pub fn resolve_executable<F: Fn(&str) -> bool>(&self, name: &str, is_executable: &F) -> (r:
        Option<String>)
        requires
            forall|s: &str| call_requires(*is_executable, (s,)),
        ensures
            match r {
                Some(p) => resolution(*self, name@, *is_executable, Some(p@)),
                None => resolution(*self, name@, *is_executable, None),
            },
    {
        let ghost c = candidates(*self, name@);
        let cs = chars_of(name);
        if has_char(&cs, '/') {
            let ok = is_executable(name);
            assert(c[0] == name@);
            if ok {
                return Some(String::from_str(name));
            } else {
                assert(answered(*is_executable, c[0], false));
                return None;
            }
        }
        let mut i: usize = 0;
        while i < self.path.len()
            invariant
                c == candidates(*self, name@),
                !name@.contains('/'),
                i <= self.path@.len(),
                forall|s: &str| call_requires(*is_executable, (s,)),
                forall|j: int| 0 <= j < i ==> answered(*is_executable, #[trigger] c[j], false),
            decreases self.path@.len() - i,
        {
            let candidate = join(self.path[i].as_str(), name);
            let ok = is_executable(candidate.as_str());
            assert(c[i as int] == candidate@);
            if ok {
                assert(answered(*is_executable, c[i as int], true));
                return Some(candidate);
            }
            assert(answered(*is_executable, c[i as int], false));
            i = i + 1;
        }
        None
    }
}

} // verus!

verus! {

/// Whether an action can run on a host, with the reasons when it cannot.
#[derive(Clone, Debug, PartialEq, Eq)]
pub enum Availability {
    Available,
    Unavailable { reasons: Vec<String> },
}

pub open spec fn texts(v: Seq<String>) -> Seq<Seq<char>> {
    v.map_values(|s: String| s@)
}

/// `items` separated by `sep`.
pub open spec fn joined(items: Seq<Seq<char>>, sep: Seq<char>) -> Seq<char>
    decreases items.len(),
{
    if items.len() == 0 {
        Seq::empty()
    } else if items.len() == 1 {
        items[0]
    } else {
        joined(items.drop_last(), sep) + sep + items.last()
    }
}

/// The reasons, in order, as plain text; none when the action is available.
pub open spec fn reason_texts(a: Availability) -> Seq<Seq<char>> {
    match a {
        Availability::Available => Seq::empty(),
        Availability::Unavailable { reasons } => texts(reasons@),
    }
}

pub open spec fn os_supported(action: ActionDefinition, host: Host) -> bool {
    let os = action.requirements.os@;
    os.len() == 0 || exists|i: int| 0 <= i < os.len() && normalized_os(#[trigger] os[i]@) == host.os@
}

pub open spec fn arch_supported(action: ActionDefinition, host: Host) -> bool {
    let arch = action.requirements.arch@;
    arch.len() == 0 || exists|i: int|
        0 <= i < arch.len() && normalized_arch(#[trigger] arch[i]@) == host.arch@
}

pub open spec fn missing_executable_message(name: Seq<char>) -> Seq<char> {
    "required executable `"@ + name + "` was not found on PATH"@
}

/// One reason for each of the first `n` required executables that was not found.
pub open spec fn executable_reasons(executables: Seq<String>, found: Seq<bool>, n: int) -> Seq<
    Seq<char>,
>
    decreases n,
{
    if n <= 0 {
        Seq::empty()
    } else if !found[n - 1] {
        executable_reasons(executables, found, n - 1).push(
            missing_executable_message(executables[n - 1]@),
        )
    } else {
        executable_reasons(executables, found, n - 1)
    }
}

/// Why an action cannot run: unsupported OS, unsupported architecture, a
/// missing interpreter, then each missing executable, in that order.
pub open spec fn unavailability_reasons(
    action: ActionDefinition,
    host: Host,
    interpreter_found: bool,
    executables_found: Seq<bool>,
) -> Seq<Seq<char>> {
    let os = if os_supported(action, host) {
        Seq::empty()
    } else {
        seq!["requires OS: "@ + joined(texts(action.requirements.os@), ", "@)]
    };
    let arch = if arch_supported(action, host) {
        Seq::empty()
    } else {
        seq!["requires architecture: "@ + joined(texts(action.requirements.arch@), ", "@)]
    };
    let interpreter = if interpreter_found {
        Seq::empty()
    } else {
        seq!["interpreter `"@ + action.interpreter.program@ + "` was not found on PATH"@]
    };
    os + arch + interpreter + executable_reasons(
        action.requirements.executables@,
        executables_found,
        action.requirements.executables@.len() as int,
    )
}

/// Lookup of `name` succeeded (`found`) or failed, as the probe answered.
pub open spec fn lookup<F: Fn(&str) -> bool>(host: Host, name: Seq<char>, probe: F, found: bool) -> bool {
    if found {
        exists|p: Seq<char>| resolution(host, name, probe, Some(p))
    } else {
        resolution(host, name, probe, None)
    }
}

impl Availability {
    pub fn is_available(&self) -> (r: bool)
        ensures
            r == (*self is Available),
    {
        match self {
            Availability::Available => true,
            _ => false,
        }
    }
}

pub fn join_strings(items: &Vec<String>, sep: &str) -> (r: String)
    ensures
        r@ == joined(texts(items@), sep@),
{
    let mut r = String::new();
    let mut i: usize = 0;
    while i < items.len()
        invariant
            i <= items@.len(),
            r@ == joined(texts(items@.take(i as int)), sep@),
        decreases items@.len() - i,
    {
        let ghost before = r@;
        if i > 0 {
            append_str(&mut r, sep);
        }
        append_str(&mut r, items[i].as_str());
        proof {
            let t = texts(items@.take(i + 1));
            assert(t.drop_last() =~= texts(items@.take(i as int)));
            assert(t.last() == items@[i as int]@);
            if i == 0 {
                assert(t =~= seq![items@[0]@]);
            }
        }
        i = i + 1;
    }
    assert(items@.take(items@.len() as int) =~= items@);
    r
}

fn text_message(prefix: &str, middle: &str, suffix: &str) -> (r: String)
    ensures
        r@ == prefix@ + middle@ + suffix@,
{
    let mut r = String::from_str(prefix);
    append_str(&mut r, middle);
    append_str(&mut r, suffix);
    r
}

fn supports_os(action: &ActionDefinition, host: &Host) -> (r: bool)
    ensures
        r == os_supported(*action, *host),
{
    let os = &action.requirements.os;
    if os.len() == 0 {
        return true;
    }
    let mut i: usize = 0;
    while i < os.len()
        invariant
            os == &action.requirements.os,
            i <= os@.len(),
            forall|j: int| 0 <= j < i ==> normalized_os(#[trigger] os@[j]@) != host.os@,
        decreases os@.len() - i,
    {
        if same_text(normalize_os(os[i].as_str()), host.os.as_str()) {
            return true;
        }
        i = i + 1;
    }
    false
}

fn supports_arch(action: &ActionDefinition, host: &Host) -> (r: bool)
    ensures
        r == arch_supported(*action, *host),
{
    let arch = &action.requirements.arch;
    if arch.len() == 0 {
        return true;
    }
    let mut i: usize = 0;
    while i < arch.len()
        invariant
            arch == &action.requirements.arch,
            i <= arch@.len(),
            forall|j: int| 0 <= j < i ==> normalized_arch(#[trigger] arch@[j]@) != host.arch@,
        decreases arch@.len() - i,
    {
        if same_text(normalize_arch(arch[i].as_str()), host.arch.as_str()) {
            return true;
        }
        i = i + 1;
    }
    false
}

/// Availability of `action` once it is known whether its interpreter and each
/// required executable were found.
pub fn availability_given(
    action: &ActionDefinition,
    host: &Host,
    interpreter_found: bool,
    executables_found: &Vec<bool>,
) -> (r: Availability)
    requires
        executables_found@.len() == action.requirements.executables@.len(),
    ensures
        reason_texts(r) == unavailability_reasons(
            *action,
            *host,
            interpreter_found,
            executables_found@,
        ),
        r is Available <==> unavailability_reasons(
            *action,
            *host,
            interpreter_found,
            executables_found@,
        ).len() == 0,
{
    let mut reasons: Vec<String> = Vec::new();
    let ghost a = *action;
    if !supports_os(action, host) {
        let list = join_strings(&action.requirements.os, ", ");
        let mut m = String::from_str("requires OS: ");
        append_str(&mut m, list.as_str());
        reasons.push(m);
    }
    assert(texts(reasons@) =~= (if os_supported(a, *host) {
        Seq::<Seq<char>>::empty()
    } else {
        seq!["requires OS: "@ + joined(texts(a.requirements.os@), ", "@)]
    }));
    let ghost after_os = texts(reasons@);
    if !supports_arch(action, host) {
        let list = join_strings(&action.requirements.arch, ", ");
        let mut m = String::from_str("requires architecture: ");
        append_str(&mut m, list.as_str());
        reasons.push(m);
    }
    assert(texts(reasons@) =~= after_os + (if arch_supported(a, *host) {
        Seq::<Seq<char>>::empty()
    } else {
        seq!["requires architecture: "@ + joined(texts(a.requirements.arch@), ", "@)]
    }));
    let ghost after_arch = texts(reasons@);
    if !interpreter_found {
        reasons.push(
            text_message("interpreter `", action.interpreter.program.as_str(), "` was not found on PATH"),
        );
    }
    assert(texts(reasons@) =~= after_arch + (if interpreter_found {
        Seq::<Seq<char>>::empty()
    } else {
        seq!["interpreter `"@ + a.interpreter.program@ + "` was not found on PATH"@]
    }));
    let ghost head = texts(reasons@);
    let executables = &action.requirements.executables;
    let mut k: usize = 0;
    while k < executables.len()
        invariant
            executables == &action.requirements.executables,
            executables_found@.len() == executables@.len(),
            k <= executables@.len(),
            texts(reasons@) == head + executable_reasons(executables@, executables_found@, k as int),
        decreases executables@.len() - k,
    {
        if !executables_found[k] {
            let ghost before = reasons@;
            reasons.push(
                text_message("required executable `", executables[k].as_str(), "` was not found on PATH"),
            );
            assert(texts(reasons@) =~= texts(before).push(missing_executable_message(executables@[k as int]@)));
        }
        k = k + 1;
    }
    proof {
        assert(texts(reasons@) =~= unavailability_reasons(a, *host, interpreter_found, executables_found@));
    }
    if reasons.len() == 0 {
        Availability::Available
    } else {
        Availability::Unavailable { reasons }
    }
}

} // verus!

verus! {

/// `reasons` are the unavailability reasons for some outcome of looking the
/// interpreter and each required executable up with `probe`.
pub open spec fn possible_reasons<F: Fn(&str) -> bool>(
    action: ActionDefinition,
    host: Host,
    probe: F,
    reasons: Seq<Seq<char>>,
) -> bool {
    exists|interpreter_found: bool, executables_found: Seq<bool>|
        {
            &&& executables_found.len() == action.requirements.executables@.len()
            &&& lookup(host, action.interpreter.program@, probe, interpreter_found)
            &&& forall|k: int|
                0 <= k < executables_found.len() ==> lookup(
                    host,
                    action.requirements.executables@[k]@,
                    probe,
                    #[trigger] executables_found[k],
                )
            &&& reasons == unavailability_reasons(action, host, interpreter_found, executables_found)
        }
}

/// Whether `action` can run on `host`, looking its interpreter and required
/// executables up with `is_executable`.
///
/// The reasons are those of `unavailability_reasons` for the lookup results
/// that the probe's answers gave.
pub fn availability<F: Fn(&str) -> bool>(action: &ActionDefinition, host: &Host, is_executable: &F) -> (r:
    Availability)
    requires
        forall|s: &str| call_requires(*is_executable, (s,)),
    ensures
        possible_reasons(*action, *host, *is_executable, reason_texts(r)),
        r is Available <==> reason_texts(r).len() == 0,
{
    let interpreter = host.resolve_executable(action.interpreter.program.as_str(), is_executable);
    let interpreter_found = interpreter.is_some();
    let executables = &action.requirements.executables;
    let mut found: Vec<bool> = Vec::new();
    let mut k: usize = 0;
    while k < executables.len()
        invariant
            executables == &action.requirements.executables,
            k <= executables@.len(),
            found@.len() == k,
            forall|s: &str| call_requires(*is_executable, (s,)),
            forall|j: int|
                0 <= j < k ==> lookup(*host, executables@[j]@, *is_executable, #[trigger] found@[j]),
        decreases executables@.len() - k,
    {
        let hit = host.resolve_executable(executables[k].as_str(), is_executable);
        proof {
            if let Some(ref p) = hit {
                assert(resolution(*host, executables@[k as int]@, *is_executable, Some(p@)));
            }
        }
        found.push(hit.is_some());
        k = k + 1;
    }
    proof {
        if let Some(ref p) = interpreter {
            assert(resolution(*host, action.interpreter.program@, *is_executable, Some(p@)));
        }
    }
    let r = availability_given(action, host, interpreter_found, &found);
    assert(lookup(*host, action.interpreter.program@, *is_executable, interpreter_found));
    assert(possible_reasons(*action, *host, *is_executable, reason_texts(r)));
    r
}

} // verus!

verus! {

/// Normalizing a name twice gives what normalizing it once gives.
pub proof fn lemma_normalize_idempotent(value: Seq<char>)
    ensures
        normalized_os(normalized_os(value)) == normalized_os(value),
        normalized_arch(normalized_arch(value)) == normalized_arch(value),
{
    reveal_strlit("macos");
    reveal_strlit("darwin");
    reveal_strlit("x86_64");
    reveal_strlit("aarch64");
    reveal_strlit("amd64");
    reveal_strlit("x86-64");
    reveal_strlit("x64");
    reveal_strlit("arm64");
    assert("aarch64"@ != "amd64"@) by {
        assert("aarch64"@.len() != "amd64"@.len());
    }
    assert("aarch64"@ != "x86-64"@) by {
        assert("aarch64"@[1] != "x86-64"@[1]);
    }
    assert("aarch64"@ != "x64"@) by {
        assert("aarch64"@.len() != "x64"@.len());
    }
    assert("aarch64"@ != "arm64"@) by {
        assert("aarch64"@.len() != "arm64"@.len());
    }
    assert("x86_64"@ != "arm64"@) by {
        assert("x86_64"@.len() != "arm64"@.len());
    }
}

/// The number of executables among the first `n` that were not found.
pub open spec fn missing_count(found: Seq<bool>, n: int) -> int
    decreases n,
{
    if n <= 0 {
        0
    } else {
        missing_count(found, n - 1) + if found[n - 1] {
            0int
        } else {
            1int
        }
    }
}

proof fn lemma_executable_reasons_len(executables: Seq<String>, found: Seq<bool>, n: int)
    requires
        0 <= n <= found.len(),
    ensures
        executable_reasons(executables, found, n).len() == missing_count(found, n),
        missing_count(found, n) == 0 <==> forall|k: int| 0 <= k < n ==> #[trigger] found[k],
    decreases n,
{
    if n > 0 {
        lemma_executable_reasons_len(executables, found, n - 1);
        if !found[n - 1] {
            assert(!found[n - 1]);
        }
    }
}

/// Every unmet requirement gives exactly one reason, so an action is
/// available exactly when its OS and architecture are supported and its
/// interpreter and every required executable were found.
pub proof fn lemma_one_reason_per_unmet_requirement(
    action: ActionDefinition,
    host: Host,
    interpreter_found: bool,
    executables_found: Seq<bool>,
)
    requires
        executables_found.len() == action.requirements.executables@.len(),
    ensures
        unavailability_reasons(action, host, interpreter_found, executables_found).len() == (if os_supported(action, host) {
            0int
        } else {
            1int
        }) + (if arch_supported(action, host) {
            0int
        } else {
            1int
        }) + (if interpreter_found {
            0int
        } else {
            1int
        }) + missing_count(executables_found, executables_found.len() as int),
        unavailability_reasons(action, host, interpreter_found, executables_found).len() == 0 <==> (
        os_supported(action, host) && arch_supported(action, host) && interpreter_found && forall|
            k: int,
        |
            0 <= k < executables_found.len() ==> #[trigger] executables_found[k]),
{
    lemma_executable_reasons_len(
        action.requirements.executables@,
        executables_found,
        executables_found.len() as int,
    );
}

/// The first candidate that `accepts` holds for, starting from position `i`.
pub open spec fn first_accepted(c: Seq<Seq<char>>, accepts: spec_fn(Seq<char>) -> bool, i: int) -> Option<
    Seq<char>,
>
    decreases c.len() - i,
{
    if i < 0 || i >= c.len() {
        None
    } else if accepts(c[i]) {
        Some(c[i])
    } else {
        first_accepted(c, accepts, i + 1)
    }
}

proof fn lemma_first_accepted(c: Seq<Seq<char>>, accepts: spec_fn(Seq<char>) -> bool, i: int, k: int)
    requires
        0 <= i <= k < c.len(),
        accepts(c[k]),
        forall|j: int| i <= j < k ==> !accepts(#[trigger] c[j]),
    ensures
        first_accepted(c, accepts, i) == Some(c[k]),
    decreases k - i,
{
    if i < k {
        lemma_first_accepted(c, accepts, i + 1, k);
    }
}

proof fn lemma_none_accepted(c: Seq<Seq<char>>, accepts: spec_fn(Seq<char>) -> bool, i: int)
    requires
        0 <= i <= c.len(),
        forall|j: int| i <= j < c.len() ==> !accepts(#[trigger] c[j]),
    ensures
        first_accepted(c, accepts, i) is None,
    decreases c.len() - i,
{
    if i < c.len() {
        lemma_none_accepted(c, accepts, i + 1);
    }
}

/// When the probe answers according to a fixed predicate, looking a name up
/// gives the first candidate path that the predicate accepts.
pub proof fn lemma_lookup_finds_first_executable<F: Fn(&str) -> bool>(
    host: Host,
    name: Seq<char>,
    probe: F,
    executable: spec_fn(Seq<char>) -> bool,
    found: Option<Seq<char>>,
)
    requires
        forall|s: &str, answer: bool| call_ensures(probe, (s,), answer) ==> answer == executable(s@),
        resolution(host, name, probe, found),
    ensures
        found == first_accepted(candidates(host, name), executable, 0),
{
    let c = candidates(host, name);
    match found {
        Some(p) => {
            let k = choose|k: int|
                #![trigger c[k]]
                0 <= k < c.len() && c[k] == p && answered(probe, c[k], true) && forall|j: int|
                    0 <= j < k ==> answered(probe, #[trigger] c[j], false);
            assert forall|j: int| 0 <= j < k implies !executable(#[trigger] c[j]) by {
                assert(answered(probe, c[j], false));
            }
            lemma_first_accepted(c, executable, 0, k);
        },
        None => {
            assert forall|j: int| 0 <= j < c.len() implies !executable(#[trigger] c[j]) by {
                assert(answered(probe, c[j], false));
            }
            lemma_none_accepted(c, executable, 0);
        },
    }
}


proof fn lemma_executable_reasons_are_missing(executables: Seq<String>, found: Seq<bool>, n: int)
    requires
        0 <= n <= found.len(),
        n <= executables.len(),
    ensures
        forall|j: int|
            0 <= j < executable_reasons(executables, found, n).len() ==> exists|m: int|
                0 <= m < n && #[trigger] executable_reasons(executables, found, n)[j]
                    == missing_executable_message(executables[m]@),
    decreases n,
{
    if n > 0 {
        lemma_executable_reasons_are_missing(executables, found, n - 1);
        let prev = executable_reasons(executables, found, n - 1);
        assert forall|j: int|
            0 <= j < executable_reasons(executables, found, n).len() implies exists|m: int|
                0 <= m < n && #[trigger] executable_reasons(executables, found, n)[j]
                    == missing_executable_message(executables[m]@) by {
            if j < prev.len() {
                assert(executable_reasons(executables, found, n)[j] == prev[j]);
                let m = choose|m: int|
                    0 <= m < n - 1 && #[trigger] prev[j] == missing_executable_message(executables[m]@);
                assert(0 <= m < n);
            } else {
                assert(executable_reasons(executables, found, n)[j] == missing_executable_message(
                    executables[n - 1]@,
                ));
            }
        }
    }
}

/// An action whose OS list names the host's OS, at any position and under any
/// alias, gets no OS reason; with its architecture supported and its
/// interpreter and executables found, it has no reason at all.
pub proof fn lemma_listed_os_is_supported(
    action: ActionDefinition,
    host: Host,
    k: int,
    interpreter_found: bool,
    executables_found: Seq<bool>,
)
    requires
        executables_found.len() == action.requirements.executables@.len(),
        0 <= k < action.requirements.os@.len(),
        normalized_os(action.requirements.os@[k]@) == host.os@,
    ensures
        forall|j: int|
            0 <= j < unavailability_reasons(action, host, interpreter_found, executables_found).len()
                ==> !"requires OS: "@.is_prefix_of(
                #[trigger] unavailability_reasons(action, host, interpreter_found, executables_found)[j],
            ),
        arch_supported(action, host) && interpreter_found && (forall|m: int|
            0 <= m < executables_found.len() ==> #[trigger] executables_found[m])
            ==> unavailability_reasons(action, host, interpreter_found, executables_found).len() == 0,
{
    reveal_strlit("requires OS: ");
    reveal_strlit("requires architecture: ");
    reveal_strlit("interpreter `");
    reveal_strlit("required executable `");
    assert(os_supported(action, host));
    lemma_one_reason_per_unmet_requirement(action, host, interpreter_found, executables_found);
    let es = action.requirements.executables@;
    lemma_executable_reasons_are_missing(es, executables_found, es.len() as int);
    let reasons = unavailability_reasons(action, host, interpreter_found, executables_found);
    let arch: Seq<Seq<char>> = if arch_supported(action, host) {
        Seq::empty()
    } else {
        seq!["requires architecture: "@ + joined(texts(action.requirements.arch@), ", "@)]
    };
    let interpreter: Seq<Seq<char>> = if interpreter_found {
        Seq::empty()
    } else {
        seq!["interpreter `"@ + action.interpreter.program@ + "` was not found on PATH"@]
    };
    let exec = executable_reasons(es, executables_found, es.len() as int);
    assert(reasons =~= arch + interpreter + exec);
    assert forall|j: int| 0 <= j < reasons.len() implies !"requires OS: "@.is_prefix_of(
        #[trigger] reasons[j],
    ) by {
        let r = reasons[j];
        if j < arch.len() {
            assert(r[9] == 'a');
        } else if j < arch.len() + interpreter.len() {
            assert(r[0] == 'i');
        } else {
            let m = choose|m: int|
                0 <= m < es.len() && #[trigger] exec[j - arch.len() - interpreter.len()]
                    == missing_executable_message(es[m]@);
            assert(r == missing_executable_message(es[m]@));
            assert(r[7] == 'd');
        }
        if "requires OS: "@.is_prefix_of(r) {
            assert("requires OS: "@[0] == r[0]);
            assert("requires OS: "@[7] == r[7]);
            assert("requires OS: "@[9] == r[9]);
        }
    }
}

} // verus!
