//! The catalog bundled with the library: harmless fixture scripts that
//! exercise the launcher contract.
use vstd::prelude::*;

use crate::catalog::{
    read_views, validate_given, validation_issue, ActionDefinition, ActionId, Catalog, CatalogBundle, CatalogError,
    CatalogFiles, CatalogSource, Category, CategoryId, Interpreter, Requirements,
};
use crate::text::same_text;

verus! {

pub const HELLO_SCRIPT: &'static str = "#!/bin/sh\nprintf 'Hello from Crank!\\n'\ncat ../assets/message.txt\n";

pub const PROMPT_SCRIPT: &'static str = "#!/bin/sh\nprintf 'What is your name? '\nread -r name\nprintf 'Hello, %s!\\n' \"$name\"\n";

pub const FAIL_SCRIPT: &'static str = "#!/bin/sh\nprintf 'This action fails on purpose.\\n'\nexit 42\n";

pub const INTERRUPT_SCRIPT: &'static str = "#!/bin/sh\ntrap 'printf \"\\nInterrupted.\\n\"; exit 130' INT\nprintf 'Waiting for an interrupt (Ctrl-C)...\\n'\nwhile :; do sleep 1; done\n";

pub const COLORS_SCRIPT: &'static str = "#!/bin/sh\nfor code in 31 32 33 34 35 36; do\n  printf '\\033[%smcolor %s\\033[0m\\n' \"$code\" \"$code\"\ndone\n";

pub const MESSAGE_ASSET: &'static str = "This line comes from a bundled asset.\n";

/// The text of each bundled file, by path relative to the catalog root.
pub open spec fn bundled_text(path: Seq<char>) -> Option<Seq<char>> {
    if path == "scripts/hello.sh"@ {
        Some(HELLO_SCRIPT@)
    } else if path == "scripts/prompt.sh"@ {
        Some(PROMPT_SCRIPT@)
    } else if path == "scripts/fail.sh"@ {
        Some(FAIL_SCRIPT@)
    } else if path == "scripts/interrupt.sh"@ {
        Some(INTERRUPT_SCRIPT@)
    } else if path == "scripts/colors.sh"@ {
        Some(COLORS_SCRIPT@)
    } else if path == "assets/message.txt"@ {
        Some(MESSAGE_ASSET@)
    } else {
        None
    }
}

/// The files compiled into the library.
#[derive(Clone, Copy, Debug, Default)]
pub struct EmbeddedFiles;

fn bytes_of(text: &str) -> (r: Vec<u8>)
    ensures
        r@ == vstd::utf8::encode_utf8(text@),
{
    vstd::slice::slice_to_vec(text.as_bytes())
}

fn owned(text: &str) -> (r: String)
    ensures
        r@ == text@,
{
    String::from_str(text)
}

/// The bytes of each bundled file: its text encoded as UTF-8.
pub open spec fn bundled_bytes(path: Seq<char>) -> Option<Seq<u8>> {
    match bundled_text(path) {
        Some(text) => Some(vstd::utf8::encode_utf8(text)),
        None => None,
    }
}

/// The bundled files, scripts first.
pub open spec fn bundled_paths() -> Seq<Seq<char>> {
    seq![
        "scripts/hello.sh"@,
        "scripts/prompt.sh"@,
        "scripts/fail.sh"@,
        "scripts/interrupt.sh"@,
        "scripts/colors.sh"@,
        "assets/message.txt"@,
    ]
}

/// What reading each action's script from the bundled files gives.
pub open spec fn bundled_reads(c: Catalog) -> Seq<Option<Seq<u8>>> {
    Seq::new(c.actions@.len(), |i: int| bundled_bytes(c.actions@[i].script@))
}

impl CatalogFiles for EmbeddedFiles {
    open spec fn read_returns(&self, path: Seq<char>, result: Option<Seq<u8>>) -> bool {
        result == bundled_bytes(path)
    }

    fn read(&self, relative_path: &str) -> (r: Option<Vec<u8>>)
        ensures
            match r {
                Some(bytes) => bundled_bytes(relative_path@) == Some(bytes@),
                None => bundled_bytes(relative_path@) is None,
            },
    {
        if same_text(relative_path, "scripts/hello.sh") {
            Some(bytes_of(HELLO_SCRIPT))
        } else if same_text(relative_path, "scripts/prompt.sh") {
            Some(bytes_of(PROMPT_SCRIPT))
        } else if same_text(relative_path, "scripts/fail.sh") {
            Some(bytes_of(FAIL_SCRIPT))
        } else if same_text(relative_path, "scripts/interrupt.sh") {
            Some(bytes_of(INTERRUPT_SCRIPT))
        } else if same_text(relative_path, "scripts/colors.sh") {
            Some(bytes_of(COLORS_SCRIPT))
        } else if same_text(relative_path, "assets/message.txt") {
            Some(bytes_of(MESSAGE_ASSET))
        } else {
            None
        }
    }

    fn paths(&self) -> (r: Vec<String>)
        ensures
            r@.map_values(|p: String| p@) == bundled_paths(),
            forall|i: int| 0 <= i < r@.len() ==> bundled_text(#[trigger] r@[i]@) is Some,
    {
        let mut r: Vec<String> = Vec::new();
        r.push(owned("scripts/hello.sh"));
        r.push(owned("scripts/prompt.sh"));
        r.push(owned("scripts/fail.sh"));
        r.push(owned("scripts/interrupt.sh"));
        r.push(owned("scripts/colors.sh"));
        r.push(owned("assets/message.txt"));
        assert(r@.map_values(|p: String| p@) =~= bundled_paths());
        r
    }
}


/// An action run by `sh` with no arguments and no host requirements.
pub open spec fn plain_action(
    a: ActionDefinition,
    id: Seq<char>,
    label: Seq<char>,
    description: Seq<char>,
    category: Seq<char>,
    script: Seq<char>,
) -> bool {
    &&& a.id@ == id
    &&& a.label@ == label
    &&& a.description@ == description
    &&& a.category@ == category
    &&& a.script@ == script
    &&& a.interpreter.program@ == "sh"@
    &&& a.interpreter.args@.len() == 0
    &&& a.requirements.os@.len() == 0
    &&& a.requirements.arch@.len() == 0
    &&& a.requirements.executables@.len() == 0
}

/// The bundled catalog: two categories and five fixture actions.
pub open spec fn is_bundled_catalog(c: Catalog) -> bool {
    &&& c.schema_version == 1
    &&& c.categories@.len() == 2
    &&& c.categories@[0].id@ == "basics"@
    &&& c.categories@[0].label@ == "Basics"@
    &&& c.categories@[0].description@ == "Output, input and exit status."@
    &&& c.categories@[1].id@ == "terminal"@
    &&& c.categories@[1].label@ == "Terminal"@
    &&& c.categories@[1].description@ == "Interruption and terminal colors."@
    &&& c.actions@.len() == 5
    &&& plain_action(
        c.actions@[0],
        "fixture.hello"@,
        "Hello"@,
        "Print a greeting and the text of a bundled asset."@,
        "basics"@,
        "scripts/hello.sh"@,
    )
    &&& plain_action(
        c.actions@[1],
        "fixture.prompt"@,
        "Prompt"@,
        "Ask for a name and greet it."@,
        "basics"@,
        "scripts/prompt.sh"@,
    )
    &&& plain_action(
        c.actions@[2],
        "fixture.fail"@,
        "Fail"@,
        "Exit with status 42 to exercise failure reporting."@,
        "basics"@,
        "scripts/fail.sh"@,
    )
    &&& plain_action(
        c.actions@[3],
        "fixture.interrupt"@,
        "Wait for interrupt"@,
        "Wait until interrupted with Ctrl-C or cancelled."@,
        "terminal"@,
        "scripts/interrupt.sh"@,
    )
    &&& plain_action(
        c.actions@[4],
        "fixture.colors"@,
        "Colors"@,
        "Print text in the basic terminal colors."@,
        "terminal"@,
        "scripts/colors.sh"@,
    )
}

fn plain(id: ActionId, label: &str, description: &str, category: CategoryId, script: &str) -> (r:
    ActionDefinition)
    ensures
        plain_action(r, id@, label@, description@, category@, script@),
{
    ActionDefinition {
        id,
        label: owned(label),
        description: owned(description),
        category,
        script: owned(script),
        interpreter: Interpreter::default(),
        requirements: Requirements::default(),
    }
}

fn category(id: CategoryId, label: &str, description: &str) -> (r: Category)
    ensures
        r.id@ == id@,
        r.label@ == label@,
        r.description@ == description@,
{
    Category { id, label: owned(label), description: owned(description) }
}

fn bundled_catalog() -> (r: Catalog)
    ensures
        is_bundled_catalog(r),
{
    proof {
        reveal_strlit("basics");
        reveal_strlit("terminal");
        reveal_strlit("fixture.hello");
        reveal_strlit("fixture.prompt");
        reveal_strlit("fixture.fail");
        reveal_strlit("fixture.interrupt");
        reveal_strlit("fixture.colors");
    }
    let mut categories: Vec<Category> = Vec::new();
    categories.push(
        category(CategoryId::from_known("basics"), "Basics", "Output, input and exit status."),
    );
    categories.push(
        category(
            CategoryId::from_known("terminal"),
            "Terminal",
            "Interruption and terminal colors.",
        ),
    );
    let mut actions: Vec<ActionDefinition> = Vec::new();
    actions.push(
        plain(
            ActionId::from_known("fixture.hello"),
            "Hello",
            "Print a greeting and the text of a bundled asset.",
            CategoryId::from_known("basics"),
            "scripts/hello.sh",
        ),
    );
    actions.push(
        plain(
            ActionId::from_known("fixture.prompt"),
            "Prompt",
            "Ask for a name and greet it.",
            CategoryId::from_known("basics"),
            "scripts/prompt.sh",
        ),
    );
    actions.push(
        plain(
            ActionId::from_known("fixture.fail"),
            "Fail",
            "Exit with status 42 to exercise failure reporting.",
            CategoryId::from_known("basics"),
            "scripts/fail.sh",
        ),
    );
    actions.push(
        plain(
            ActionId::from_known("fixture.interrupt"),
            "Wait for interrupt",
            "Wait until interrupted with Ctrl-C or cancelled.",
            CategoryId::from_known("terminal"),
            "scripts/interrupt.sh",
        ),
    );
    actions.push(
        plain(
            ActionId::from_known("fixture.colors"),
            "Colors",
            "Print text in the basic terminal colors.",
            CategoryId::from_known("terminal"),
            "scripts/colors.sh",
        ),
    );
    Catalog { schema_version: 1, categories, actions }
}

/// Loads the bundled catalog through the same validation as any other
/// catalog; the bundled catalog passes it.
pub fn load_embedded() -> (r: Result<CatalogBundle<EmbeddedFiles>, CatalogError>)
    ensures
        r matches Ok(bundle) && is_bundled_catalog(bundle.catalog) && bundle.source
            == CatalogSource::Embedded && validation_issue(bundle.catalog, bundled_reads(bundle.catalog))
            is None,
{
    let files = EmbeddedFiles;
    let catalog = bundled_catalog();
    let mut reads: Vec<Option<Vec<u8>>> = Vec::new();
    let mut i: usize = 0;
    while i < catalog.actions.len()
        invariant
            i <= catalog.actions@.len(),
            reads@.len() == i,
            forall|k: int|
                0 <= k < i ==> (match #[trigger] reads@[k] {
                    Some(v) => Some(v@),
                    None => None,
                }) == bundled_bytes(catalog.actions@[k].script@),
        decreases catalog.actions@.len() - i,
    {
        reads.push(files.read(catalog.actions[i].script.as_str()));
        i = i + 1;
    }
    assert(read_views(reads@) =~= bundled_reads(catalog));
    proof {
        lemma_bundled_catalog_valid(catalog);
    }
    match validate_given(&catalog, &reads) {
        Ok(()) => Ok(CatalogBundle { catalog, files, source: CatalogSource::Embedded }),
        Err(e) => Err(e),
    }
}

} // verus!

verus! {

/// Encoding a concatenation concatenates the encodings.
proof fn lemma_encode_concat(a: Seq<char>, b: Seq<char>)
    ensures
        vstd::utf8::encode_utf8(a + b) == vstd::utf8::encode_utf8(a) + vstd::utf8::encode_utf8(b),
    decreases a.len(),
{
    if a.len() == 0 {
        assert(a + b =~= b);
        assert(vstd::utf8::encode_utf8(a) =~= Seq::<u8>::empty());
        assert(vstd::utf8::encode_utf8(a) + vstd::utf8::encode_utf8(b) =~= vstd::utf8::encode_utf8(b));
    } else {
        assert((a + b).drop_first() =~= a.drop_first() + b);
        assert((a + b)[0] == a[0]);
        lemma_encode_concat(a.drop_first(), b);
        assert(vstd::utf8::encode_utf8(a + b) =~= vstd::utf8::encode_utf8(a) + vstd::utf8::encode_utf8(b));
    }
}

/// The bytes of characters that are all ASCII: one byte per character.
spec fn ascii_bytes(s: Seq<char>) -> Seq<u8> {
    Seq::new(s.len(), |i: int| (s[i] as u32) as u8)
}

proof fn lemma_ascii_scalar(v: u32)
    by (bit_vector)
    requires
        v <= 0x7F,
    ensures
        (v & 0x7F) as u8 == v,
        v as u8 == v,
{
}

/// ASCII text is encoded in UTF-8 one byte per character.
proof fn lemma_ascii_encode(s: Seq<char>)
    requires
        forall|i: int| 0 <= i < s.len() ==> (#[trigger] s[i]) as u32 <= 0x7F,
    ensures
        vstd::utf8::encode_utf8(s) == ascii_bytes(s),
    decreases s.len(),
{
    if s.len() > 0 {
        let rest = s.drop_first();
        assert forall|i: int| 0 <= i < rest.len() implies (#[trigger] rest[i]) as u32 <= 0x7F by {
            assert(rest[i] == s[i + 1]);
        }
        lemma_ascii_encode(rest);
        lemma_ascii_scalar(s[0] as u32);
        assert(vstd::utf8::encode_scalar(s[0] as u32) =~= seq![(s[0] as u32) as u8]);
        assert(vstd::utf8::encode_utf8(s) =~= ascii_bytes(s));
    } else {
        assert(vstd::utf8::encode_utf8(s) =~= ascii_bytes(s));
    }
}

/// The interpreter line every bundled script starts with.
spec fn sh_line() -> Seq<char> {
    seq!['#', '!', '/', 'b', 'i', 'n', '/', 's', 'h', '\n']
}

/// A script starting with `#!/bin/sh` has a shebang that matches `sh`.
proof fn lemma_sh_script(action: ActionDefinition, text: Seq<char>)
    requires
        action.interpreter.program@ == "sh"@,
        text.len() >= 10,
        text.subrange(0, 10) == sh_line(),
    ensures
        crate::catalog::shebang_issue(action, vstd::utf8::encode_utf8(text)) is None,
{
    broadcast use vstd::utf8::encode_utf8_valid_utf8, vstd::utf8::encode_utf8_decode_utf8;

    reveal_strlit("sh");
    let rest = text.subrange(10, text.len() as int);
    assert(text =~= sh_line() + rest);
    lemma_encode_concat(sh_line(), rest);
    let head = vstd::utf8::encode_utf8(sh_line());
    lemma_ascii_encode(sh_line());
    let x = vstd::utf8::encode_utf8(text);
    assert(x == head + vstd::utf8::encode_utf8(rest));
    assert(x[0] == 35u8 && x[1] == 33u8);
    assert(crate::catalog::line_end(x, 9) == 9);
    assert(crate::catalog::line_end(x, 8) == 9);
    assert(crate::catalog::line_end(x, 7) == 9);
    assert(crate::catalog::line_end(x, 6) == 9);
    assert(crate::catalog::line_end(x, 5) == 9);
    assert(crate::catalog::line_end(x, 4) == 9);
    assert(crate::catalog::line_end(x, 3) == 9);
    assert(crate::catalog::line_end(x, 2) == 9);
    let w = seq!['/', 'b', 'i', 'n', '/', 's', 'h'];
    lemma_ascii_encode(w);
    assert(x.subrange(2, 9) =~= vstd::utf8::encode_utf8(w));
    assert(crate::catalog::shebang_line(x) == Some(vstd::utf8::encode_utf8(w)));
    assert(crate::text::lossy_text(vstd::utf8::encode_utf8(w)) == w);
    assert(crate::catalog::whitespace_end(w, 0) == 0);
    assert(crate::catalog::word_end(w, 7) == 7);
    assert(crate::catalog::word_end(w, 6) == 7);
    assert(crate::catalog::word_end(w, 5) == 7);
    assert(crate::catalog::word_end(w, 4) == 7);
    assert(crate::catalog::word_end(w, 3) == 7);
    assert(crate::catalog::word_end(w, 2) == 7);
    assert(crate::catalog::word_end(w, 1) == 7);
    assert(crate::catalog::word_end(w, 0) == 7);
    assert(crate::catalog::first_word(w) =~= w);
    let sh = seq!['s', 'h'];
    assert(crate::paths::component_start(w, 5) == 5);
    assert(crate::paths::component_start(w, 6) == 5);
    assert(crate::paths::component_start(w, 7) == 5);
    assert(crate::paths::body_start(w) == 1);
    assert(crate::paths::last_component(w, 1, 7) == Some((5int, 7int)));
    assert(w.subrange(5, 7) =~= sh);
    assert(crate::paths::base_name(w) == sh);
    assert("sh"@ =~= sh);
    assert(crate::paths::component_start(sh, 0) == 0);
    assert(crate::paths::component_start(sh, 1) == 0);
    assert(crate::paths::component_start(sh, 2) == 0);
    assert(crate::paths::body_start(sh) == 0);
    assert(crate::paths::last_component(sh, 0, 2) == Some((0int, 2int)));
    assert(sh.subrange(0, 2) =~= sh);
    assert(crate::paths::base_name(sh) == sh);
}

} // verus!

verus! {

/// No `..` component starts at or after `k`.
spec fn no_parent_from(s: Seq<char>, k: int) -> bool
    decreases s.len() - k,
{
    if k < 0 || k >= s.len() {
        true
    } else {
        !crate::paths::parent_component_at(s, k) && no_parent_from(s, k + 1)
    }
}

proof fn lemma_no_parent_from(s: Seq<char>, k: int)
    requires
        0 <= k,
        no_parent_from(s, k),
    ensures
        forall|i: int| k <= i ==> !crate::paths::parent_component_at(s, i),
    decreases s.len() - k,
{
    if k < s.len() {
        lemma_no_parent_from(s, k + 1);
    }
}

/// A path that is not absolute, does not start with `.` and has no `..`
/// component at any position is safe.
proof fn lemma_safe_path(s: Seq<char>)
    requires
        s.len() > 1,
        s[0] != '/',
        s[0] != '.',
        no_parent_from(s, 0),
    ensures
        crate::paths::safe_relative_path(s),
{
    lemma_no_parent_from(s, 0);
}

proof fn lemma_script_paths_safe()
    ensures
        crate::paths::safe_relative_path("scripts/hello.sh"@),
        crate::paths::safe_relative_path("scripts/prompt.sh"@),
        crate::paths::safe_relative_path("scripts/fail.sh"@),
        crate::paths::safe_relative_path("scripts/interrupt.sh"@),
        crate::paths::safe_relative_path("scripts/colors.sh"@),
{
    reveal_strlit("scripts/hello.sh");
    reveal_strlit("scripts/prompt.sh");
    reveal_strlit("scripts/fail.sh");
    reveal_strlit("scripts/interrupt.sh");
    reveal_strlit("scripts/colors.sh");
    reveal_with_fuel(no_parent_from, 22);
    lemma_safe_path("scripts/hello.sh"@);
    lemma_safe_path("scripts/prompt.sh"@);
    lemma_safe_path("scripts/fail.sh"@);
    lemma_safe_path("scripts/interrupt.sh"@);
    lemma_safe_path("scripts/colors.sh"@);
}

/// Every bundled script starts with the line `#!/bin/sh`.
proof fn lemma_scripts_start_with_sh()
    ensures
        HELLO_SCRIPT@.len() >= 10 && HELLO_SCRIPT@.subrange(0, 10) == sh_line(),
        PROMPT_SCRIPT@.len() >= 10 && PROMPT_SCRIPT@.subrange(0, 10) == sh_line(),
        FAIL_SCRIPT@.len() >= 10 && FAIL_SCRIPT@.subrange(0, 10) == sh_line(),
        INTERRUPT_SCRIPT@.len() >= 10 && INTERRUPT_SCRIPT@.subrange(0, 10) == sh_line(),
        COLORS_SCRIPT@.len() >= 10 && COLORS_SCRIPT@.subrange(0, 10) == sh_line(),
{
    reveal_strlit("#!/bin/sh\nprintf 'Hello from Crank!\\n'\ncat ../assets/message.txt\n");
    reveal_strlit("#!/bin/sh\nprintf 'What is your name? '\nread -r name\nprintf 'Hello, %s!\\n' \"$name\"\n");
    reveal_strlit("#!/bin/sh\nprintf 'This action fails on purpose.\\n'\nexit 42\n");
    reveal_strlit("#!/bin/sh\ntrap 'printf \"\\nInterrupted.\\n\"; exit 130' INT\nprintf 'Waiting for an interrupt (Ctrl-C)...\\n'\nwhile :; do sleep 1; done\n");
    reveal_strlit("#!/bin/sh\nfor code in 31 32 33 34 35 36; do\n  printf '\\033[%smcolor %s\\033[0m\\n' \"$code\" \"$code\"\ndone\n");
    assert(HELLO_SCRIPT@.subrange(0, 10) =~= sh_line());
    assert(PROMPT_SCRIPT@.subrange(0, 10) =~= sh_line());
    assert(FAIL_SCRIPT@.subrange(0, 10) =~= sh_line());
    assert(INTERRUPT_SCRIPT@.subrange(0, 10) =~= sh_line());
    assert(COLORS_SCRIPT@.subrange(0, 10) =~= sh_line());
}

} // verus!

verus! {

/// Each script path of the bundled catalog names its own script.
proof fn lemma_bundled_scripts()
    ensures
        bundled_text("scripts/hello.sh"@) == Some(HELLO_SCRIPT@),
        bundled_text("scripts/prompt.sh"@) == Some(PROMPT_SCRIPT@),
        bundled_text("scripts/fail.sh"@) == Some(FAIL_SCRIPT@),
        bundled_text("scripts/interrupt.sh"@) == Some(INTERRUPT_SCRIPT@),
        bundled_text("scripts/colors.sh"@) == Some(COLORS_SCRIPT@),
{
    reveal_strlit("scripts/hello.sh");
    reveal_strlit("scripts/prompt.sh");
    reveal_strlit("scripts/fail.sh");
    reveal_strlit("scripts/interrupt.sh");
    reveal_strlit("scripts/colors.sh");
    let hello = "scripts/hello.sh"@;
    let prompt = "scripts/prompt.sh"@;
    let fail = "scripts/fail.sh"@;
    let interrupt = "scripts/interrupt.sh"@;
    let colors = "scripts/colors.sh"@;
    assert(hello.len() == 16 && prompt.len() == 17 && fail.len() == 15);
    assert(interrupt.len() == 20 && colors.len() == 17);
    assert(prompt[8] != colors[8]);
    assert(prompt != hello && fail != hello && fail != prompt);
    assert(interrupt != hello && interrupt != prompt && interrupt != fail);
    assert(colors != hello && colors != prompt && colors != fail && colors != interrupt);
}

/// The identifiers of the bundled catalog are distinct.
proof fn lemma_bundled_ids_distinct()
    ensures
        "basics"@ != "terminal"@,
        "fixture.hello"@ != "fixture.prompt"@,
        "fixture.hello"@ != "fixture.fail"@,
        "fixture.hello"@ != "fixture.interrupt"@,
        "fixture.hello"@ != "fixture.colors"@,
        "fixture.prompt"@ != "fixture.fail"@,
        "fixture.prompt"@ != "fixture.interrupt"@,
        "fixture.prompt"@ != "fixture.colors"@,
        "fixture.fail"@ != "fixture.interrupt"@,
        "fixture.fail"@ != "fixture.colors"@,
        "fixture.interrupt"@ != "fixture.colors"@,
{
    reveal_strlit("basics");
    reveal_strlit("terminal");
    reveal_strlit("fixture.hello");
    reveal_strlit("fixture.prompt");
    reveal_strlit("fixture.fail");
    reveal_strlit("fixture.interrupt");
    reveal_strlit("fixture.colors");
    assert("basics"@.len() == 6 && "terminal"@.len() == 8);
    assert("fixture.hello"@.len() == 13 && "fixture.prompt"@.len() == 14);
    assert("fixture.fail"@.len() == 12 && "fixture.interrupt"@.len() == 17);
    assert("fixture.colors"@.len() == 14);
    assert("fixture.prompt"@[8] != "fixture.colors"@[8]);
}

/// The bundled catalog passes validation against the bundled files.
pub proof fn lemma_bundled_catalog_valid(c: Catalog)
    requires
        is_bundled_catalog(c),
    ensures
        validation_issue(c, bundled_reads(c)) is None,
{
    lemma_bundled_ids_distinct();
    lemma_bundled_scripts();
    lemma_script_paths_safe();
    lemma_scripts_start_with_sh();
    let reads = bundled_reads(c);
    let cats = c.categories@;
    assert(crate::catalog::duplicate_category(cats, 0) is None);
    assert(crate::catalog::duplicate_category(cats, 1) is None);
    assert(crate::catalog::duplicate_category(cats, 2) is None);
    assert(crate::catalog::header_issue(c) is None);
    assert(crate::catalog::category_declared(c, "basics"@)) by {
        assert(cats[0].id@ == "basics"@);
    }
    assert(crate::catalog::category_declared(c, "terminal"@)) by {
        assert(cats[1].id@ == "terminal"@);
    }
    let texts = seq![HELLO_SCRIPT@, PROMPT_SCRIPT@, FAIL_SCRIPT@, INTERRUPT_SCRIPT@, COLORS_SCRIPT@];
    assert forall|i: int| 0 <= i < 5 implies #[trigger] crate::catalog::action_issue(c, i, reads[i]) is None by {
        let a = c.actions@[i];
        assert(bundled_text(a.script@) == Some(texts[i]));
        assert(reads[i] == Some(vstd::utf8::encode_utf8(texts[i])));
        lemma_sh_script(a, texts[i]);
        assert(crate::catalog::first_bad_executable(a.requirements.executables@, 0) is None);
        assert(!exists|j: int| 0 <= j < i && #[trigger] c.actions@[j].id@ == a.id@);
    }
    assert(crate::catalog::actions_issue(c, 0, reads) is None);
    assert(crate::catalog::actions_issue(c, 1, reads) is None);
    assert(crate::catalog::actions_issue(c, 2, reads) is None);
    assert(crate::catalog::actions_issue(c, 3, reads) is None);
    assert(crate::catalog::actions_issue(c, 4, reads) is None);
    assert(crate::catalog::actions_issue(c, 5, reads) is None);
}

} // verus!
