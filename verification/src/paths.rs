//! Slash-separated paths, modelled as character sequences.
//!
//! A component is a maximal run of characters between `/` separators. Empty
//! components and `.` components after the first are not significant, as in
//! the usual UNIX reading of a path.
use vstd::prelude::*;

use crate::text::{chars_of, string_of};

verus! {

/// A `..` component starts at `i`.
pub open spec fn parent_component_at(s: Seq<char>, i: int) -> bool {
    &&& 0 <= i
    &&& i + 2 <= s.len()
    &&& s[i] == '.'
    &&& s[i + 1] == '.'
    &&& (i == 0 || s[i - 1] == '/')
    &&& (i + 2 == s.len() || s[i + 2] == '/')
}

/// The path begins with a `.` component (`.` itself, or `./...`).
pub open spec fn starts_with_current_dir(s: Seq<char>) -> bool {
    s.len() >= 1 && s[0] == '.' && (s.len() == 1 || s[1] == '/')
}

/// A non-empty relative path that cannot leave the directory it is resolved in:
/// it is not absolute, does not begin with `.`, and has no `..` component.
pub open spec fn safe_relative_path(s: Seq<char>) -> bool {
    &&& s.len() > 0
    &&& s[0] != '/'
    &&& !starts_with_current_dir(s)
    &&& forall|i: int| !parent_component_at(s, i)
}

pub fn is_safe_relative_path(path: &str) -> (r: bool)
    ensures
        r == safe_relative_path(path@),
{
    let cs = chars_of(path);
    let n = cs.len();
    if n == 0 || cs[0] == '/' {
        return false;
    }
    if cs[0] == '.' && (n == 1 || cs[1] == '/') {
        return false;
    }
    let mut i: usize = 0;
    while i < n
        invariant
            cs@ == path@,
            n == cs@.len(),
            i <= n,
            forall|j: int| 0 <= j < i ==> !parent_component_at(cs@, j),
        decreases n - i,
    {
        if n - i >= 2 && cs[i] == '.' && cs[i + 1] == '.' && (i == 0 || cs[i - 1] == '/') && (i
            + 2 == n || cs[i + 2] == '/') {
            assert(parent_component_at(cs@, i as int));
            return false;
        }
        i = i + 1;
    }
    assert forall|j: int| !parent_component_at(cs@, j) by {
        if 0 <= j && j < n {
        }
    }
    true
}

/// Start of the component that ends at `end`: just after the last `/` before `end`.
pub open spec fn component_start(s: Seq<char>, end: int) -> int
    decreases end,
{
    if end <= 0 || s[end - 1] == '/' {
        end
    } else {
        component_start(s, end - 1)
    }
}

pub proof fn lemma_component_start(s: Seq<char>, end: int)
    requires
        0 <= end <= s.len(),
    ensures
        0 <= component_start(s, end) <= end,
        forall|k: int| component_start(s, end) <= k < end ==> s[k] != '/',
        component_start(s, end) == 0 || s[component_start(s, end) - 1] == '/',
    decreases end,
{
    if end > 0 && s[end - 1] != '/' {
        lemma_component_start(s, end - 1);
    }
}

/// Length of what precedes the body of a path: a root `/`, or a leading `.`
/// component (`.` or `./...`); otherwise zero.
pub open spec fn body_start(s: Seq<char>) -> int {
    if s.len() > 0 && s[0] == '/' {
        1
    } else if starts_with_current_dir(s) {
        1
    } else {
        0
    }
}

/// Bounds of the last significant component of the body `s[lo..end]`:
/// separators and `.` components are skipped; `None` when none is left.
pub open spec fn last_component(s: Seq<char>, lo: int, end: int) -> Option<(int, int)>
    decreases end,
{
    if end <= lo || end > s.len() || lo < 0 {
        None
    } else if s[end - 1] == '/' {
        last_component(s, lo, end - 1)
    } else {
        let start = component_start(s, end);
        if end - start == 1 && s[start] == '.' {
            proof {
                lemma_component_start(s, end);
            }
            if start < end {
                last_component(s, lo, start)
            } else {
                None
            }
        } else {
            Some((start, end))
        }
    }
}

pub open spec fn is_parent_component(s: Seq<char>) -> bool {
    s.len() == 2 && s[0] == '.' && s[1] == '.'
}

/// The final component of a path, if it names a file or directory (it is not
/// `..`, a root, or a leading `.`).
pub open spec fn file_name(s: Seq<char>) -> Option<Seq<char>> {
    match last_component(s, body_start(s), s.len() as int) {
        Some((start, end)) => if is_parent_component(s.subrange(start, end)) {
            None
        } else {
            Some(s.subrange(start, end))
        },
        None => None,
    }
}

/// The final component of a path, or the whole path when it has none.
pub open spec fn base_name(s: Seq<char>) -> Seq<char> {
    match file_name(s) {
        Some(name) => name,
        None => s,
    }
}

fn last_component_exec(cs: &Vec<char>, lo: usize, end: usize) -> (r: Option<(usize, usize)>)
    requires
        end <= cs@.len(),
        lo <= cs@.len(),
    ensures
        match r {
            Some((a, b)) => a <= b <= end && last_component(cs@, lo as int, end as int) == Some(
                (a as int, b as int),
            ),
            None => last_component(cs@, lo as int, end as int) is None,
        },
{
    let mut e = end;
    loop
        invariant
            e <= end <= cs@.len(),
            last_component(cs@, lo as int, end as int) == last_component(cs@, lo as int, e as int),
        decreases e,
    {
        if e <= lo {
            return None;
        }
        if cs[e - 1] == '/' {
            e = e - 1;
        } else {
            let mut start = e;
            while start > 0 && cs[start - 1] != '/'
                invariant
                    start <= e <= cs@.len(),
                    component_start(cs@, e as int) == component_start(cs@, start as int),
                decreases start,
            {
                start = start - 1;
            }
            proof {
                lemma_component_start(cs@, e as int);
            }
            assert(component_start(cs@, start as int) == start);
            if e - start == 1 && cs[start] == '.' {
                e = start;
            } else {
                return Some((start, e));
            }
        }
    }
}

fn body_start_exec(cs: &Vec<char>) -> (r: usize)
    ensures
        r == body_start(cs@),
{
    let n = cs.len();
    if n > 0 && cs[0] == '/' {
        1
    } else if n >= 1 && cs[0] == '.' && (n == 1 || cs[1] == '/') {
        1
    } else {
        0
    }
}

/// The final component of `path`, or `path` itself when it has none.
pub fn base_name_of(path: &str) -> (r: String)
    ensures
        r@ == base_name(path@),
{
    let cs = chars_of(path);
    let lo = body_start_exec(&cs);
    match last_component_exec(&cs, lo, cs.len()) {
        Some((a, b)) => {
            if b - a == 2 && cs[a] == '.' && cs[a + 1] == '.' {
                assert(is_parent_component(cs@.subrange(a as int, b as int)));
                string_of(cs.as_slice())
            } else {
                let part = vstd::slice::slice_subrange(cs.as_slice(), a, b);
                assert(!is_parent_component(cs@.subrange(a as int, b as int)));
                string_of(part)
            }
        },
        None => string_of(cs.as_slice()),
    }
}

} // verus!

verus! {

/// `dir` followed by `name`, with one separator between them unless `dir` is
/// empty or already ends in `/`.
pub open spec fn join_path(dir: Seq<char>, name: Seq<char>) -> Seq<char> {
    if dir.len() == 0 {
        name
    } else if dir.last() == '/' {
        dir + name
    } else {
        dir + seq!['/'] + name
    }
}

pub fn join(dir: &str, name: &str) -> (r: String)
    ensures
        r@ == join_path(dir@, name@),
{
    let d = chars_of(dir);
    if d.len() == 0 {
        return String::from_str(name);
    }
    let mut r = String::from_str(dir);
    if d[d.len() - 1] != '/' {
        crate::text::push_char(&mut r, '/');
    }
    crate::text::append_str(&mut r, name);
    proof {
        if d@.last() != '/' {
            assert(r@ =~= dir@ + seq!['/'] + name@);
        }
    }
    r
}

/// End of the body of `s.take(k)` once trailing separators and `.`
/// components are removed.
pub open spec fn trimmed_end(s: Seq<char>, lo: int, k: int) -> int {
    match last_component(s, lo, k) {
        Some((_, b)) => b,
        None => lo,
    }
}

/// The path without its final component: `None` for an empty path or a bare
/// root; the empty path for a single relative component or a bare `.`.
pub open spec fn parent_path(s: Seq<char>) -> Option<Seq<char>> {
    let lo = body_start(s);
    match last_component(s, lo, s.len() as int) {
        Some((start, _)) => Some(s.take(trimmed_end(s, lo, start))),
        None => if lo == 1 && s[0] != '/' {
            Some(Seq::empty())
        } else {
            None
        },
    }
}

pub fn parent(path: &str) -> (r: Option<String>)
    ensures
        match r {
            Some(p) => parent_path(path@) == Some(p@),
            None => parent_path(path@) is None,
        },
{
    let cs = chars_of(path);
    let lo = body_start_exec(&cs);
    match last_component_exec(&cs, lo, cs.len()) {
        None => {
            if lo == 1 && cs[0] != '/' {
                Some(String::new())
            } else {
                None
            }
        },
        Some((start, _)) => {
            let end = match last_component_exec(&cs, lo, start) {
                Some((_, b)) => b,
                None => lo,
            };
            assert(end <= cs@.len());
            let part = vstd::slice::slice_subrange(cs.as_slice(), 0, end);
            let r = string_of(part);
            assert(r@ =~= cs@.take(end as int));
            Some(r)
        },
    }
}

} // verus!

verus! {

/// A component that is not `.` starts at `a`.
pub open spec fn named_component_at(s: Seq<char>, a: int) -> bool {
    &&& 0 <= a < s.len()
    &&& (a == 0 || s[a - 1] == '/')
    &&& s[a] != '/'
    &&& !(s[a] == '.' && (a + 1 == s.len() || s[a + 1] == '/'))
}

proof fn lemma_component_found(s: Seq<char>, lo: int, end: int, a: int)
    requires
        0 <= lo <= a < end <= s.len(),
        end == s.len() || s[end] == '/' || s[end - 1] == '/',
        named_component_at(s, a),
    ensures
        last_component(s, lo, end) is Some,
    decreases end,
{
    if s[end - 1] == '/' {
        lemma_component_found(s, lo, end - 1, a);
    } else {
        lemma_component_start(s, end);
        let start = component_start(s, end);
        if a > start {
            assert(s[a - 1] != '/');
        }
        if end - start == 1 && s[start] == '.' {
            if a == start {
                assert(false);
            } else {
                lemma_component_found(s, lo, start, a);
            }
        }
    }
}

/// A safe relative path joined to any directory has a parent: the script
/// paths of a valid catalog always have a directory to run in.
pub proof fn lemma_joined_safe_path_has_parent(dir: Seq<char>, path: Seq<char>)
    requires
        safe_relative_path(path),
    ensures
        parent_path(join_path(dir, path)) is Some,
{
    let s = join_path(dir, path);
    let a: int = if dir.len() == 0 {
        0
    } else if dir.last() == '/' {
        dir.len() as int
    } else {
        dir.len() + 1int
    };
    assert(s.len() == a + path.len());
    assert forall|k: int| 0 <= k < path.len() implies s[a + k] == path[k] by {}
    assert(named_component_at(s, a)) by {
        if dir.len() != 0 {
            assert(s[a - 1] == '/');
        }
        assert(s[a] == path[0]);
        if path.len() > 1 {
            assert(s[a + 1] == path[1]);
        }
    }
    assert(body_start(s) <= a) by {
        if dir.len() == 0 {
            assert(s =~= path);
        }
    }
    lemma_component_found(s, body_start(s), s.len() as int, a);
}

} // verus!
