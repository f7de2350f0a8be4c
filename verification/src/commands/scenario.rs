//! The debug scenarios of a project, as `.zed/debug.json` holds them.

use crate::json::views_of;
use crate::json::Json;
use crate::json::JsonView;
use crate::setup::jsonc::jsonc_parsed;
use crate::setup::jsonc::parse_jsonc;
use crate::text::chars_of;
use crate::text::has_prefix;
use crate::text::opt_view;
use crate::text::owned;
use crate::text::replace_text;
use crate::text::replaced;
use crate::text::starts_with;
use crate::text::str_eq;
use crate::text::string_of;
use crate::util::paths::is_absolute_path;
use crate::util::paths::join;
use crate::util::paths::joined;
use vstd::prelude::*;

verus! {

/// The document that a JSONC text holds.
pub open spec fn jsonc_value(text: Seq<char>) -> Option<JsonView> {
    match jsonc_parsed(text) {
        Ok(v) => Some(v),
        Err(_) => None,
    }
}

/// Whether a scenario is for the Xcode adapter.
pub open spec fn is_xcode(scenario: JsonView) -> bool {
    scenario.str_at("adapter"@) == Some("Xcode"@)
}

/// The first Xcode scenario, from `i` on.
pub open spec fn xcode_from(scenarios: Seq<JsonView>, i: int) -> Option<JsonView>
    decreases scenarios.len() - i,
{
    if i < 0 || i >= scenarios.len() {
        None
    } else if is_xcode(scenarios[i]) {
        Some(scenarios[i])
    } else {
        xcode_from(scenarios, i + 1)
    }
}

/// The first Xcode scenario of a document.
pub open spec fn xcode_scenario(v: JsonView) -> Option<JsonView> {
    match v.as_array() {
        Some(a) => xcode_from(a, 0),
        None => None,
    }
}

/// The text that the first Xcode scenario of a document holds under a key.
pub open spec fn scenario_field(v: JsonView, key: Seq<char>) -> Option<Seq<char>> {
    match xcode_scenario(v) {
        Some(s) => s.str_at(key),
        None => None,
    }
}

/// Whether a scenario is for the Xcode adapter.
fn for_xcode(scenario: &Json) -> (r: bool)
    ensures
        r == is_xcode(scenario@),
{
    match scenario.str_at("adapter") {
        Some(a) => str_eq(a, "Xcode"),
        None => false,
    }
}

/// The first Xcode scenario of a document.
pub fn find_scenario(v: &Json) -> (r: Option<&Json>)
    ensures
        match r {
            Some(s) => xcode_scenario(v@) == Some(s@),
            None => xcode_scenario(v@) is None,
        },
{
    let a = match v.as_array() {
        Some(a) => a,
        None => return None,
    };
    let ghost av = views_of(a@);
    let mut i: usize = 0;
    while i < a.len()
        invariant
            i <= a.len(),
            av == views_of(a@),
            v@.as_array() == Some(av),
            xcode_from(av, 0) == xcode_from(av, i as int),
        decreases a.len() - i,
    {
        assert(av[i as int] == a@[i as int]@);
        if for_xcode(&a[i]) {
            return Some(&a[i]);
        }
        i = i + 1;
    }
    None
}

/// The text that the first Xcode scenario of a document holds under a key.
pub fn find_field(v: &Json, key: &str) -> (r: Option<String>)
    ensures
        opt_view(r) == scenario_field(v@, key@),
{
    match find_scenario(v) {
        Some(s) => match s.str_at(key) {
            Some(t) => Some(owned(t)),
            None => None,
        },
        None => None,
    }
}

/// Best-effort text field of the first Xcode scenario in `.zed/debug.json`; other
/// adapters' scenarios, and later ones, are ignored.
pub fn debug_json_str(text: Option<&str>, key: &str) -> (r: Option<String>)
    ensures
        opt_view(r) == match text {
            Some(t) => match jsonc_value(t@) {
                Some(v) => scenario_field(v, key@),
                None => None,
            },
            None => None,
        },
{
    match text {
        Some(t) => match parse_jsonc(t) {
            Ok(v) => find_field(&v, key),
            Err(_) => None,
        },
        None => None,
    }
}

/// A path of `.zed/debug.json` with its `$ZED_WORKTREE_ROOT` filled in: stripped
/// at the start, the project directory elsewhere.
pub open spec fn worktree_text(value: Seq<char>, project: Seq<char>) -> Seq<char> {
    if has_prefix(value, "$ZED_WORKTREE_ROOT/"@) {
        value.skip("$ZED_WORKTREE_ROOT/"@.len() as int)
    } else {
        replaced(value, "$ZED_WORKTREE_ROOT"@, project)
    }
}

/// A path of `.zed/debug.json` with its `$ZED_WORKTREE_ROOT` filled in.
pub fn fill_worktree_root(value: &str, project: &str) -> (r: String)
    ensures
        r@ == worktree_text(value@, project@),
{
    let cs = chars_of(value);
    proof {
        reveal_strlit("$ZED_WORKTREE_ROOT/");
        reveal_strlit("$ZED_WORKTREE_ROOT");
    }
    if starts_with(cs.as_slice(), "$ZED_WORKTREE_ROOT/") {
        let r = string_of(cs.as_slice(), 19, cs.len());
        assert(r@ =~= value@.skip(19));
        r
    } else {
        replace_text(value, "$ZED_WORKTREE_ROOT", project)
    }
}

/// Expand a `$ZED_WORKTREE_ROOT`-templated path of `.zed/debug.json` against the
/// project directory. A result that is still relative is anchored to the
/// project, never to the working directory.
pub fn expand_worktree_root(value: &str, project: &str) -> (r: String)
    ensures
        r@ == joined(project@, worktree_text(value@, project@)),
{
    let expanded = fill_worktree_root(value, project);
    join(project, expanded.as_str())
}

/// An expanded path is absolute wherever the project directory is.
pub proof fn lemma_expanded_absolute(value: Seq<char>, project: Seq<char>)
    requires
        is_absolute_path(project),
    ensures
        is_absolute_path(joined(project, worktree_text(value, project))),
{
}

} // verus!
