//! `refresh`: re-run the preflight of `.zed/debug.json` and regenerate
//! buildServer.json.

use crate::commands::scenario::expand_worktree_root;
use crate::commands::scenario::fill_worktree_root;
use crate::commands::scenario::find_scenario;
use crate::commands::scenario::worktree_text;
use crate::commands::scenario::xcode_scenario;
use crate::json::Json;
use crate::json::JsonView;
use crate::setup::build_server::Regen;
use crate::setup::jsonc::jsonc_parsed;
use crate::setup::jsonc::parse_jsonc;
use crate::text::in_context;
use crate::text::opt_str_view;
use crate::text::opt_view;
use crate::text::owned;
use crate::text::with_context;
use crate::util::paths::joined;
use vstd::prelude::*;

verus! {

/// What a refresh works with.
#[derive(Debug)]
pub struct RefreshPlan {
    pub workspace: Option<String>,
    pub scheme: Option<String>,
    pub derived_data: Option<String>,
    pub preflight: Option<String>,
}

/// The mathematical value of a [`RefreshPlan`].
pub struct RefreshView {
    pub workspace: Option<Seq<char>>,
    pub scheme: Option<Seq<char>>,
    pub derived_data: Option<Seq<char>>,
    pub preflight: Option<Seq<char>>,
}

impl View for RefreshPlan {
    type V = RefreshView;

    open spec fn view(&self) -> RefreshView {
        RefreshView {
            workspace: opt_view(self.workspace),
            scheme: opt_view(self.scheme),
            derived_data: opt_view(self.derived_data),
            preflight: opt_view(self.preflight),
        }
    }
}

/// What a refresh works with: the selected scheme wins over the scenario's, and
/// paths are filled in from the project directory.
pub open spec fn refresh_of(
    scenario: JsonView,
    dir: Seq<char>,
    selected: Option<Seq<char>>,
) -> RefreshView {
    RefreshView {
        workspace: match scenario.str_at("workspace"@) {
            Some(w) => Some(worktree_text(w, dir)),
            None => None,
        },
        scheme: match selected {
            Some(s) => Some(s),
            None => scenario.str_at("scheme"@),
        },
        derived_data: match scenario.str_at("derivedData"@) {
            Some(d) => Some(joined(dir, worktree_text(d, dir))),
            None => None,
        },
        preflight: scenario.str_at("preflight"@),
    }
}

/// A text that may be absent, owned.
pub fn own_opt(o: Option<&str>) -> (r: Option<String>)
    ensures
        opt_view(r) == opt_str_view(o),
{
    match o {
        Some(s) => Some(owned(s)),
        None => None,
    }
}

/// What a refresh works with, out of a document.
pub fn plan_refresh(v: &Json, dir: &str, selected: Option<&str>) -> (r: Option<RefreshPlan>)
    ensures
        match xcode_scenario(v@) {
            Some(s) => r matches Some(p) && p@ == refresh_of(s, dir@, opt_str_view(selected)),
            None => r is None,
        },
{
    match find_scenario(v) {
        Some(s) => {
            let workspace = match s.str_at("workspace") {
                Some(w) => Some(fill_worktree_root(w, dir)),
                None => None,
            };
            let scheme = match selected {
                Some(x) => Some(owned(x)),
                None => own_opt(s.str_at("scheme")),
            };
            let derived_data = match s.str_at("derivedData") {
                Some(d) => Some(expand_worktree_root(d, dir)),
                None => None,
            };
            let preflight = own_opt(s.str_at("preflight"));
            Some(RefreshPlan { workspace, scheme, derived_data, preflight })
        },
        None => None,
    }
}

/// What a refresh works with, out of the text of `.zed/debug.json`.
pub fn read_refresh(text: &str, dir: &str, selected: Option<&str>) -> (r: Result<
    RefreshPlan,
    String,
>)
    ensures
        match jsonc_parsed(text@) {
            Ok(v) => match xcode_scenario(v) {
                Some(s) => r matches Ok(p) && p@ == refresh_of(s, dir@, opt_str_view(selected)),
                None => r matches Err(e) && e@
                    == "no \"Xcode\" scenario found in .zed/debug.json"@,
            },
            Err(e) => r matches Err(m) && m@ == in_context(
                ".zed/debug.json is not valid JSONC"@,
                e,
            ),
        },
{
    match parse_jsonc(text) {
        Ok(v) => match plan_refresh(&v, dir, selected) {
            Some(p) => Ok(p),
            None => Err(owned("no \"Xcode\" scenario found in .zed/debug.json")),
        },
        Err(e) => Err(with_context(".zed/debug.json is not valid JSONC", e.as_str())),
    }
}

/// What a refresh says of `buildServer.json`.
pub open spec fn refreshed_text(regen: Regen, workspace: Seq<char>) -> Seq<char> {
    match regen {
        Regen::Written(_) => "\u{2713} buildServer.json refreshed"@,
        Regen::MissingWorkspace => "! workspace "@ + workspace
            + " does not exist yet \u{2014} run `xcode-dap refresh` after the project is generated"@,
        Regen::Failed(e) => "\u{2717} buildServer.json refresh failed: "@ + e@,
    }
}

/// What a refresh says of `buildServer.json`.
pub fn refreshed(regen: &Regen, workspace: &str) -> (r: String)
    ensures
        r@ == refreshed_text(*regen, workspace@),
{
    match regen {
        Regen::Written(_) => owned("\u{2713} buildServer.json refreshed"),
        Regen::MissingWorkspace => {
            let mut r = owned("! workspace ");
            r.append(workspace);
            r.append(
                " does not exist yet \u{2014} run `xcode-dap refresh` after the project is generated",
            );
            r
        },
        Regen::Failed(e) => {
            let mut r = owned("\u{2717} buildServer.json refresh failed: ");
            r.append(e.as_str());
            r
        },
    }
}

} // verus!
