//! What the commands make of their arguments, of the project's scenario and of the
//! user's choice.

use crate::commands::build_args::config_of_args;
use crate::commands::build_args::exit_code_of;
use crate::commands::build_args::BuildArgs;
use crate::commands::clean::config_of_clean;
use crate::commands::clean::CleanArgs;
use crate::commands::console::is_latest;
use crate::commands::console::last_written;
use crate::commands::console::RunDir;
use crate::commands::refresh::refresh_of;
use crate::commands::run::pump_predicate;
use crate::commands::scenario::is_xcode;
use crate::commands::scenario::scenario_field;
use crate::commands::scenario::worktree_text;
use crate::commands::scenario::xcode_from;
use crate::commands::scenario::xcode_scenario;
use crate::commands::setup::agrees;
use crate::commands::setup::checked_args;
use crate::commands::setup::SetupArgs;
use crate::engine::config::BuildOutput;
use crate::engine::config::ConfigView;
use crate::engine::pipeline::PipelineError;
use crate::engine::selection::description;
use crate::engine::selection::destination_text;
use crate::engine::selection::first_among;
use crate::engine::selection::overlaid_config;
use crate::engine::selection::upward;
use crate::engine::selection::SelectionView;
use crate::engine::xcodebuild::build_words;
use crate::engine::xcodebuild::clean_words;
use crate::engine::xcodebuild_laws::lemma_build_command;
use crate::engine::xcodebuild_laws::lemma_clean_command;
use crate::engine::xcodebuild_laws::lemma_options_passed;
use crate::engine::xcodebuild_laws::options_end;
use crate::engine::xcodebuild_laws::passes_flag;
use crate::json::JsonView;
use crate::text::has_infix;
use crate::text::has_prefix;
use crate::text::occurs_at;
use crate::text::opt_view;
use crate::text::replaced;
use crate::text::trimmed;
use crate::util::paths::joined;
use crate::util::paths::lemma_parent_shorter;
use crate::util::paths::parent_of;
use crate::util::paths::stem_of;
use vstd::prelude::*;

verus! {

// ---------------------------------------------------------------------------
// build, run and clean
// ---------------------------------------------------------------------------

/// Every argument of a build reaches its configuration, and nothing else is set in it.
pub proof fn lemma_build_args_kept(a: BuildArgs)
    ensures
        ({
            let c = config_of_args(a);
            &&& c.workspace == a.workspace@
            &&& c.scheme == a.scheme@
            &&& c.device == opt_view(a.device)
            &&& c.os == opt_view(a.os)
            &&& c.configuration == opt_view(a.configuration)
            &&& c.derived_data == opt_view(a.derived_data)
            &&& c.oslog == a.oslog
            &&& c.oslog_predicate == opt_view(a.oslog_predicate)
            &&& a.full_output <==> c.build_output == BuildOutput::Full
            &&& c.terminate_on_stop
            &&& c.preflight is None
            &&& !c.verbose_logging
        }),
{
}

/// What was asked for on the command line is what xcodebuild is told: the container, the
/// scheme, the configuration and the DerivedData, for the simulator.
pub proof fn lemma_asked_is_built(a: BuildArgs, udid: Seq<char>)
    ensures
        ({
            let words = build_words(config_of_args(a), udid);
            &&& words[1] == a.workspace@
            &&& passes_flag(words, "-scheme"@, a.scheme@)
            &&& a.configuration matches Some(c) ==> passes_flag(words, "-configuration"@, c@)
            &&& a.derived_data matches Some(d) ==> passes_flag(words, "-derivedDataPath"@, d@)
            &&& passes_flag(words, "-destination"@, "platform=iOS Simulator,id="@ + udid)
            &&& words.last() == "build"@
        }),
{
    let c = config_of_args(a);
    lemma_build_command(c, udid);
    lemma_options_passed(c, udid);
    let n = options_end(c.configuration, c.derived_data);
    assert(build_words(c, udid)[n] == "-destination"@);
}

/// What was asked for is what is cleaned, and no more is said than for a build of the same.
pub proof fn lemma_asked_is_cleaned(a: CleanArgs)
    ensures
        ({
            let c = config_of_clean(a);
            let words = clean_words(c);
            &&& words[1] == a.workspace@
            &&& passes_flag(words, "-scheme"@, a.scheme@)
            &&& a.configuration matches Some(x) ==> passes_flag(words, "-configuration"@, x@)
            &&& a.derived_data matches Some(d) ==> passes_flag(words, "-derivedDataPath"@, d@)
            &&& words.last() == "clean"@
            &&& c.device is None && c.os is None && c.preflight is None && !c.oslog
        }),
{
    let c = config_of_clean(a);
    lemma_clean_command(c);
    lemma_options_passed(c, Seq::empty());
}

/// A failed build ends the command with xcodebuild's own exit code; any other failure ends
/// it with 1.
pub proof fn lemma_exit_codes(err: PipelineError)
    ensures
        err matches PipelineError::Build(b) ==> exit_code_of(err) == b.code,
        err is Other ==> exit_code_of(err) == 1,
{
}

/// The log of a run is shown exactly where it is asked for: by the given predicate, else
/// by one that names the app.
pub proof fn lemma_run_log(cfg: ConfigView, bundle_id: Seq<char>, app: Seq<char>)
    ensures
        ({
            let p = pump_predicate(cfg, bundle_id, app);
            &&& p is Some <==> cfg.oslog
            &&& cfg.oslog && cfg.oslog_predicate is Some ==> p == cfg.oslog_predicate
            &&& cfg.oslog && cfg.oslog_predicate is None && stem_of(app) is Some ==> p == Some(
                "subsystem == \""@ + bundle_id + "\" OR senderImagePath CONTAINS \"/"@ + stem_of(
                    app,
                )->0 + ".app/\""@,
            )
        }),
{
}

// ---------------------------------------------------------------------------
// the user's choice
// ---------------------------------------------------------------------------

/// A chosen scheme or device replaces the scenario's, and a chosen device its OS as well;
/// what was not chosen, and everything else, stays as the scenario has it.
pub proof fn lemma_choice_overrides(cfg: ConfigView, sel: SelectionView)
    ensures
        ({
            let c = overlaid_config(cfg, sel);
            &&& sel.scheme matches Some(s) ==> c.scheme == s
            &&& sel.scheme is None ==> c.scheme == cfg.scheme
            &&& sel.device is Some ==> c.device == sel.device && c.os == sel.os
            &&& sel.device is None ==> c.device == cfg.device
            &&& sel.device is None && sel.os is Some ==> c.os == sel.os
            &&& sel.device is None && sel.os is None ==> c.os == cfg.os
            &&& c.workspace == cfg.workspace
            &&& c.configuration == cfg.configuration
            &&& c.preflight == cfg.preflight
            &&& c.oslog == cfg.oslog
            &&& c.oslog_predicate == cfg.oslog_predicate
            &&& c.terminate_on_stop == cfg.terminate_on_stop
            &&& c.build_output == cfg.build_output
            &&& c.verbose_logging == cfg.verbose_logging
            &&& c.derived_data == cfg.derived_data
        }),
{
}

/// What is about to run is said with its scheme and its destination.
pub proof fn lemma_choice_described(cfg: ConfigView)
    ensures
        ({
            let d = description(cfg, false);
            let head = "Scheme: "@ + cfg.scheme + " | Destination: "@;
            &&& cfg.device matches Some(x) ==> cfg.os is None ==> d == head + x
            &&& cfg.device matches Some(x) ==> cfg.os matches Some(o) ==> d == head + (x
                + " (iOS "@ + o + ")"@)
            &&& cfg.device is None && cfg.os is None ==> d == head
                + "auto (booted iPhone, else newest)"@
            &&& description(cfg, true) == d + " (from selection)"@
        }),
{
    reveal_strlit("");
    let head = "Scheme: "@ + cfg.scheme + " | Destination: "@;
    let t = destination_text(cfg.device, cfg.os);
    assert(head + t + ""@ =~= head + t);
    assert(description(cfg, true) =~= description(cfg, false) + " (from selection)"@);
}

/// The project of a directory is the nearest one above it that has a `.zed`, itself
/// included.
pub proof fn lemma_nearest_project(dirs: Seq<Seq<char>>, list: Seq<Seq<char>>, i: int)
    requires
        0 <= i,
    ensures
        match first_among(dirs, list, i) {
            Some(d) => exists|k: int|
                i <= k < dirs.len() && #[trigger] dirs[k] == d && list.contains(d) && forall|j: int|
                    i <= j < k ==> !list.contains(#[trigger] dirs[j]),
            None => forall|j: int| i <= j < dirs.len() ==> !list.contains(#[trigger] dirs[j]),
        },
    decreases dirs.len() - i,
{
    if i < dirs.len() && !list.contains(dirs[i]) {
        lemma_nearest_project(dirs, list, i + 1);
        if let Some(d) = first_among(dirs, list, i + 1) {
            let k = choose|k: int|
                i + 1 <= k < dirs.len() && #[trigger] dirs[k] == d && list.contains(d)
                    && forall|j: int| i + 1 <= j < k ==> !list.contains(#[trigger] dirs[j]);
            assert(dirs[k] == d);
        }
    }
}

/// The directories that are looked at are the given one and then each one's parent.
pub proof fn lemma_upward(dir: Seq<char>)
    ensures
        upward(dir).len() > 0,
        upward(dir)[0] == dir,
        parent_of(dir) is None ==> upward(dir).len() == 1,
        parent_of(dir) matches Some(p) ==> upward(dir).drop_first() == upward(p),
{
    lemma_parent_shorter(dir);
    if let Some(p) = parent_of(dir) {
        assert((seq![dir] + upward(p)).drop_first() =~= upward(p));
    }
}

// ---------------------------------------------------------------------------
// the scenario
// ---------------------------------------------------------------------------

/// The scenario that counts is the first one of the Xcode adapter.
pub proof fn lemma_first_scenario(scenarios: Seq<JsonView>, i: int)
    requires
        0 <= i,
    ensures
        match xcode_from(scenarios, i) {
            Some(s) => exists|k: int|
                i <= k < scenarios.len() && #[trigger] scenarios[k] == s && s.str_at("adapter"@)
                    == Some("Xcode"@) && forall|j: int|
                    i <= j < k ==> (#[trigger] scenarios[j]).str_at("adapter"@) != Some("Xcode"@),
            None => forall|j: int|
                i <= j < scenarios.len() ==> (#[trigger] scenarios[j]).str_at("adapter"@) != Some(
                    "Xcode"@,
                ),
        },
    decreases scenarios.len() - i,
{
    if i < scenarios.len() && !is_xcode(scenarios[i]) {
        lemma_first_scenario(scenarios, i + 1);
        if let Some(s) = xcode_from(scenarios, i + 1) {
            let k = choose|k: int|
                i + 1 <= k < scenarios.len() && #[trigger] scenarios[k] == s && s.str_at(
                    "adapter"@,
                ) == Some("Xcode"@) && forall|j: int|
                    i + 1 <= j < k ==> (#[trigger] scenarios[j]).str_at("adapter"@) != Some(
                        "Xcode"@,
                    );
            assert(scenarios[k] == s);
        }
    }
}

/// A key of the project is that of this scenario.
pub proof fn lemma_scenario_fields(v: JsonView, key: Seq<char>)
    ensures
        xcode_scenario(v) matches Some(s) ==> scenario_field(v, key) == s.str_at(key),
        xcode_scenario(v) is None ==> scenario_field(v, key) is None,
        v matches JsonView::Array(a) ==> xcode_scenario(v) == xcode_from(a, 0),
        !(v is Array) ==> xcode_scenario(v) is None,
{
}

/// A refresh works on what the scenario names: its workspace, its DerivedData and its
/// preflight, and its scheme unless another one was chosen.
pub proof fn lemma_refresh_reads(
    scenario: JsonView,
    dir: Seq<char>,
    selected: Option<Seq<char>>,
)
    ensures
        ({
            let r = refresh_of(scenario, dir, selected);
            &&& selected is Some ==> r.scheme == selected
            &&& selected is None ==> r.scheme == scenario.str_at("scheme"@)
            &&& r.preflight == scenario.str_at("preflight"@)
            &&& r.workspace is Some <==> scenario.str_at("workspace"@) is Some
            &&& scenario.str_at("workspace"@) matches Some(w) ==> r.workspace == Some(
                worktree_text(w, dir),
            )
            &&& r.derived_data is Some <==> scenario.str_at("derivedData"@) is Some
            &&& scenario.str_at("derivedData"@) matches Some(d) ==> r.derived_data == Some(
                joined(dir, worktree_text(d, dir)),
            )
        }),
{
}

/// Text without a pattern is not changed by replacing it.
proof fn lemma_nothing_to_replace(s: Seq<char>, p: Seq<char>, q: Seq<char>)
    requires
        p.len() > 0,
        !has_infix(s, p),
    ensures
        replaced(s, p, q) == s,
    decreases s.len(),
{
    if s.len() > 0 {
        assert(!occurs_at(s, p, 0));
        let t = s.skip(1);
        assert forall|i: int| !occurs_at(t, p, i) by {
            if occurs_at(t, p, i) {
                assert(s.subrange(i + 1, i + 1 + p.len()) =~= t.subrange(i, i + p.len()));
                assert(occurs_at(s, p, i + 1));
            }
        }
        lemma_nothing_to_replace(t, p, q);
        assert(seq![s[0]] + t =~= s);
    }
}

/// A path below the worktree is taken relative to it, whatever stands behind; a path
/// without the variable stays as it is, and the variable alone is the project.
pub proof fn lemma_worktree(rest: Seq<char>, project: Seq<char>, value: Seq<char>)
    ensures
        worktree_text("$ZED_WORKTREE_ROOT/"@ + rest, project) == rest,
        worktree_text("$ZED_WORKTREE_ROOT"@, project) == project,
        !has_infix(value, "$ZED_WORKTREE_ROOT"@) ==> worktree_text(value, project) == value,
{
    reveal_strlit("$ZED_WORKTREE_ROOT/");
    reveal_strlit("$ZED_WORKTREE_ROOT");
    let p = "$ZED_WORKTREE_ROOT/"@;
    let v = "$ZED_WORKTREE_ROOT"@;
    let n = p.len() as int;
    let m = v.len() as int;
    assert((p + rest).subrange(0, n) =~= p);
    assert((p + rest).skip(n) =~= rest);
    assert(!has_prefix(v, p));
    assert(v.subrange(0, m) =~= v);
    assert(has_prefix(v, v));
    assert(v.skip(m) =~= Seq::<char>::empty());
    assert(project + Seq::<char>::empty() =~= project);
    reveal_with_fuel(replaced, 2);
    if !has_infix(value, v) {
        lemma_nothing_to_replace(value, v, project);
        if has_prefix(value, p) {
            assert(value.subrange(0, m) =~= v) by {
                assert(value.subrange(0, n).subrange(0, m) =~= value.subrange(0, m));
                assert(p.subrange(0, m) =~= v);
            }
            assert(occurs_at(value, v, 0));
        }
    }
}

// ---------------------------------------------------------------------------
// setup and console
// ---------------------------------------------------------------------------

/// A setup needs something to set up; what it removes are the user's blocks, never a
/// project's files; and options of a project without one are said to be ignored.
pub proof fn lemma_setup_checks(a: SetupArgs)
    ensures
        ({
            let r = checked_args(a);
            let for_project = a.workspace is Some || a.scheme is Some || a.device is Some || a.os
                is Some || a.preflight is Some || a.oslog || a.derived_data is Some;
            &&& r is Err <==> (!a.user && a.project is None) || (a.remove && a.project is Some)
            &&& r matches Ok(w) ==> (w is Some <==> a.project is None && for_project)
        }),
{
}

/// Only a plain yes is a yes.
pub proof fn lemma_answers(answer: Seq<char>)
    ensures
        agrees(answer) <==> trimmed(answer) == "y"@ || trimmed(answer) == "Y"@ || trimmed(answer)
            == "yes"@ || trimmed(answer) == "YES"@,
        trimmed(answer).len() == 0 ==> !agrees(answer),
{
    reveal_strlit("y");
    reveal_strlit("Y");
    reveal_strlit("yes");
    reveal_strlit("YES");
}

/// The console shows the run whose capture files were written last: of the two files of a
/// run the later one counts, and of runs of one time the first.
pub proof fn lemma_latest_run(dirs: Seq<RunDir>, n: int, k: int, i: int)
    requires
        0 <= n <= dirs.len(),
        is_latest(dirs, n, k),
        0 <= i < n,
    ensures
        dirs[i].stdout_mtime matches Some(t) ==> last_written(dirs[k])->0 >= t,
        dirs[i].stderr_mtime matches Some(t) ==> last_written(dirs[k])->0 >= t,
        last_written(dirs[k]) == dirs[k].stdout_mtime || last_written(dirs[k])
            == dirs[k].stderr_mtime,
        dirs[k].stdout_mtime is Some || dirs[k].stderr_mtime is Some,
{
}

/// What a clean does not ask for is as in any other run.
pub proof fn lemma_clean_asks_nothing_else(a: CleanArgs)
    ensures
        config_of_clean(a).oslog_predicate is None,
        config_of_clean(a).terminate_on_stop,
        config_of_clean(a).build_output == BuildOutput::Filtered,
        !config_of_clean(a).verbose_logging,
        config_of_clean(a).workspace == a.workspace@,
        config_of_clean(a).scheme == a.scheme@,
        config_of_clean(a).configuration == opt_view(a.configuration),
        config_of_clean(a).derived_data == opt_view(a.derived_data),
{
}

} // verus!
