//! What the files that a setup writes say, and to whom.

use crate::bsp::server::config_of;
use crate::bsp::server_laws::lists_texts;
use crate::commands::command_laws::lemma_worktree;
use crate::commands::scenario::jsonc_value;
use crate::commands::scenario::worktree_text;
use crate::commands::scenario::xcode_scenario;
use crate::commands::select::containers;
use crate::commands::select::ios_version;
use crate::engine::xcodebuild_laws::passes_flag;
use crate::json::lemma_member_at;
use crate::json::serde_parse;
use crate::json::JsonView;
use crate::order::numbers_rank;
use crate::setup::build_server::hint_needed;
use crate::setup::build_server::is_foreign;
use crate::setup::build_server::needs_backup;
use crate::setup::build_server::server_change;
use crate::setup::build_server::server_document;
use crate::setup::build_server::Change;
use crate::setup::exclude::names_target;
use crate::setup::exclude::one_names;
use crate::setup::exclude::with_line;
use crate::setup::project::all_schemes;
use crate::setup::project::booted_from;
use crate::setup::project::build_task_args;
use crate::setup::project::choosable;
use crate::setup::project::choosable_kind;
use crate::setup::project::clean_task_args;
use crate::setup::project::debug_json_text;
use crate::setup::project::derived_data_from;
use crate::setup::project::generated_head;
use crate::setup::project::has_project_rule;
use crate::setup::project::is_container_choice;
use crate::setup::project::is_listing_choice;
use crate::setup::project::is_newest_phone;
use crate::setup::project::is_plain;
use crate::setup::project::is_plain_char;
use crate::setup::project::is_project_rule;
use crate::setup::project::is_sim_choice;
use crate::setup::project::json_text;
use crate::setup::project::json_texts;
use crate::setup::project::kept_derived_data;
use crate::setup::project::kept_oslog;
use crate::setup::project::only_scheme;
use crate::setup::project::opted_in;
use crate::setup::project::oslog_from;
use crate::setup::project::oslog_of;
use crate::setup::project::quoted;
use crate::setup::project::resolved;
use crate::setup::project::scenario_member;
use crate::setup::project::scenario_workspace;
use crate::setup::project::suggested_preflight;
use crate::setup::project::task_text;
use crate::setup::project::tasks_json_text;
use crate::setup::project::usable_of;
use crate::setup::project::usables_of;
use crate::setup::project::usables_upto;
use crate::setup::project::version_numbers;
use crate::setup::project::FlagsView;
use crate::setup::project::ProjectView;
use crate::setup::project::UsableView;
use crate::text::has_infix;
use crate::text::has_prefix;
use crate::text::has_suffix;
use crate::text::joined_with;
use crate::text::lines_of;
use crate::text::occurs_at;
use crate::text::split_on;
use crate::text::trimmed;
use vstd::prelude::*;

verus! {

// ---------------------------------------------------------------------------
// buildServer.json
// ---------------------------------------------------------------------------

/// `buildServer.json` has the language server start this program as its build server, and
/// tells that server the workspace, the scheme and the build root that it is for.
pub proof fn lemma_server_file_reads(
    exe: Seq<char>,
    version: Seq<char>,
    workspace: Seq<char>,
    scheme: Seq<char>,
    build_root: Seq<char>,
)
    ensures
        ({
            let v = server_document(exe, version, workspace, scheme, build_root);
            &&& lists_texts(v.get("argv"@), seq![exe, "bsp"@])
            &&& v.str_at("bspVersion"@) == Some("2.2.0"@)
            &&& v.str_at("build_root"@) == Some(build_root)
            &&& v.str_at("kind"@) == Some("xcode"@)
            &&& lists_texts(
                v.get("languages"@),
                seq!["c"@, "cpp"@, "objective-c"@, "objective-cpp"@, "swift"@],
            )
            &&& v.str_at("name"@) == Some("xcode-dap"@)
            &&& v.str_at("scheme"@) == Some(scheme)
            &&& v.str_at("version"@) == Some(version)
            &&& v.str_at("workspace"@) == Some(workspace)
        }),
{
    reveal_strlit("argv");
    reveal_strlit("bspVersion");
    reveal_strlit("build_root");
    reveal_strlit("kind");
    reveal_strlit("languages");
    reveal_strlit("name");
    reveal_strlit("scheme");
    reveal_strlit("version");
    reveal_strlit("workspace");
    assert("argv"@.len() != "bspVersion"@.len());
    assert("argv"@.len() != "build_root"@.len());
    assert("argv"@[0] != "kind"@[0]);
    assert("argv"@.len() != "languages"@.len());
    assert("argv"@[0] != "name"@[0]);
    assert("argv"@.len() != "scheme"@.len());
    assert("argv"@.len() != "version"@.len());
    assert("argv"@.len() != "workspace"@.len());
    assert("bspVersion"@[1] != "build_root"@[1]);
    assert("bspVersion"@.len() != "kind"@.len());
    assert("bspVersion"@.len() != "languages"@.len());
    assert("bspVersion"@.len() != "name"@.len());
    assert("bspVersion"@.len() != "scheme"@.len());
    assert("bspVersion"@.len() != "version"@.len());
    assert("bspVersion"@.len() != "workspace"@.len());
    assert("build_root"@.len() != "kind"@.len());
    assert("build_root"@.len() != "languages"@.len());
    assert("build_root"@.len() != "name"@.len());
    assert("build_root"@.len() != "scheme"@.len());
    assert("build_root"@.len() != "version"@.len());
    assert("build_root"@.len() != "workspace"@.len());
    assert("kind"@.len() != "languages"@.len());
    assert("kind"@[0] != "name"@[0]);
    assert("kind"@.len() != "scheme"@.len());
    assert("kind"@.len() != "version"@.len());
    assert("kind"@.len() != "workspace"@.len());
    assert("languages"@.len() != "name"@.len());
    assert("languages"@.len() != "scheme"@.len());
    assert("languages"@.len() != "version"@.len());
    assert("languages"@[0] != "workspace"@[0]);
    assert("name"@.len() != "scheme"@.len());
    assert("name"@.len() != "version"@.len());
    assert("name"@.len() != "workspace"@.len());
    assert("scheme"@.len() != "version"@.len());
    assert("scheme"@.len() != "workspace"@.len());
    assert("version"@.len() != "workspace"@.len());
    let ms = server_document(exe, version, workspace, scheme, build_root)->Object_0;
    lemma_member_at(ms, 0, "argv"@);
    lemma_member_at(ms, 1, "bspVersion"@);
    lemma_member_at(ms, 2, "build_root"@);
    lemma_member_at(ms, 3, "kind"@);
    lemma_member_at(ms, 4, "languages"@);
    lemma_member_at(ms, 5, "name"@);
    lemma_member_at(ms, 6, "scheme"@);
    lemma_member_at(ms, 7, "version"@);
    lemma_member_at(ms, 8, "workspace"@);
}

/// What the setup writes is what the build server reads back: the same build root, scheme
/// and workspace.
pub proof fn lemma_server_file_configures(
    exe: Seq<char>,
    version: Seq<char>,
    workspace: Seq<char>,
    scheme: Seq<char>,
    build_root: Seq<char>,
    bytes: Seq<u8>,
)
    requires
        serde_parse(bytes) == Ok::<JsonView, Seq<char>>(
            server_document(exe, version, workspace, scheme, build_root),
        ),
    ensures
        config_of(Some(bytes)).build_root == Some(build_root),
        config_of(Some(bytes)).scheme == Some(scheme),
        config_of(Some(bytes)).workspace == Some(workspace),
{
    lemma_server_file_reads(exe, version, workspace, scheme, build_root);
}

/// A server file is another program's where it has a name, which is not ours, and is not of
/// our kind; only such a file is kept beside the new one.
pub proof fn lemma_foreign_files(v: JsonView, bytes: Seq<u8>)
    ensures
        is_foreign(v) <==> v.str_at("name"@) is Some && v.str_at("name"@) != Some("xcode-dap"@)
            && v.str_at("kind"@) != Some("xcode"@),
        needs_backup(Some(bytes)) <==> (serde_parse(bytes) matches Ok(d) && is_foreign(d)),
        !needs_backup(None),
{
}

/// A file that was not there is created, one that holds the same bytes is not touched, and
/// any other is changed.
pub proof fn lemma_file_changes(previous: Seq<u8>, content: Seq<u8>)
    ensures
        server_change(None, content) == Change::Created,
        server_change(Some(content), content) == Change::Unchanged,
        previous != content ==> server_change(Some(previous), content) == Change::Changed,
{
}

/// The language server has to be restarted where the file is new, and where its command or
/// its build root changes; a change of anything else does not matter.
pub proof fn lemma_restart_hints(
    previous: Option<Seq<u8>>,
    current: Seq<u8>,
    p: JsonView,
    c: JsonView,
)
    requires
        serde_parse(current) == Ok::<JsonView, Seq<char>>(c),
        previous matches Some(b) ==> serde_parse(b) == Ok::<JsonView, Seq<char>>(p),
    ensures
        previous is None ==> hint_needed(previous, Some(current)),
        previous is Some && p.str_at("build_root"@) != c.str_at("build_root"@) ==> hint_needed(
            previous,
            Some(current),
        ),
        previous is Some && p.str_at("build_root"@) == c.str_at("build_root"@) && p.get("argv"@)
            == c.get("argv"@) ==> !hint_needed(previous, Some(current)),
{
}

// ---------------------------------------------------------------------------
// the project's configuration
// ---------------------------------------------------------------------------

/// A flag always wins; what was not given is detected, or kept as the scenario has it: a
/// switch that was on stays on, and a DerivedData stays. An empty preflight is none.
pub proof fn lemma_flags_win(
    flags: FlagsView,
    workspace: Seq<char>,
    scheme: Seq<char>,
    detected: (Seq<char>, Option<Seq<char>>),
    makefile: Option<Seq<char>>,
    debug_json: Option<Seq<char>>,
)
    ensures
        ({
            let c = resolved(flags, workspace, scheme, detected, makefile, debug_json);
            &&& c.workspace == workspace
            &&& c.scheme == scheme
            &&& flags.device matches Some(d) ==> c.device == d && c.os == flags.os
            &&& flags.device is None ==> c.device == detected.0
            &&& flags.device is None && flags.os is Some ==> c.os == flags.os
            &&& flags.device is None && flags.os is None ==> c.os == detected.1
            &&& flags.preflight matches Some(p) ==> (trimmed(p).len() > 0 ==> c.preflight == Some(
                p,
            )) && (trimmed(p).len() == 0 ==> c.preflight is None)
            &&& flags.preflight is None ==> c.preflight == suggested_preflight(makefile)
            &&& flags.oslog ==> c.oslog
            &&& kept_oslog(debug_json) ==> c.oslog
            &&& c.oslog ==> flags.oslog || kept_oslog(debug_json)
            &&& flags.derived_data is Some ==> c.derived_data == flags.derived_data
            &&& flags.derived_data is None ==> c.derived_data == kept_derived_data(debug_json)
        }),
{
}

/// The log switch of a project is that of the first scenario that sets it.
pub proof fn lemma_kept_switch(scenarios: Seq<JsonView>, i: int)
    requires
        0 <= i,
    ensures
        match oslog_from(scenarios, i) {
            Some(b) => exists|k: int|
                i <= k < scenarios.len() && (#[trigger] scenarios[k]).get("oslog"@) == Some(
                    JsonView::Bool(b),
                ) && forall|j: int|
                    i <= j < k ==> !(#[trigger] scenarios[j].get("oslog"@) matches Some(
                        JsonView::Bool(_),
                    )),
            None => forall|j: int|
                i <= j < scenarios.len() ==> !(#[trigger] scenarios[j].get("oslog"@) matches Some(
                    JsonView::Bool(_),
                )),
        },
    decreases scenarios.len() - i,
{
    if i < scenarios.len() {
        if let Some(JsonView::Bool(b)) = scenarios[i].get("oslog"@) {
            assert(oslog_from(scenarios, i) == Some(b));
        } else {
            lemma_kept_switch(scenarios, i + 1);
            if let Some(b) = oslog_from(scenarios, i + 1) {
                let k = choose|k: int|
                    i + 1 <= k < scenarios.len() && (#[trigger] scenarios[k]).get("oslog"@) == Some(
                        JsonView::Bool(b),
                    ) && forall|j: int|
                        i + 1 <= j < k ==> !(#[trigger] scenarios[j].get("oslog"@) matches Some(
                            JsonView::Bool(_),
                        ));
                assert(scenarios[k].get("oslog"@) == Some(JsonView::Bool(b)));
            }
        }
    }
}

/// The DerivedData of a project is that of the first scenario that names one.
pub proof fn lemma_kept_derived_data(scenarios: Seq<JsonView>, i: int)
    requires
        0 <= i,
    ensures
        match derived_data_from(scenarios, i) {
            Some(d) => exists|k: int|
                i <= k < scenarios.len() && (#[trigger] scenarios[k]).str_at("derivedData"@)
                    == Some(d) && forall|j: int|
                    i <= j < k ==> (#[trigger] scenarios[j]).str_at("derivedData"@) is None,
            None => forall|j: int|
                i <= j < scenarios.len() ==> (#[trigger] scenarios[j]).str_at("derivedData"@)
                    is None,
        },
    decreases scenarios.len() - i,
{
    if i < scenarios.len() && scenarios[i].str_at("derivedData"@) is None {
        lemma_kept_derived_data(scenarios, i + 1);
        if let Some(d) = derived_data_from(scenarios, i + 1) {
            let k = choose|k: int|
                i + 1 <= k < scenarios.len() && (#[trigger] scenarios[k]).str_at("derivedData"@)
                    == Some(d) && forall|j: int|
                    i + 1 <= j < k ==> (#[trigger] scenarios[j]).str_at("derivedData"@) is None;
            assert(scenarios[k].str_at("derivedData"@) == Some(d));
        }
    }
}

/// A Makefile suggests a preflight exactly where it has a rule for `project`; setting a
/// variable of that name is no rule.
pub proof fn lemma_suggested_preflight(makefile: Seq<char>, line: Seq<char>)
    ensures
        suggested_preflight(None) is None,
        suggested_preflight(Some(makefile)) matches Some(c) ==> c == "make project CI=true"@,
        suggested_preflight(Some(makefile)) is Some <==> has_project_rule(lines_of(makefile)),
        is_project_rule(line) ==> has_prefix(line, "project:"@) && !has_prefix(line, "project:="@)
            && !has_prefix(line, "project::="@),
        has_prefix(line, "project:"@) && !has_prefix(line, "project:="@) && !has_prefix(
            line,
            "project::="@,
        ) ==> is_project_rule(line),
{
}

/// A project uses the adapter where its build server file is there, or a scenario of the
/// Xcode adapter is.
pub proof fn lemma_opted_in(debug_json: Option<Seq<char>>)
    ensures
        opted_in(true, debug_json),
        opted_in(false, None) == false,
        debug_json matches Some(t) ==> (opted_in(false, debug_json) <==> (jsonc_value(
            t,
        ) matches Some(v) && xcode_scenario(v) is Some)),
{
}

/// A booted simulator is taken first.
pub proof fn lemma_booted_first(ds: Seq<UsableView>, i: int)
    requires
        0 <= i,
    ensures
        match booted_from(ds, i) {
            Some(d) => exists|k: int|
                i <= k < ds.len() && #[trigger] ds[k] == d && d.booted && forall|j: int|
                    i <= j < k ==> !(#[trigger] ds[j]).booted,
            None => forall|j: int| i <= j < ds.len() ==> !(#[trigger] ds[j]).booted,
        },
    decreases ds.len() - i,
{
    if i < ds.len() && !ds[i].booted {
        lemma_booted_first(ds, i + 1);
        if let Some(d) = booted_from(ds, i + 1) {
            let k = choose|k: int|
                i + 1 <= k < ds.len() && #[trigger] ds[k] == d && d.booted && forall|j: int|
                    i + 1 <= j < k ==> !(#[trigger] ds[j]).booted;
            assert(ds[k] == d);
        }
    }
}

/// Without a booted one, the iPhone of the newest iOS is taken.
pub proof fn lemma_newest_iphone(ds: Seq<UsableView>, k: int, j: int)
    requires
        is_newest_phone(ds, k),
        0 <= j < ds.len(),
        has_prefix(ds[j].name, "iPhone"@),
    ensures
        has_prefix(ds[k].name, "iPhone"@),
        !(numbers_rank(
            version_numbers(split_on(ds[j].os, '.')),
            version_numbers(split_on(ds[k].os, '.')),
        ) is After),
{
}

/// A simulator can be used where it is available and has a name.
pub proof fn lemma_usable(d: JsonView, os: Seq<char>)
    ensures
        usable_of(d, os) is Some <==> d.get("isAvailable"@) == Some(JsonView::Bool(true))
            && d.str_at("name"@) is Some && d.str_at("name"@)->0.len() > 0,
        usable_of(d, os) matches Some(u) ==> Some(u.name) == d.str_at("name"@) && u.os == os && (
        u.booted <==> d.str_at("state"@) == Some("Booted"@)),
{
}

/// The one scheme of a project needs not be named; with several one has to be.
pub proof fn lemma_only_scheme(v: JsonView, workspace: Seq<char>)
    ensures
        only_scheme(v, workspace) is Ok <==> all_schemes(v).len() == 1,
        only_scheme(v, workspace) matches Ok(s) ==> s == all_schemes(v)[0],
{
}

/// A workspace is taken before a project, and either only where it is the only one.
pub proof fn lemma_container_choice(
    dir: Seq<char>,
    names: Seq<Seq<char>>,
    r: Result<Seq<char>, Seq<char>>,
)
    requires
        is_container_choice(dir, names, r),
    ensures
        ({
            let ws = containers(names, true, names.len() as int);
            let ps = containers(names, false, names.len() as int);
            &&& ws.len() == 1 ==> r == Ok::<Seq<char>, Seq<char>>(ws[0])
            &&& ws.len() == 0 && ps.len() == 1 ==> r == Ok::<Seq<char>, Seq<char>>(ps[0])
            &&& ws.len() > 1 ==> r is Err
            &&& ws.len() == 0 && ps.len() != 1 ==> r is Err
        }),
{
}

/// The containers of a directory are its workspaces, or its projects that are no
/// workspaces.
pub proof fn lemma_containers_listed(names: Seq<Seq<char>>, n: int, k: int)
    requires
        0 <= n <= names.len(),
    ensures
        0 <= k < containers(names, true, n).len() ==> has_suffix(
            containers(names, true, n)[k],
            ".xcworkspace"@,
        ) && names.contains(containers(names, true, n)[k]),
        0 <= k < containers(names, false, n).len() ==> has_suffix(
            containers(names, false, n)[k],
            ".xcodeproj"@,
        ) && names.contains(containers(names, false, n)[k]),
        0 <= k < n && has_suffix(names[k], ".xcworkspace"@) ==> containers(names, true, n).contains(
            names[k],
        ),
    decreases n,
{
    if n > 0 {
        let a = containers(names, true, n - 1);
        let b = containers(names, false, n - 1);
        lemma_containers_listed(names, n - 1, k);
        assert(names.contains(names[n - 1]));
        let now = containers(names, true, n);
        if 0 <= k < n && has_suffix(names[k], ".xcworkspace"@) {
            if k == n - 1 {
                assert(now[a.len() as int] == names[k]);
            } else {
                let at = choose|at: int| 0 <= at < a.len() && a[at] == names[k];
                assert(now[at] == names[k]);
            }
        }
    }
}

// ---------------------------------------------------------------------------
// .zed/debug.json and .zed/tasks.json
// ---------------------------------------------------------------------------

/// A text between two others occurs in the whole.
proof fn lemma_between(a: Seq<char>, m: Seq<char>, b: Seq<char>)
    ensures
        has_infix(a + m + b, m),
{
    let s = a + m + b;
    let i = a.len() as int;
    assert(s.subrange(i, i + m.len()) =~= m);
    assert(occurs_at(s, m, i));
}

/// A text stays in what is written behind it.
proof fn lemma_stays_inside(s: Seq<char>, m: Seq<char>, z: Seq<char>)
    requires
        has_infix(s, m),
    ensures
        has_infix(s + z, m),
{
    let i = choose|i: int| occurs_at(s, m, i);
    assert((s + z).subrange(i, i + m.len()) =~= s.subrange(i, i + m.len()));
    assert(occurs_at(s + z, m, i));
}

/// What is written last is inside.
proof fn lemma_written_last(s: Seq<char>, m: Seq<char>)
    ensures
        has_infix(s + m, m),
{
    let i = s.len() as int;
    assert((s + m).subrange(i, i + m.len()) =~= m);
    assert(occurs_at(s + m, m, i));
}

/// Two texts behind a third may be put together first.
proof fn lemma_regroup(a: Seq<char>, b: Seq<char>, c: Seq<char>)
    ensures
        a + b + c == a + (b + c),
{
    assert(a + b + c =~= a + (b + c));
}

/// Each of several pieces occurs in the whole.
proof fn lemma_pieces(
    h: Seq<char>,
    a: Seq<char>,
    b: Seq<char>,
    c: Seq<char>,
    d: Seq<char>,
    e: Seq<char>,
    f: Seq<char>,
    g: Seq<char>,
    z: Seq<char>,
)
    ensures
        ({
            let t = h + a + b + c + d + e + f + g + z;
            &&& has_infix(t, a)
            &&& has_infix(t, b)
            &&& has_infix(t, c)
            &&& has_infix(t, d)
            &&& has_infix(t, e)
            &&& has_infix(t, f)
            &&& has_infix(t, g)
        }),
{
    let t1 = h + a;
    let t2 = t1 + b;
    let t3 = t2 + c;
    let t4 = t3 + d;
    let t5 = t4 + e;
    let t6 = t5 + f;
    let t7 = t6 + g;
    lemma_written_last(h, a);
    lemma_stays_inside(t1, a, b);
    lemma_stays_inside(t2, a, c);
    lemma_stays_inside(t3, a, d);
    lemma_stays_inside(t4, a, e);
    lemma_stays_inside(t5, a, f);
    lemma_stays_inside(t6, a, g);
    lemma_stays_inside(t7, a, z);
    lemma_written_last(t1, b);
    lemma_stays_inside(t2, b, c);
    lemma_stays_inside(t3, b, d);
    lemma_stays_inside(t4, b, e);
    lemma_stays_inside(t5, b, f);
    lemma_stays_inside(t6, b, g);
    lemma_stays_inside(t7, b, z);
    lemma_written_last(t2, c);
    lemma_stays_inside(t3, c, d);
    lemma_stays_inside(t4, c, e);
    lemma_stays_inside(t5, c, f);
    lemma_stays_inside(t6, c, g);
    lemma_stays_inside(t7, c, z);
    lemma_written_last(t3, d);
    lemma_stays_inside(t4, d, e);
    lemma_stays_inside(t5, d, f);
    lemma_stays_inside(t6, d, g);
    lemma_stays_inside(t7, d, z);
    lemma_written_last(t4, e);
    lemma_stays_inside(t5, e, f);
    lemma_stays_inside(t6, e, g);
    lemma_stays_inside(t7, e, z);
    lemma_written_last(t5, f);
    lemma_stays_inside(t6, f, g);
    lemma_stays_inside(t7, f, z);
    lemma_written_last(t6, g);
    lemma_stays_inside(t7, g, z);
}

/// The scenario launches the app with the Xcode adapter and names the workspace, the scheme
/// and the device of the project, and each option that is set; an option that is not set is
/// left out.
pub proof fn lemma_scenario_text(cfg: ProjectView)
    ensures
        ({
            let t = debug_json_text(cfg);
            let at = if cfg.workspace.len() > 0 && cfg.workspace[0] == '/' {
                cfg.workspace
            } else {
                "$ZED_WORKTREE_ROOT/"@ + cfg.workspace
            };
            &&& has_infix(
                t,
                "[\n  {\n    \"adapter\": \"Xcode\",\n    \"label\": \"Run on simulator\",\n    \"request\": \"launch\",\n    \"workspace\": "@
                    + json_text(at),
            )
            &&& has_infix(t, ",\n    \"scheme\": "@ + json_text(cfg.scheme))
            &&& has_infix(t, ",\n    \"device\": "@ + json_text(cfg.device))
            &&& cfg.os matches Some(o) ==> has_infix(t, ",\n    \""@ + "os"@ + "\": "@ + json_text(o))
            &&& cfg.preflight matches Some(p) ==> has_infix(
                t,
                ",\n    \""@ + "preflight"@ + "\": "@ + json_text(p),
            )
            &&& cfg.oslog ==> has_infix(t, ",\n    \"oslog\": true"@)
            &&& cfg.derived_data matches Some(d) ==> has_infix(
                t,
                ",\n    \""@ + "derivedData"@ + "\": "@ + json_text(d),
            )
            &&& cfg.os is None && cfg.preflight is None && !cfg.oslog && cfg.derived_data is None
                ==> has_suffix(t, ",\n    \"device\": "@ + json_text(cfg.device) + "\n  }\n]\n"@)
        }),
{
    reveal_strlit("");
    let open = "[\n  {\n    \"adapter\": \"Xcode\",\n    \"label\": \"Run on simulator\",\n    \"request\": \"launch\",\n    \"workspace\": "@
        + json_text(scenario_workspace(cfg.workspace));
    let scheme = ",\n    \"scheme\": "@ + json_text(cfg.scheme);
    let device = ",\n    \"device\": "@ + json_text(cfg.device);
    let os = scenario_member("os"@, cfg.os);
    let preflight = scenario_member("preflight"@, cfg.preflight);
    let oslog = if cfg.oslog {
        ",\n    \"oslog\": true"@
    } else {
        ""@
    };
    let derived = scenario_member("derivedData"@, cfg.derived_data);
    let close = "\n  }\n]\n"@;
    let h = generated_head();
    let lit = "[\n  {\n    \"adapter\": \"Xcode\",\n    \"label\": \"Run on simulator\",\n    \"request\": \"launch\",\n    \"workspace\": "@;
    lemma_regroup(h, lit, json_text(scenario_workspace(cfg.workspace)));
    let p1 = h + open;
    lemma_regroup(p1, ",\n    \"scheme\": "@, json_text(cfg.scheme));
    let p2 = p1 + scheme;
    lemma_regroup(p2, ",\n    \"device\": "@, json_text(cfg.device));
    let p3 = p2 + device;
    assert(debug_json_text(cfg) == p3 + os + preflight + oslog + derived + close);
    lemma_pieces(h, open, scheme, device, os, preflight, oslog, derived, close);
    if cfg.os is None && cfg.preflight is None && !cfg.oslog && cfg.derived_data is None {
        assert(p3 + os + preflight + oslog + derived =~= p3);
        lemma_regroup(p2, device, close);
        let t = debug_json_text(cfg);
        let tail = device + close;
        assert(t.subrange(t.len() - tail.len(), t.len() as int) =~= tail);
    }
}

/// A workspace of the project is named relative to the worktree, so that the scenario works
/// wherever the project lies; one outside is named by its path.
pub proof fn lemma_scenario_workspace(workspace: Seq<char>, project: Seq<char>)
    ensures
        workspace.len() > 0 && workspace[0] == '/' ==> scenario_workspace(workspace) == workspace,
        !(workspace.len() > 0 && workspace[0] == '/') ==> worktree_text(
            scenario_workspace(workspace),
            project,
        ) == workspace,
{
    lemma_worktree(workspace, project, workspace);
}

/// The build task builds the project's own workspace and scheme for its device, with its
/// options; the clean task cleans the same.
pub proof fn lemma_task_args(cfg: ProjectView)
    ensures
        ({
            let b = build_task_args(cfg);
            let c = clean_task_args(cfg);
            &&& b[0] == "build"@
            &&& passes_flag(b, "--workspace"@, quoted(cfg.workspace))
            &&& passes_flag(b, "--scheme"@, quoted(cfg.scheme))
            &&& passes_flag(b, "--device"@, quoted(cfg.device))
            &&& cfg.os matches Some(o) ==> passes_flag(b, "--os"@, quoted(o))
            &&& cfg.derived_data matches Some(d) ==> passes_flag(b, "--derived-data"@, quoted(d))
            &&& b.len() == 7 + (if cfg.os is Some {
                2int
            } else {
                0
            }) + (if cfg.derived_data is Some {
                2int
            } else {
                0
            })
            &&& c[0] == "clean"@
            &&& passes_flag(c, "--workspace"@, quoted(cfg.workspace))
            &&& passes_flag(c, "--scheme"@, quoted(cfg.scheme))
            &&& cfg.derived_data matches Some(d) ==> passes_flag(c, "--derived-data"@, quoted(d))
            &&& c.len() == if cfg.derived_data is Some {
                7int
            } else {
                5
            }
        }),
{
    let b = build_task_args(cfg);
    let c = clean_task_args(cfg);
    assert(b[1] == "--workspace"@ && b[3] == "--scheme"@ && b[5] == "--device"@);
    assert(c[1] == "--workspace"@ && c[3] == "--scheme"@);
    if cfg.os is Some {
        assert(b[7] == "--os"@);
    }
    if cfg.derived_data is Some {
        let k: int = if cfg.os is Some {
            9
        } else {
            7
        };
        assert(b[k] == "--derived-data"@);
        assert(c[5] == "--derived-data"@);
    }
}

/// The tasks file holds one task for each thing that can be done from the editor, each
/// running this program with the command that its label says.
pub proof fn lemma_tasks_text(cfg: ProjectView, xcode_dap: Seq<char>)
    ensures
        ({
            let t = tasks_json_text(cfg, xcode_dap);
            let c = quoted(xcode_dap);
            &&& has_infix(t, task_text("Xcode: Build"@, c, build_task_args(cfg)))
            &&& has_infix(t, task_text("Xcode: Clean"@, c, clean_task_args(cfg)))
            &&& has_infix(t, task_text("Xcode: Refresh"@, c, seq!["refresh"@]))
            &&& has_infix(t, task_text("Xcode: Console"@, c, seq!["console"@, "--follow"@]))
            &&& has_infix(
                t,
                task_text(
                    "Xcode: Choose Scheme"@,
                    c,
                    seq!["select-scheme"@, "--workspace"@, quoted(cfg.workspace)],
                ),
            )
            &&& has_infix(t, task_text("Xcode: Choose Destination"@, c, seq!["select-device"@]))
        }),
{
    let t = tasks_json_text(cfg, xcode_dap);
    let c = quoted(xcode_dap);
    let x1 = task_text("Xcode: Build"@, c, build_task_args(cfg));
    let x2 = task_text("Xcode: Clean"@, c, clean_task_args(cfg));
    let x3 = task_text("Xcode: Refresh"@, c, seq!["refresh"@]);
    let x4 = task_text("Xcode: Console"@, c, seq!["console"@, "--follow"@]);
    let x5 = task_text(
        "Xcode: Choose Scheme"@,
        c,
        seq!["select-scheme"@, "--workspace"@, quoted(cfg.workspace)],
    );
    let x6 = task_text("Xcode: Choose Destination"@, c, seq!["select-device"@]);
    let h = generated_head() + "[\n"@;
    let s = ",\n"@;
    let z = "\n]\n"@;
    assert(t == h + x1 + s + x2 + s + x3 + s + x4 + s + x5 + s + x6 + z);
    let y5 = s + x6 + z;
    let y4 = s + x5 + y5;
    let y3 = s + x4 + y4;
    let y2 = s + x3 + y3;
    let y1 = s + x2 + y2;
    lemma_between(h + x1 + s + x2 + s + x3 + s + x4 + s + x5 + s, x6, z);
    assert(t =~= h + x1 + s + x2 + s + x3 + s + x4 + s + x5 + y5);
    lemma_between(h + x1 + s + x2 + s + x3 + s + x4 + s, x5, y5);
    assert(t =~= h + x1 + s + x2 + s + x3 + s + x4 + y4);
    lemma_between(h + x1 + s + x2 + s + x3 + s, x4, y4);
    assert(t =~= h + x1 + s + x2 + s + x3 + y3);
    lemma_between(h + x1 + s + x2 + s, x3, y3);
    assert(t =~= h + x1 + s + x2 + y2);
    lemma_between(h + x1 + s, x2, y2);
    assert(t =~= h + x1 + y1);
    lemma_between(h, x1, y1);
}

/// A task runs its command with its arguments in the project's directory.
pub proof fn lemma_task_text(label: Seq<char>, command: Seq<char>, args: Seq<Seq<char>>)
    ensures
        ({
            let t = task_text(label, command, args);
            &&& has_prefix(t, "  {\n    \"label\": "@ + json_text(label))
            &&& has_infix(t, ",\n    \"command\": "@ + json_text(command))
            &&& has_suffix(t, "],\n    \"cwd\": \"$ZED_WORKTREE_ROOT\"\n  }"@)
            &&& args.len() == 1 ==> has_infix(
                t,
                ",\n    \"args\": ["@ + json_text(args[0]) + "]"@,
            )
        }),
{
    let t = task_text(label, command, args);
    let a = "  {\n    \"label\": "@ + json_text(label);
    let b = ",\n    \"command\": "@ + json_text(command);
    let j = joined_with(json_texts(args), ", "@);
    let m = ",\n    \"args\": ["@ + j;
    let z = "],\n    \"cwd\": \"$ZED_WORKTREE_ROOT\"\n  }"@;
    assert(t =~= a + b + m + z);
    assert(t.subrange(0, a.len() as int) =~= a);
    assert(t =~= a + b + (m + z));
    lemma_between(a, b, m + z);
    assert(t.subrange(t.len() - z.len(), t.len() as int) =~= z);
    if args.len() == 1 {
        let js = json_texts(args);
        reveal_with_fuel(joined_with, 2);
        assert(js[0] == json_text(args[0]));
        assert(j =~= json_text(args[0]));
        reveal_strlit("]");
        reveal_strlit("],\n    \"cwd\": \"$ZED_WORKTREE_ROOT\"\n  }");
        let one = m + "]"@;
        let rest = z.skip(1);
        assert(z =~= "]"@ + rest);
        assert(t =~= (a + b) + one + rest);
        lemma_between(a + b, one, rest);
    }
}

/// A word that the shell takes as it is stays so; any other is put in single quotes.
pub proof fn lemma_quoting(s: Seq<char>)
    ensures
        (s.len() > 0 && forall|i: int|
            0 <= i < s.len() ==> 'a' <= #[trigger] s[i] <= 'z' || 'A' <= s[i] <= 'Z' || '0' <= s[i]
                <= '9' || s[i] == '_' || s[i] == '-' || s[i] == '.' || s[i] == '/') ==> quoted(s)
            == s,
        s.contains(' ') || s.contains('\'') || s.contains('$') || s.contains('"') || s.len() == 0
            ==> quoted(s).len() >= 2 && quoted(s)[0] == '\'' && quoted(s).last() == '\'',
{
    reveal_strlit("'");
    if s.len() > 0 && forall|i: int|
        0 <= i < s.len() ==> 'a' <= #[trigger] s[i] <= 'z' || 'A' <= s[i] <= 'Z' || '0' <= s[i]
            <= '9' || s[i] == '_' || s[i] == '-' || s[i] == '.' || s[i] == '/' {
        assert(is_plain(s));
    }
    if s.contains(' ') || s.contains('\'') || s.contains('$') || s.contains('"') || s.len() == 0 {
        if s.len() > 0 {
            let i = choose|i: int|
                0 <= i < s.len() && (s[i] == ' ' || s[i] == '\'' || s[i] == '$' || s[i] == '"');
            assert(!is_plain_char(s[i]));
        }
    }
}

// ---------------------------------------------------------------------------
// .git/info/exclude
// ---------------------------------------------------------------------------

/// A line is added on a line of its own at the end, and nothing of the file is lost.
pub proof fn lemma_line_added(text: Seq<char>, line: Seq<char>)
    ensures
        ({
            let t = with_line(text, line);
            &&& has_prefix(t, text)
            &&& has_suffix(t, line + "\n"@)
            &&& text.len() == 0 || text.last() == '\n' ==> t == text + line + "\n"@
            &&& text.len() > 0 && text.last() != '\n' ==> t == text + "\n"@ + line + "\n"@
        }),
{
    reveal_strlit("");
    let t = with_line(text, line);
    let end = line + "\n"@;
    assert(t.subrange(0, text.len() as int) =~= text);
    assert(t.subrange(t.len() - end.len(), t.len() as int) =~= end);
    assert(text + ""@ + line + "\n"@ =~= text + line + "\n"@);
}

/// The simulator that is suggested is one that can be used: a booted one where there is one,
/// else an iPhone. None is suggested only where no simulator is booted and none is an iPhone.
pub proof fn lemma_simulator_suggested(
    ds: Seq<UsableView>,
    r: Result<(Seq<char>, Seq<char>), Seq<char>>,
    j: int,
)
    requires
        is_sim_choice(ds, r),
        0 <= j < ds.len(),
    ensures
        r matches Ok((name, os)) ==> exists|k: int|
            0 <= k < ds.len() && (#[trigger] ds[k]).name == name && ds[k].os == os && (ds[k].booted
                || has_prefix(name, "iPhone"@)) && (ds[j].booted ==> ds[k].booted),
        ds[j].booted || has_prefix(ds[j].name, "iPhone"@) ==> r is Ok,
{
    lemma_booted_first(ds, 0);
    match booted_from(ds, 0) {
        Some(d) => {
            let k = choose|k: int|
                0 <= k < ds.len() && #[trigger] ds[k] == d && d.booted && forall|j: int|
                    0 <= j < k ==> !(#[trigger] ds[j]).booted;
            assert(ds[k].name == d.name);
        },
        None => {
            if r is Ok {
                let k = choose|k: int|
                    #![trigger ds[k]]
                    is_newest_phone(ds, k) && r == Ok::<(Seq<char>, Seq<char>), Seq<char>>(
                        (ds[k].name, ds[k].os),
                    );
                assert(ds[k].name == r->Ok_0.0);
            }
        },
    }
}

/// Only simulators of iOS runtimes can be used, each with the version of its runtime.
pub proof fn lemma_usable_simulators(rs: Seq<(Seq<char>, JsonView)>, n: int)
    requires
        0 < n <= rs.len(),
    ensures
        usables_upto(rs, 0) == Seq::<UsableView>::empty(),
        ios_version(rs[n - 1].0) is None ==> usables_upto(rs, n) == usables_upto(rs, n - 1),
        ios_version(rs[n - 1].0) matches Some(os) ==> (rs[n - 1].1 matches JsonView::Array(es)
            ==> usables_upto(rs, n) == usables_upto(rs, n - 1) + usables_of(
            es,
            os,
            es.len() as int,
        )),
{
}

/// Of the devices of a runtime exactly those are taken that can be used, in their order.
pub proof fn lemma_usable_devices(es: Seq<JsonView>, os: Seq<char>, n: int)
    requires
        0 < n <= es.len(),
    ensures
        usables_of(es, os, 0) == Seq::<UsableView>::empty(),
        usable_of(es[n - 1], os) is None ==> usables_of(es, os, n) == usables_of(es, os, n - 1),
        usable_of(es[n - 1], os) matches Some(d) ==> usables_of(es, os, n) == usables_of(
            es,
            os,
            n - 1,
        ).push(d),
        usables_of(es, os, n).len() <= n,
    decreases n,
{
    if n > 1 {
        lemma_usable_devices(es, os, n - 1);
    }
}

/// The suggestion is made from the `devices` of the listing.
pub proof fn lemma_suggested_from_listing(
    v: JsonView,
    ms: Seq<(Seq<char>, JsonView)>,
    r: Result<(Seq<char>, Option<Seq<char>>), Seq<char>>,
)
    requires
        is_listing_choice(v, r),
    ensures
        v.get("devices"@) == Some(JsonView::Object(ms)) ==> (r matches Ok((name, os)) ==> os is Some
            && is_sim_choice(usables_upto(ms, ms.len() as int), Ok((name, os->0)))),
        v.get("devices"@) == Some(JsonView::Object(ms)) ==> (r matches Err(e) ==> is_sim_choice(
            usables_upto(ms, ms.len() as int),
            Err(e),
        )),
        v.get("devices"@) is None ==> r is Err,
{
}

/// What is not set stays off, and the kind of the containers to choose from is that of the
/// workspaces where there is one.
pub proof fn lemma_defaults(names: Seq<Seq<char>>, line: Seq<char>, lines: Seq<Seq<char>>, i: int)
    ensures
        !kept_oslog(None),
        containers(names, true, names.len() as int).len() > 0 ==> choosable_kind(names)
            == ".xcworkspace"@ && choosable(names) == containers(names, true, names.len() as int),
        containers(names, true, names.len() as int).len() == 0 ==> choosable_kind(names)
            == ".xcodeproj"@ && choosable(names) == containers(names, false, names.len() as int),
        0 <= i < lines.len() && names_target(lines[i], line) ==> one_names(lines, line),
        (forall|k: int| 0 <= k < lines.len() ==> !names_target(#[trigger] lines[k], line))
            ==> !one_names(lines, line),
{
}

/// The system log is kept on where the first scenario that says anything of it says so; a
/// file that lists no scenarios says nothing.
pub proof fn lemma_oslog_kept(scenarios: Seq<JsonView>, v: JsonView, n: int)
    requires
        0 <= n < scenarios.len(),
        forall|i: int| 0 <= i < n ==> (#[trigger] scenarios[i]).get("oslog"@) is None,
    ensures
        scenarios[n].get("oslog"@) == Some(JsonView::Bool(true)) ==> oslog_of(
            JsonView::Array(scenarios),
        ),
        scenarios[n].get("oslog"@) == Some(JsonView::Bool(false)) ==> !oslog_of(
            JsonView::Array(scenarios),
        ),
        v !is Array ==> !oslog_of(v),
{
    lemma_oslog_skipped(scenarios, 0, n);
}

proof fn lemma_oslog_skipped(scenarios: Seq<JsonView>, i: int, n: int)
    requires
        0 <= i <= n < scenarios.len(),
        forall|k: int| 0 <= k < n ==> (#[trigger] scenarios[k]).get("oslog"@) is None,
    ensures
        oslog_from(scenarios, i) == oslog_from(scenarios, n),
    decreases n - i,
{
    if i < n {
        assert(scenarios[i].get("oslog"@) is None);
        lemma_oslog_skipped(scenarios, i + 1, n);
    }
}

/// The file of rules that are not shared holds the rule of the project where a line is it.
pub proof fn lemma_project_rule(lines: Seq<Seq<char>>, i: int)
    ensures
        0 <= i < lines.len() && is_project_rule(lines[i]) ==> has_project_rule(lines),
        (forall|k: int| 0 <= k < lines.len() ==> !is_project_rule(#[trigger] lines[k]))
            ==> !has_project_rule(lines),
{
}

} // verus!
