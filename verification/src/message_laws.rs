//! What the messages to the user name.

use crate::commands::refresh::refreshed_text;
use crate::commands::select::ambiguous_text;
use crate::commands::select::holds;
use crate::commands::select::near_schemes;
use crate::commands::select::no_scheme_text;
use crate::commands::select::no_workspace_text;
use crate::dap::peek::summary;
use crate::dap::proxy::client_id_of;
use crate::dap::proxy::guard_text;
use crate::dap::proxy::not_initialize_text;
use crate::engine::consoles::oslog_end_text;
use crate::engine::pipeline::bundle_id_of;
use crate::engine::pipeline::failed;
use crate::engine::pipeline::no_workspace_message;
use crate::engine::pipeline::turn_files;
use crate::engine::pipeline::turn_launched;
use crate::engine::pipeline::turn_preflight;
use crate::engine::pipeline::turn_start;
use crate::engine::pipeline::PlanView;
use crate::engine::selection::destination_text;
use crate::engine::simctl::device_line;
use crate::engine::simctl::none_text;
use crate::engine::simctl::nothing_text;
use crate::engine::simctl::others_text;
use crate::engine::simctl::DeviceView;
use crate::engine::xcodebuild::app_of;
use crate::engine::xcodebuild::parsed_app_path;
use crate::engine::xcodebuild::parsed_build_root;
use crate::engine::xcodebuild::root_of;
use crate::engine::xcodebuild::settings_error;
use crate::extension::download_text;
use crate::extension::no_asset_text;
use crate::extension::release_text;
use crate::extension::PROXY_BIN;
use crate::extension::PROXY_REPO;
use crate::extension::PROXY_TAG;
use crate::json::serde_parse;
use crate::json::JsonView;
use crate::number::decimal;
use crate::number::decimal_int;
use crate::setup::build_server::Regen;
use crate::setup::jsonc::edit_error;
use crate::setup::jsonc::invalid_text;
use crate::setup::jsonc::MarkerError;
use crate::setup::project::all_schemes;
use crate::setup::project::generated_text;
use crate::setup::project::only_scheme;
use crate::setup::project::several_text;
use crate::setup::project::summary_text;
use crate::setup::project::ProjectView;
use crate::text::has_infix;
use crate::text::has_prefix;
use crate::text::has_suffix;
use crate::text::joined_with;
use crate::text::lowercase_text;
use crate::text::occurs_at;
use crate::text::trimmed;
use crate::util::paths::stem_of;
use vstd::prelude::*;

verus! {

// ---------------------------------------------------------------------------
// Parts of a text
// ---------------------------------------------------------------------------

/// What stands between two texts is part of the whole.
pub proof fn lemma_inside(a: Seq<char>, b: Seq<char>, c: Seq<char>)
    ensures
        has_infix(a + b + c, b),
        has_infix(a + b, b),
        has_infix(a + b, a),
{
    let k = a.len() as int;
    assert((a + b + c).subrange(k, k + b.len()) =~= b);
    assert(occurs_at(a + b + c, b, k));
    assert((a + b).subrange(k, k + b.len()) =~= b);
    assert(occurs_at(a + b, b, k));
    assert((a + b).subrange(0, k) =~= a);
    assert(occurs_at(a + b, a, 0));
}

/// What is part of a text stays so whatever is put in front of it and behind it.
pub proof fn lemma_inside_stays(s: Seq<char>, p: Seq<char>, front: Seq<char>, back: Seq<char>)
    requires
        has_infix(s, p),
    ensures
        has_infix(front + s, p),
        has_infix(s + back, p),
        has_infix(front + s + back, p),
{
    let i = choose|i: int| occurs_at(s, p, i);
    let k = front.len() as int;
    assert((s + back).subrange(i, i + p.len()) =~= p);
    assert(occurs_at(s + back, p, i));
    assert((front + s).subrange(k + i, k + i + p.len()) =~= p);
    assert(occurs_at(front + s, p, k + i));
    assert((front + s + back).subrange(k + i, k + i + p.len()) =~= p);
    assert(occurs_at(front + s + back, p, k + i));
}

/// Every text of a list is part of the list put together.
pub proof fn lemma_listed_inside(parts: Seq<Seq<char>>, sep: Seq<char>, i: int)
    requires
        0 <= i < parts.len(),
    ensures
        has_infix(joined_with(parts, sep), parts[i]),
    decreases parts.len(),
{
    if parts.len() == 1 {
        assert(parts[0].subrange(0, parts[0].len() as int) =~= parts[0]);
        assert(occurs_at(parts[0], parts[0], 0));
    } else {
        let f = joined_with(parts.drop_last(), sep);
        if i < parts.len() - 1 {
            lemma_listed_inside(parts.drop_last(), sep, i);
            assert(parts.drop_last()[i] == parts[i]);
            lemma_inside_stays(f, parts[i], ""@, sep + parts.last());
            assert(f + (sep + parts.last()) =~= f + sep + parts.last());
        } else {
            lemma_inside(f + sep, parts.last(), ""@);
        }
    }
}

proof fn lemma_regrouped(a: Seq<char>, b: Seq<char>, c: Seq<char>)
    ensures
        a + b + c == a + (b + c),
{
    assert(a + b + c =~= a + (b + c));
}

proof fn lemma_front(a: Seq<char>, b: Seq<char>)
    ensures
        has_prefix(a + b, a),
        has_suffix(a + b, b),
{
    assert((a + b).subrange(0, a.len() as int) =~= a);
    assert((a + b).subrange((a + b).len() - b.len(), (a + b).len() as int) =~= b);
}

// ---------------------------------------------------------------------------
// Choices
// ---------------------------------------------------------------------------

/// Among the schemes that are offered instead are at most ten, and each of them is a scheme
/// that holds what was asked for. There is one wherever a scheme holds it.
pub proof fn lemma_near_schemes(schemes: Seq<Seq<char>>, query: Seq<char>, n: int, k: int)
    requires
        0 <= n <= schemes.len(),
    ensures
        near_schemes(schemes, query, n).len() <= 10,
        0 <= k < near_schemes(schemes, query, n).len() ==> schemes.contains(
            near_schemes(schemes, query, n)[k],
        ) && has_infix(
            lowercase_text(near_schemes(schemes, query, n)[k]),
            lowercase_text(query),
        ),
        0 <= k < n && has_infix(lowercase_text(schemes[k]), lowercase_text(query))
            ==> near_schemes(schemes, query, n).len() > 0 && (near_schemes(schemes, query, n).len()
            < 10 ==> near_schemes(schemes, query, n).contains(schemes[k])),
    decreases n,
{
    if n > 0 {
        let before = near_schemes(schemes, query, n - 1);
        let now = near_schemes(schemes, query, n);
        lemma_near_schemes(schemes, query, n - 1, k);
        if 0 <= k < now.len() {
            if k < before.len() {
                assert(now[k] == before[k]);
            } else {
                assert(now[k] == schemes[n - 1]);
            }
        }
        if 0 <= k < n && holds(schemes[k], query) {
            if k < n - 1 {
                if before.contains(schemes[k]) {
                    let at = choose|at: int| 0 <= at < before.len() && before[at] == schemes[k];
                    assert(now[at] == schemes[k]);
                }
            } else if before.len() < 10 {
                assert(now[before.len() as int] == schemes[k]);
            }
        }
    }
}

/// Where a scheme is not found, the message names it and the workspace, and then the schemes
/// that come near, or how many schemes there are.
pub proof fn lemma_no_scheme_named(
    schemes: Seq<Seq<char>>,
    query: Seq<char>,
    workspace: Seq<char>,
    k: int,
)
    ensures
        ({
            let t = no_scheme_text(schemes, query, workspace);
            let near = near_schemes(schemes, query, schemes.len() as int);
            &&& has_prefix(t, "no scheme named \""@ + query + "\" in "@ + workspace)
            &&& 0 <= k < near.len() ==> has_infix(t, near[k])
            &&& near.len() == 0 ==> has_infix(t, decimal(schemes.len()) + " schemes"@)
        }),
{
    let t = no_scheme_text(schemes, query, workspace);
    let near = near_schemes(schemes, query, schemes.len() as int);
    let head = "no scheme named \""@ + query + "\" in "@ + workspace;
    let mid = head + " \u{2014} "@;
    if near.len() == 0 {
        let end = "run `xcode-dap select-scheme --list` to see all "@ + decimal(schemes.len())
            + " schemes"@;
        lemma_front(head, " \u{2014} "@ + end);
        assert(t =~= head + (" \u{2014} "@ + end));
        let part = decimal(schemes.len()) + " schemes"@;
        assert(t =~= (mid + "run `xcode-dap select-scheme --list` to see all "@) + part);
        lemma_inside(mid + "run `xcode-dap select-scheme --list` to see all "@, part, ""@);
    } else {
        let end = "did you mean:\n  "@ + joined_with(near, "\n  "@);
        lemma_front(head, " \u{2014} "@ + end);
        assert(t =~= head + (" \u{2014} "@ + end));
        if 0 <= k < near.len() {
            lemma_listed_inside(near, "\n  "@, k);
            lemma_inside_stays(
                joined_with(near, "\n  "@),
                near[k],
                mid + "did you mean:\n  "@,
                ""@,
            );
            assert(t =~= (mid + "did you mean:\n  "@) + joined_with(near, "\n  "@));
        }
    }
}

/// Where there are several containers, the message says of which kind and names each; where
/// there is none, it says in which directory.
pub proof fn lemma_containers_named(
    kind: Seq<char>,
    project: Seq<char>,
    sorted: Seq<Seq<char>>,
    k: int,
)
    requires
        0 <= k < sorted.len(),
    ensures
        has_prefix(ambiguous_text(kind, project, sorted), "multiple "@ + kind),
        has_infix(ambiguous_text(kind, project, sorted), " in "@ + project),
        has_infix(ambiguous_text(kind, project, sorted), sorted[k]),
        has_prefix(several_text(kind, sorted), "multiple "@ + kind),
        has_infix(several_text(kind, sorted), sorted[k]),
        has_suffix(ambiguous_text(kind, project, sorted), "pass --workspace"@),
        has_suffix(several_text(kind, sorted), "pass --workspace"@),
        has_infix(no_workspace_text(project), project),
{
    let all = joined_with(sorted, ", "@);
    lemma_listed_inside(sorted, ", "@, k);
    let a = ambiguous_text(kind, project, sorted);
    let s = several_text(kind, sorted);
    let end = ") \u{2014} pass --workspace"@;
    let m = "multiple "@ + kind;
    lemma_front(m, " files found in "@ + project + " ("@ + all + end);
    assert(a =~= m + (" files found in "@ + project + " ("@ + all + end));
    lemma_front(m, " files found ("@ + all + end);
    assert(s =~= m + (" files found ("@ + all + end));
    let ha = m + " files found in "@ + project + " ("@;
    lemma_inside_stays(all, sorted[k], ha, end);
    assert(a =~= ha + all + end);
    let hs = m + " files found ("@;
    lemma_inside_stays(all, sorted[k], hs, end);
    assert(s =~= hs + all + end);
    reveal_strlit(" files found in ");
    reveal_strlit(" files found");
    reveal_strlit(" in ");
    assert(" files found in "@ =~= " files found"@ + " in "@);
    let p = " in "@ + project;
    lemma_inside(m + " files found"@, p, " ("@ + all + end);
    assert(a =~= (m + " files found"@) + p + (" ("@ + all + end));
    reveal_strlit(") \u{2014} pass --workspace");
    reveal_strlit("pass --workspace");
    assert(end.subrange(4, 20) =~= "pass --workspace"@);
    assert(a.subrange(a.len() - 16, a.len() as int) =~= "pass --workspace"@);
    assert(s.subrange(s.len() - 16, s.len() as int) =~= "pass --workspace"@);
    lemma_inside(
        "no .xcworkspace/.xcodeproj found in "@,
        project,
        " \u{2014} generate the project first (e.g. `make project CI=true`) or pass --workspace"@,
    );
}

/// Where no simulator is found, the message names the device and the version that were asked
/// for.
pub proof fn lemma_no_simulator_named(query: Seq<char>, os: Seq<char>, lines: Seq<Seq<char>>, k: int)
    requires
        0 <= k < lines.len(),
    ensures
        has_infix(none_text(Some(query), Some(os)), "matching \""@ + query + "\""@),
        has_infix(none_text(Some(query), Some(os)), "(iOS "@ + os + ")"@),
        has_infix(none_text(None, Some(os)), "(iOS "@ + os + ")"@),
        has_infix(none_text(Some(query), None), "matching \""@ + query + "\""@),
        has_prefix(nothing_text(Some(query), Some(os)), none_text(Some(query), Some(os))),
        has_infix(nothing_text(Some(query), Some(os)), "no iOS "@ + os),
        has_prefix(others_text(Some(query), Some(os), lines), none_text(Some(query), Some(os))),
        has_infix(others_text(Some(query), Some(os), lines), lines[k]),
{
    let h = "no available simulator "@;
    let m = "matching \""@ + query + "\""@;
    let v = " (iOS "@ + os + ")"@;
    let w = "(iOS "@ + os + ")"@;
    reveal_strlit(" (iOS ");
    reveal_strlit("(iOS ");
    reveal_strlit(" ");
    reveal_strlit("");
    assert(" (iOS "@ =~= " "@ + "(iOS "@);
    assert(v =~= " "@ + w);
    lemma_inside(h, m, v);
    lemma_inside(h, m, ""@);
    lemma_inside(h + m + " "@, w, ""@);
    assert(h + m + v =~= (h + m + " "@) + w);
    let none = "(no \"device\" configured: looked for an iPhone)"@;
    lemma_inside(h + none + " "@, w, ""@);
    assert(h + none + v =~= (h + none + " "@) + w);
    let n = none_text(Some(query), Some(os));
    let hint = "\nhint: install the runtime and create a device in Xcode (Settings \u{2192} Components, Window \u{2192} Devices and Simulators)"@;
    let t = nothing_text(Some(query), Some(os));
    let runtime = "no iOS "@ + os;
    let behind = " simulator runtime is installed"@;
    lemma_front(n, ": "@ + (runtime + behind) + hint);
    assert(t =~= n + (": "@ + (runtime + behind) + hint));
    lemma_inside(n + ": "@, runtime, behind + hint);
    assert(t =~= (n + ": "@) + runtime + (behind + hint));
    let o = others_text(Some(query), Some(os), lines);
    let all = joined_with(lines, "\n  "@);
    let end = "\nhint: pass --device \"<name or udid>\" (or set \"device\" in .zed/debug.json)"@;
    lemma_front(n, "; available devices:\n  "@ + all + end);
    assert(o =~= n + ("; available devices:\n  "@ + all + end));
    lemma_listed_inside(lines, "\n  "@, k);
    lemma_inside_stays(all, lines[k], n + "; available devices:\n  "@, end);
}

/// The line of a device begins with its name and ends with its state.
pub proof fn lemma_device_line(d: DeviceView)
    ensures
        has_prefix(device_line(d), d.name + " (iOS "@ + decimal(d.os.0 as nat) + "."@),
        has_suffix(device_line(d), ", "@ + d.state + ")"@),
{
    let h = d.name + " (iOS "@ + decimal(d.os.0 as nat) + "."@;
    let v = decimal(d.os.1 as nat);
    let e = ", "@ + d.state + ")"@;
    lemma_front(h, v + e);
    assert(device_line(d) =~= h + (v + e));
    lemma_front(h + v, e);
    assert(device_line(d) =~= (h + v) + e);
}

/// A choice is told by the device and the version that were chosen.
pub proof fn lemma_destination_told(d: Seq<char>, o: Seq<char>)
    ensures
        destination_text(Some(d), Some(o)) == d + " (iOS "@ + o + ")"@,
        destination_text(Some(d), None) == d,
        destination_text(None, Some(o)) == "auto (iOS "@ + o + ")"@,
        destination_text(None, None) == "auto (booted iPhone, else newest)"@,
{
}

// ---------------------------------------------------------------------------
// Builds
// ---------------------------------------------------------------------------

/// What xcodebuild printed of its failure is told.
pub proof fn lemma_settings_failure_told(stderr: Seq<char>, bytes: Seq<u8>)
    ensures
        has_infix(settings_error(stderr), trimmed(stderr)),
        serde_parse(bytes) matches Err(e) ==> (parsed_app_path(bytes) matches Err(t) && has_suffix(
            t,
            e,
        )) && (parsed_build_root(bytes) matches Err(t) && has_suffix(t, e)),
        serde_parse(bytes) matches Ok(v) ==> parsed_app_path(bytes) == app_of(v)
            && parsed_build_root(bytes) == root_of(v),
        serde_parse(bytes) matches Ok(v) ==> (v !is Array ==> parsed_app_path(bytes) is Err
            && parsed_build_root(bytes) is Err),
{
    lemma_inside(
        "xcodebuild -showBuildSettings failed: "@,
        trimmed(stderr),
        "\nhint: check \"scheme\" / \"configuration\" in .zed/debug.json (or the --scheme flag)"@,
    );
    if let Err(e) = serde_parse(bytes) {
        lemma_front("parsing -showBuildSettings JSON"@ + ": "@, e);
    }
}

/// A workspace that is not there is named, and so is the command that was to make it.
pub proof fn lemma_missing_workspace_told(p: PlanView, command: Seq<char>, e: Seq<char>)
    ensures
        has_prefix(no_workspace_message(p.workspace), "workspace "@ + p.workspace),
        turn_preflight(p, command, Some(e), true) == failed(
            "preflight `"@ + command + "` failed"@ + ": "@ + e,
        ),
        turn_preflight(p, command, None, false) == failed(
            "preflight `"@ + command + "` completed but workspace "@ + p.workspace
                + " still does not exist"@,
        ),
        p.preflight is None ==> turn_start(p, false) == failed(no_workspace_message(p.workspace)),
{
    lemma_front(
        "workspace "@ + p.workspace,
        " not found and no \"preflight\" command is configured to generate it\nhint: generate the project first (e.g. `make project CI=true` for Tuist setups), set \"preflight\" in .zed/debug.json, or fix the path via --workspace / the \"workspace\" key; `xcode-dap refresh` regenerates and refreshes go-to-definition"@,
    );
}

/// A bundle identifier that cannot be read is told with the file and what was printed.
pub proof fn lemma_bundle_id_failure_told(
    printed: Seq<char>,
    stderr: Seq<char>,
    plist: Seq<char>,
)
    ensures
        bundle_id_of(false, printed, stderr, plist) matches Err(t) && has_infix(t, plist)
            && has_suffix(t, trimmed(stderr)),
        trimmed(printed).len() == 0 ==> (bundle_id_of(true, printed, stderr, plist) matches Err(t)
            && has_suffix(t, plist)),
{
    let h = "reading CFBundleIdentifier from "@;
    lemma_inside(h, plist, " failed: "@ + trimmed(stderr));
    assert(h + plist + (" failed: "@ + trimmed(stderr)) =~= h + plist + " failed: "@ + trimmed(
        stderr,
    ));
    lemma_front(h + plist + " failed: "@, trimmed(stderr));
    lemma_front("empty CFBundleIdentifier in "@, plist);
}

/// That the stream of the system log ended is told with its status and with what it printed.
pub proof fn lemma_oslog_end_told(status: Seq<char>, stderr: Seq<char>)
    ensures
        has_prefix(
            oslog_end_text(Some(status), stderr),
            "oslog: log stream exited ("@ + status + ")"@,
        ),
        trimmed(stderr).len() > 0 ==> has_suffix(
            oslog_end_text(Some(status), stderr),
            ": "@ + trimmed(stderr),
        ),
        trimmed(stderr).len() == 0 ==> oslog_end_text(Some(status), stderr)
            == "oslog: log stream exited ("@ + status + ")"@,
        has_prefix(oslog_end_text(None, stderr), "oslog: log stream exited (unknown status)"@),
{
    let h = "oslog: log stream exited ("@ + status + ")"@;
    lemma_front(h, ": "@ + trimmed(stderr));
    assert(h + (": "@ + trimmed(stderr)) =~= h + ": "@ + trimmed(stderr));
    lemma_front(h, ""@);
    reveal_strlit("");
    assert(h + ""@ =~= h);
    reveal_strlit("oslog: log stream exited (");
    reveal_strlit("unknown status");
    reveal_strlit(")");
    reveal_strlit("oslog: log stream exited (unknown status)");
    let u = "oslog: log stream exited ("@ + "unknown status"@ + ")"@;
    assert(u =~= "oslog: log stream exited (unknown status)"@);
    lemma_front(u, ": "@ + trimmed(stderr));
    assert(u + (": "@ + trimmed(stderr)) =~= u + ": "@ + trimmed(stderr));
    lemma_front(u, ""@);
    assert(u + ""@ =~= u);
}

// ---------------------------------------------------------------------------
// Set-up
// ---------------------------------------------------------------------------

/// Only a build server file that was written is reported as done; otherwise the message names
/// the workspace that is missing, or says what went wrong.
pub proof fn lemma_regeneration_told(regen: Regen, workspace: Seq<char>)
    ensures
        has_prefix(refreshed_text(regen, workspace), "\u{2713} "@) <==> regen is Written,
        has_prefix(generated_text(regen, workspace), "\u{2713} "@) <==> regen is Written,
        regen is MissingWorkspace ==> has_infix(refreshed_text(regen, workspace), workspace)
            && has_infix(generated_text(regen, workspace), workspace),
        regen matches Regen::Failed(e) ==> has_infix(refreshed_text(regen, workspace), e@)
            && has_infix(generated_text(regen, workspace), e@) && has_prefix(
            refreshed_text(regen, workspace),
            "\u{2717} "@,
        ),
{
    reveal_strlit("\u{2713} ");
    reveal_strlit("\u{2717} ");
    reveal_strlit("! ");
    reveal_strlit("! workspace ");
    reveal_strlit("\u{2713} buildServer.json refreshed");
    reveal_strlit("\u{2713} buildServer.json \u{2192} sourcekit-lsp go-to-definition ready");
    reveal_strlit("\u{2717} buildServer.json refresh failed: ");
    reveal_strlit("! could not generate buildServer.json (non-fatal): ");
    let r = refreshed_text(regen, workspace);
    let g = generated_text(regen, workspace);
    let tick = "\u{2713} "@;
    match regen {
        Regen::Written(_) => {
            assert(r.subrange(0, 2) =~= tick);
            assert(g.subrange(0, 2) =~= tick);
        },
        Regen::MissingWorkspace => {
            if has_prefix(r, tick) {
                assert(r.subrange(0, 2)[0] == tick[0]);
                assert(r[0] == '!');
            }
            if has_prefix(g, tick) {
                assert(g.subrange(0, 2)[0] == tick[0]);
                assert(g[0] == '!');
            }
            lemma_inside(
                "! workspace "@,
                workspace,
                " does not exist yet \u{2014} run `xcode-dap refresh` after the project is generated"@,
            );
            lemma_inside(
                "! "@,
                workspace,
                " does not exist yet \u{2014} skipping buildServer.json;\n  run `xcode-dap refresh` after the project is generated."@,
            );
        },
        Regen::Failed(e) => {
            if has_prefix(r, tick) {
                assert(r.subrange(0, 2)[0] == tick[0]);
                assert(r[0] == '\u{2717}');
            }
            if has_prefix(g, tick) {
                assert(g.subrange(0, 2)[0] == tick[0]);
                assert(g[0] == '!');
            }
            assert(r.subrange(0, 2) =~= "\u{2717} "@);
            lemma_inside("\u{2717} buildServer.json refresh failed: "@, e@, ""@);
            lemma_inside(
                "! could not generate buildServer.json (non-fatal): "@,
                e@,
                "\n  run `xcode-dap refresh` once the project builds."@,
            );
        },
    }
}

/// The summary names each thing that was chosen behind its label, and what was not chosen is
/// left out.
pub proof fn lemma_summary_told(cfg: ProjectView, os: Seq<char>, preflight: Seq<char>)
    ensures
        cfg.os is None && cfg.preflight is None ==> summary_text(cfg) == "  workspace: "@
            + cfg.workspace + "  scheme: "@ + cfg.scheme + "  device: "@ + cfg.device,
        cfg.os == Some(os) && cfg.preflight == Some(preflight) ==> summary_text(cfg)
            == "  workspace: "@ + cfg.workspace + "  scheme: "@ + cfg.scheme + "  device: "@
            + cfg.device + "  os: "@ + os + "  preflight: "@ + preflight,
{
    reveal_strlit("");
    let h = "  workspace: "@ + cfg.workspace + "  scheme: "@ + cfg.scheme + "  device: "@
        + cfg.device;
    if cfg.os is None && cfg.preflight is None {
        assert(summary_text(cfg) =~= h);
    }
    if cfg.os == Some(os) && cfg.preflight == Some(preflight) {
        assert(summary_text(cfg) =~= h + "  os: "@ + os + "  preflight: "@ + preflight);
    }
}

proof fn lemma_invalid_parts(
    h: Seq<char>,
    f: Seq<char>,
    e: Seq<char>,
    a: Seq<char>,
    b: Seq<char>,
    c: Seq<char>,
    d: Seq<char>,
)
    ensures
        has_infix(h + f + e + (a + b + c) + d, f + e + a),
        has_suffix(h + f + e + (a + b + c) + d, c + d),
{
    let s = h + f + e;
    let p = f + e + a;
    lemma_regrouped(h, f, e);
    lemma_regrouped(h, f + e, a);
    lemma_regrouped(a, b, c);
    lemma_regrouped(s, a, b + c);
    lemma_inside(h, p, b);
    lemma_inside_stays(h + p, p, h, b + c);
    lemma_inside_stays(h + p + (b + c), p, h, d);
    lemma_regrouped(s, a + b, c);
    lemma_regrouped(s + (a + b), c, d);
    lemma_front(s + (a + b), c + d);
}

/// A damaged block is told with its marker, and a file without a place for the block with its
/// path.
pub proof fn lemma_edit_failure_told(path: Seq<char>, id: Seq<char>, e: Seq<char>, backup: Seq<char>)
    ensures
        has_prefix(edit_error(MarkerError::Corrupt, path, id), "corrupt zedxcode:"@ + id),
        has_prefix(
            edit_error(MarkerError::NoCloser, path, id),
            "cannot find insertion point in "@ + path,
        ),
        has_prefix(invalid_text(path, e, backup), "post-merge validation of "@ + path),
        has_infix(invalid_text(path, e, backup), " failed ("@ + e + ");"@),
        has_suffix(invalid_text(path, e, backup), "backup kept at "@ + backup),
{
    lemma_front(
        "corrupt zedxcode:"@ + id,
        " marker block (one marker missing or out of order); fix the file manually"@,
    );
    let c = "cannot find insertion point in "@ + path;
    let d = MarkerError::NoCloser.text(id);
    lemma_front(c, ": "@ + d);
    assert(c + (": "@ + d) =~= c + ": "@ + d);
    let t = invalid_text(path, e, backup);
    let h = "post-merge validation of "@ + path;
    let m = "); original restored, backup kept at "@;
    lemma_front(h, " failed ("@ + e + m + backup);
    assert(t =~= h + (" failed ("@ + e + m + backup));
    assert(m =~= ");"@ + " original restored, "@ + "backup kept at "@) by {
        reveal_strlit("); original restored, backup kept at ");
        reveal_strlit(");");
        reveal_strlit(" original restored, ");
        reveal_strlit("backup kept at ");
    }
    let b = " original restored, "@;
    let end = "backup kept at "@;
    lemma_invalid_parts(h, " failed ("@, e, ");"@, b, end, backup);
}

// ---------------------------------------------------------------------------
// The extension and the proxy
// ---------------------------------------------------------------------------

/// A release or an asset that cannot be had is named with what went wrong.
pub proof fn lemma_fetch_failure_told(e: Seq<char>, asset: Seq<char>)
    ensures
        has_infix(release_text(e), " ("@ + e + ") and no cached "@),
        has_suffix(no_asset_text(asset), asset),
        download_text(asset, e) == "failed to download "@ + asset + ": "@ + e,
{
    lemma_front("release "@ + PROXY_TAG@ + " of "@ + PROXY_REPO@ + " has no asset "@, asset);
    let h = "failed to fetch GitHub release "@ + PROXY_TAG@ + " from "@ + PROXY_REPO@;
    let part = " ("@ + e + ") and no cached "@;
    let end = " found; install it manually (e.g. `cargo install --path crates/xcode-dap`) or point the `dap.Xcode.binary` setting at an existing binary"@;
    lemma_regrouped(h, " ("@, e);
    lemma_regrouped(h, " ("@ + e, ") and no cached "@);
    lemma_inside(h, part, end);
    lemma_inside_stays(h + part, part, h, PROXY_BIN@);
    lemma_inside_stays(h + part + PROXY_BIN@, part, h, end);
}

/// The client is known by what it calls itself.
pub proof fn lemma_client_named(v: JsonView, a: JsonView, id: Seq<char>)
    requires
        v.get("arguments"@) == Some(a),
    ensures
        a.get("clientID"@) == Some(JsonView::Str(id)) ==> client_id_of(v) == id,
        a.get("clientID"@) is None ==> client_id_of(v) == "unknown"@,
{
}

/// The message of the guard says how long was waited.
pub proof fn lemma_guard_told(secs: nat)
    ensures
        has_infix(guard_text(secs), "within "@ + decimal(secs) + "s."@),
        has_infix(not_initialize_text(), "`initialize`"@),
{
    let h = "xcode-dap: running in DAP mode but no `initialize` request arrived within "@;
    let e = "s. This binary speaks DAP on stdio when started without a subcommand (that is how Zed runs it). Did you mean a subcommand? Try `xcode-dap --help`."@;
    reveal_strlit(
        "xcode-dap: running in DAP mode but no `initialize` request arrived within ",
    );
    reveal_strlit(
        "s. This binary speaks DAP on stdio when started without a subcommand (that is how Zed runs it). Did you mean a subcommand? Try `xcode-dap --help`.",
    );
    reveal_strlit("within ");
    reveal_strlit("s.");
    let t = guard_text(secs);
    let part = "within "@ + decimal(secs) + "s."@;
    let k = h.len() - 7;
    assert(t.subrange(k, k + part.len()) =~= part);
    assert(occurs_at(t, part, k));
    reveal_strlit(
        "xcode-dap: first DAP message was not `initialize` \u{2014} protocol error. Try `xcode-dap --help` if you meant to run a subcommand.",
    );
    reveal_strlit("`initialize`");
    assert(not_initialize_text().subrange(37, 49) =~= "`initialize`"@);
    assert(occurs_at(not_initialize_text(), "`initialize`"@, 37));
}

/// The launch is told with the bundle identifier, and that it waits for the debugger where it
/// does.
pub proof fn lemma_launch_told(
    p: PlanView,
    udid: Seq<char>,
    app: Seq<char>,
    id: Seq<char>,
    pid: i64,
)
    requires
        stem_of(app) is Some,
    ensures
        turn_files(p, udid, app, id).lines.len() == 1,
        has_prefix(turn_files(p, udid, app, id).lines[0], "Launching "@ + id),
        p.debug ==> turn_files(p, udid, app, id).lines[0] == "Launching "@ + id
            + " (waiting for debugger)"@ + "..."@,
        !p.debug ==> turn_files(p, udid, app, id).lines[0] == "Launching "@ + id + "..."@,
        turn_launched(p, udid, app, id, pid).lines == seq![
            "Launched "@ + id + " (pid "@ + decimal_int(pid as int) + ")"@,
        ],
{
    let h = "Launching "@ + id;
    reveal_strlit("");
    lemma_front(h, " (waiting for debugger)"@ + "..."@);
    lemma_regrouped(h, " (waiting for debugger)"@, "..."@);
    lemma_front(h, "..."@);
    assert(h + ""@ + "..."@ =~= h + "..."@);
}

/// A message is summed up by its kind, its name, its number, the number it answers and whether
/// it succeeded.
pub proof fn lemma_summary(v: JsonView, kind: Seq<char>, name: Seq<char>, ok: bool)
    requires
        v.get("type"@) == Some(JsonView::Str(kind)),
        v.get("command"@) == Some(JsonView::Str(name)),
        v.get("seq"@) is None,
        v.get("request_seq"@) is None,
        v.get("success"@) == Some(JsonView::Bool(ok)),
    ensures
        summary(v) == kind + " "@ + name + if ok {
            " success=true"@
        } else {
            " success=false"@
        },
{
    reveal_strlit(" ");
    let t = if ok {
        " success=true"@
    } else {
        " success=false"@
    };
    assert(summary(v) =~= kind + " "@ + name + t);
}

/// A workspace without a scheme is named, and of several schemes each.
pub proof fn lemma_schemes_told(v: JsonView, workspace: Seq<char>, k: int)
    requires
        0 <= k < all_schemes(v).len() || all_schemes(v).len() == 0,
    ensures
        all_schemes(v).len() == 0 ==> only_scheme(v, workspace) == Err::<Seq<char>, Seq<char>>(
            "xcodebuild -list reported no schemes for "@ + workspace,
        ),
        all_schemes(v).len() > 1 ==> (only_scheme(v, workspace) matches Err(t) && has_infix(
            t,
            all_schemes(v)[k],
        )),
{
    let all = all_schemes(v);
    if all.len() > 1 {
        lemma_listed_inside(all, "\n  "@, k);
        lemma_inside_stays(
            joined_with(all, "\n  "@),
            all[k],
            "multiple schemes \u{2014} pass --scheme \"<name>\":\n  "@,
            ""@,
        );
    }
}

/// Settings that name no product say so.
pub proof fn lemma_no_product_told(v: JsonView)
    ensures
        v !is Array ==> app_of(v) == Err::<Seq<char>, Seq<char>>(
            "-showBuildSettings JSON is not an array"@,
        ) && root_of(v) == Err::<Seq<char>, Seq<char>>("-showBuildSettings JSON is not an array"@),
        v matches JsonView::Array(a) ==> (app_of(v) is Err ==> app_of(v) == Err::<
            Seq<char>,
            Seq<char>,
        >("no .app product found in -showBuildSettings output"@)),
        v matches JsonView::Array(a) ==> (root_of(v) is Err ==> root_of(v) == Err::<
            Seq<char>,
            Seq<char>,
        >("no BUILD_DIR in -showBuildSettings output"@)),
{
}

} // verus!
