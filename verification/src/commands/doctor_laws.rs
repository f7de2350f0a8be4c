//! What the checks of `doctor` find wrong, and what they pass.

use crate::commands::doctor::app_places;
use crate::commands::doctor::argv_finding;
use crate::commands::doctor::argv_in;
use crate::commands::doctor::argv_state;
use crate::commands::doctor::command_finding;
use crate::commands::doctor::counted;
use crate::commands::doctor::counted_devices;
use crate::commands::doctor::counted_in;
use crate::commands::doctor::counts;
use crate::commands::doctor::document_runs;
use crate::commands::doctor::finding_line;
use crate::commands::doctor::first_printed;
use crate::commands::doctor::found;
use crate::commands::doctor::graded;
use crate::commands::doctor::holds_activity_log;
use crate::commands::doctor::is_container;
use crate::commands::doctor::is_pidfile;
use crate::commands::doctor::log_finding;
use crate::commands::doctor::override_class;
use crate::commands::doctor::override_findings;
use crate::commands::doctor::override_in;
use crate::commands::doctor::override_read;
use crate::commands::doctor::scheme_mismatch;
use crate::commands::doctor::set_flags;
use crate::commands::doctor::simctl_finding;
use crate::commands::doctor::stale_upto;
use crate::commands::doctor::task_runs;
use crate::commands::doctor::tool_finding;
use crate::commands::doctor::unreadable_server;
use crate::commands::doctor::with_extension;
use crate::commands::doctor::BinaryOverride;
use crate::commands::doctor::Finding;
use crate::commands::doctor::Grade;
use crate::commands::doctor::LogSeen;
use crate::commands::doctor::RunFile;
use crate::commands::doctor::SimctlOutput;
use crate::commands::select::ios_version;
use crate::commands::select_laws::lemma_texts_found;
use crate::json::lemma_member_at;
use crate::json::serde_parse;
use crate::json::JsonView;
use crate::number::decimal;
use crate::order::text_rank;
use crate::setup::jsonc::jsonc_parsed;
use crate::setup::project::unquoted;
use crate::text::has_infix;
use crate::text::has_prefix;
use crate::text::has_suffix;
use crate::text::lines_of;
use crate::text::lossy_text;
use crate::text::occurs_at;
use crate::text::trimmed;
use crate::util::paths::extension_of;
use crate::util::paths::joined;
use vstd::prelude::*;

verus! {

// ---------------------------------------------------------------------------
// The report
// ---------------------------------------------------------------------------

/// A finding is printed behind the sign of its grade: a check mark, a cross, an
/// exclamation mark or a dash. What it says follows its label behind a colon.
pub proof fn lemma_report_line(label: Seq<char>, detail: Seq<char>)
    requires
        detail.len() > 0,
    ensures
        finding_line(found(Grade::Pass, label, detail)) == "\u{2713} "@ + label + ": "@ + detail,
        finding_line(found(Grade::Fail, label, detail)) == "\u{2717} "@ + label + ": "@ + detail,
        finding_line(found(Grade::Warn, label, detail)) == "! "@ + label + ": "@ + detail,
        finding_line(found(Grade::Note, label, detail)) == "\u{2013} "@ + label + ": "@ + detail,
        finding_line(found(Grade::Pass, label, ""@)) == "\u{2713} "@ + label,
        finding_line(found(Grade::Fail, label, ""@)) == "\u{2717} "@ + label,
{
    reveal_strlit("");
}

/// Every finding is counted under its own grade and under no other, so that the counts add
/// up to the number of findings, and a count is zero exactly where no finding has the grade.
pub proof fn lemma_grades_counted(fs: Seq<Finding>, n: int)
    requires
        0 <= n <= fs.len(),
    ensures
        graded(fs, Grade::Pass, n) + graded(fs, Grade::Fail, n) + graded(fs, Grade::Warn, n)
            + graded(fs, Grade::Note, n) == n,
        forall|g: Grade|
            #![trigger graded(fs, g, n)]
            graded(fs, g, n) >= 0 && (graded(fs, g, n) == 0 <==> forall|i: int|
                0 <= i < n ==> #[trigger] fs[i].grade != g),
    decreases n,
{
    if n > 0 {
        lemma_grades_counted(fs, n - 1);
        assert forall|g: Grade| true implies #[trigger] graded(fs, g, n) >= 0 && (graded(fs, g, n)
            == 0 <==> forall|i: int| 0 <= i < n ==> #[trigger] fs[i].grade != g) by {
            assert(graded(fs, g, n - 1) >= 0);
            if graded(fs, g, n) == 0 {
                assert(fs[n - 1].grade != g);
            } else if fs[n - 1].grade != g {
                assert(graded(fs, g, n - 1) > 0);
                let i = choose|i: int| 0 <= i < n - 1 && fs[i].grade == g;
                assert(fs[i].grade == g);
            }
        }
    }
}

/// A tool that was found passes with the place it was found at; one that was not fails with
/// what to do about it.
pub proof fn lemma_tool_graded(label: Seq<char>, at: Seq<char>, missing: Seq<char>)
    ensures
        tool_finding(label, Some(at), missing).grade == Grade::Pass,
        tool_finding(label, Some(at), missing).detail == at,
        tool_finding(label, None, missing).grade == Grade::Fail,
        tool_finding(label, None, missing).detail == missing,
        tool_finding(label, Some(at), missing).label == label,
        tool_finding(label, None, missing).label == label,
{
}

/// Nothing is taken from a command that failed, nor from one that printed nothing; otherwise
/// it is the first line, without the white space round it.
pub proof fn lemma_first_line_taken(printed: Seq<char>)
    ensures
        first_printed(false, printed) is None,
        first_printed(true, printed) matches Some(l) ==> l.len() > 0 && lines_of(printed).len() > 0
            && l == trimmed(lines_of(printed)[0]),
        (lines_of(printed).len() > 0 && trimmed(lines_of(printed)[0]).len() > 0) ==> first_printed(
            true,
            printed,
        ) is Some,
{
}

// ---------------------------------------------------------------------------
// Simulators
// ---------------------------------------------------------------------------

/// A device counts where it is available and its name says iPhone or iPad.
pub proof fn lemma_device_counts(dev: JsonView, name: Seq<char>)
    requires
        dev.get("name"@) == Some(JsonView::Str(name)),
    ensures
        counts(dev) <==> dev.get("isAvailable"@) == Some(JsonView::Bool(true)) && (has_prefix(
            name,
            "iPhone"@,
        ) || has_prefix(name, "iPad"@)),
{
}

/// The devices of two listings one behind the other are counted one after the other. A
/// device that counts adds one entry, which says whether it is booted; any other adds none.
pub proof fn lemma_devices_counted(a: Seq<JsonView>, b: Seq<JsonView>)
    ensures
        counted(a + b, (a + b).len() as int) == counted(a, a.len() as int) + counted(
            b,
            b.len() as int,
        ),
        counted(a, a.len() as int).len() <= a.len(),
        b.len() == 1 && counts(b[0]) ==> counted(b, 1) == seq![
            b[0].get("state"@) == Some(JsonView::Str("Booted"@)),
        ],
        b.len() == 1 && !counts(b[0]) ==> counted(b, 1) == Seq::<bool>::empty(),
    decreases b.len(),
{
    if b.len() == 0 {
        assert(a + b =~= a);
        lemma_counted_len(a, a.len() as int);
    } else {
        let f = b.drop_last();
        lemma_devices_counted(a, f);
        let whole = a + b;
        lemma_counted_front(whole, a + f, (a + f).len() as int);
        lemma_counted_front(b, f, f.len() as int);
        assert(whole[whole.len() - 1] == b.last());
        assert(counted(whole, whole.len() as int) =~= counted(a, a.len() as int) + counted(
            b,
            b.len() as int,
        ));
        if b.len() == 1 {
            assert(counted(b, 0) =~= Seq::<bool>::empty());
            assert(counted(b, 1) =~= if counts(b[0]) {
                seq![b[0].get("state"@) == Some(JsonView::Str("Booted"@))]
            } else {
                Seq::<bool>::empty()
            });
        }
    }
}

proof fn lemma_counted_len(a: Seq<JsonView>, n: int)
    requires
        0 <= n <= a.len(),
    ensures
        counted(a, n).len() <= n,
    decreases n,
{
    if n > 0 {
        lemma_counted_len(a, n - 1);
    }
}

proof fn lemma_counted_front(whole: Seq<JsonView>, front: Seq<JsonView>, n: int)
    requires
        0 <= n <= front.len() <= whole.len(),
        forall|i: int| 0 <= i < front.len() ==> #[trigger] whole[i] == front[i],
    ensures
        counted(whole, n) == counted(front, n),
    decreases n,
{
    if n > 0 {
        lemma_counted_front(whole, front, n - 1);
        assert(whole[n - 1] == front[n - 1]);
    }
}

/// Only the devices of iOS runtimes are counted: a runtime of anything else adds nothing, and
/// one of iOS adds its devices behind those of the runtimes before it.
pub proof fn lemma_runtimes_counted(rs: Seq<(Seq<char>, JsonView)>, n: int)
    requires
        0 < n <= rs.len(),
    ensures
        ios_version(rs[n - 1].0) is None ==> counted_in(rs, n) == counted_in(rs, n - 1),
        ios_version(rs[n - 1].0) is Some ==> (rs[n - 1].1 matches JsonView::Array(entries)
            ==> counted_in(rs, n) == counted_in(rs, n - 1) + counted(entries, entries.len() as int)),
        counted_in(rs, 0) == Seq::<bool>::empty(),
        counted_devices(
            JsonView::Object(seq![("devices"@, JsonView::Object(rs))]),
        ) == counted_in(rs, rs.len() as int),
{
    lemma_member_at(seq![("devices"@, JsonView::Object(rs))], 0, "devices"@);
}

/// The number of set flags is that of the positions that hold one.
pub proof fn lemma_booted_counted(flags: Seq<bool>, n: int)
    requires
        0 <= n <= flags.len(),
    ensures
        0 <= set_flags(flags, n) <= n,
        set_flags(flags, n) == 0 <==> forall|i: int| 0 <= i < n ==> !#[trigger] flags[i],
        set_flags(flags, n) == n <==> forall|i: int| 0 <= i < n ==> #[trigger] flags[i],
    decreases n,
{
    if n > 0 {
        lemma_booted_counted(flags, n - 1);
        if flags[n - 1] {
            assert(set_flags(flags, n) == set_flags(flags, n - 1) + 1);
            if set_flags(flags, n) == n {
                assert forall|i: int| 0 <= i < n implies #[trigger] flags[i] by {
                    if i < n - 1 {
                        assert(set_flags(flags, n - 1) == n - 1);
                    }
                }
            } else {
                let i = choose|i: int| 0 <= i < n - 1 && !flags[i];
                assert(!flags[i]);
            }
        } else {
            assert(set_flags(flags, n) == set_flags(flags, n - 1));
            if set_flags(flags, n) != 0 {
                let i = choose|i: int| 0 <= i < n - 1 && flags[i];
                assert(flags[i]);
            }
        }
    }
}

/// The simulators pass exactly where the listing could be read and holds a device that
/// counts, and then the finding says how many there are and how many are booted.
pub proof fn lemma_simulators_graded(out: SimctlOutput)
    ensures
        simctl_finding(out).grade == Grade::Pass <==> (out matches SimctlOutput::Printed(o)
            && serde_parse(o@) matches Ok(v) && counted_devices(v).len() > 0),
        simctl_finding(out).grade == Grade::Pass || simctl_finding(out).grade == Grade::Fail,
        simctl_finding(out).label == "simulators"@ <==> (out matches SimctlOutput::Printed(o)
            && serde_parse(o@) is Ok),
        out matches SimctlOutput::Failed(e) ==> has_suffix(
            simctl_finding(out).detail,
            trimmed(lossy_text(e@)),
        ),
        out matches SimctlOutput::Printed(o) ==> (serde_parse(o@) matches Ok(v) ==> (
        counted_devices(v).len() > 0 ==> simctl_finding(out).detail == decimal(
            counted_devices(v).len(),
        ) + " available, "@ + decimal(
            set_flags(counted_devices(v), counted_devices(v).len() as int) as nat,
        ) + " booted"@)),
{
    reveal_strlit("simctl");
    reveal_strlit("simulators");
    assert("simctl"@.len() != "simulators"@.len());
    if let SimctlOutput::Failed(e) = out {
        let t = trimmed(lossy_text(e@));
        let d = simctl_finding(out).detail;
        assert(d.subrange(d.len() - t.len(), d.len() as int) =~= t);
    }
}

// ---------------------------------------------------------------------------
// Zed and its settings
// ---------------------------------------------------------------------------

/// Zed is looked for by four names, each first among the applications of the machine and
/// then among those of the user, the released one before all others.
pub proof fn lemma_zed_places(home: Seq<char>, i: int)
    requires
        0 <= i < 4,
    ensures
        app_places(home).len() == 8,
        ({
            let name = seq!["Zed.app"@, "Zed Preview.app"@, "Zed Nightly.app"@, "Zed Dev.app"@][i];
            &&& app_places(home)[2 * i] == joined("/Applications"@, name)
            &&& app_places(home)[2 * i + 1] == joined(joined(home, "Applications"@), name)
        }),
{
    assert(i == 0 || i == 1 || i == 2 || i == 3);
}

/// An override is relative where it does not begin at the root. One that does is missing
/// where nothing is there, a development build where it lies under `target/debug/`, and fine
/// otherwise.
pub proof fn lemma_override_classes(path: Seq<char>, exists_there: bool)
    ensures
        override_class(path, exists_there) is Relative <==> !(path.len() > 0 && path[0] == '/'),
        override_class(path, exists_there) is Missing <==> path.len() > 0 && path[0] == '/'
            && !exists_there,
        override_class(path, exists_there) is DevBuild <==> path.len() > 0 && path[0] == '/'
            && exists_there && has_infix(path, "target/debug/"@),
        override_class(path, exists_there) is Fine <==> path.len() > 0 && path[0] == '/'
            && exists_there && !has_infix(path, "target/debug/"@),
        override_class(path, exists_there) matches BinaryOverride::Relative { dev_build }
            ==> dev_build == has_infix(path, "target/debug/"@),
{
}

/// The override is read at `dap`, `Xcode`, `binary` of the settings.
pub proof fn lemma_override_read(settings: JsonView, dap: JsonView, xcode: JsonView, b: Seq<char>)
    ensures
        override_in(settings) == Some(b) <==> (settings.get("dap"@) matches Some(d) && d.get(
            "Xcode"@,
        ) matches Some(x) && x.get("binary"@) == Some(JsonView::Str(b))),
        settings.get("dap"@) == Some(dap) && dap.get("Xcode"@) == Some(xcode) && xcode.get(
            "binary"@,
        ) == Some(JsonView::Str(b)) ==> override_in(settings) == Some(b),
{
}

/// That no override is set is no fault, and neither is it that there are no settings; only
/// settings that cannot be read are warned of.
pub proof fn lemma_override_looked_up(path: Seq<char>, text: Seq<char>)
    ensures
        override_read(None, None) matches Err(f) && f.grade == Grade::Note && f.label
            == "dap.Xcode.binary"@,
        override_read(Some(path), None) matches Err(f) && f.grade == Grade::Note && f.label
            == "dap.Xcode.binary"@,
        override_read(Some(path), Some(text)) matches Ok(b) ==> (jsonc_parsed(text) matches Ok(v)
            && override_in(v) == Some(b)),
        override_read(Some(path), Some(text)) matches Err(f) ==> f.label == "dap.Xcode.binary"@
            && (f.grade == Grade::Warn <==> jsonc_parsed(text) is Err) && (f.grade == Grade::Note
            <==> jsonc_parsed(text) is Ok),
        jsonc_parsed(text) matches Ok(v) ==> (override_in(v) is Some <==> override_read(
            Some(path),
            Some(text),
        ) is Ok),
{
}

/// An override fails the check exactly where it is a path from the root and nothing is
/// there, passes exactly where it is one that is fine, and a development build is always
/// warned of.
pub proof fn lemma_override_graded(
    binary: Seq<char>,
    exists_there: bool,
    built: Seq<char>,
    settings: Seq<char>,
)
    requires
        binary.len() > 0,
    ensures
        ({
            let fs = override_findings(binary, exists_there, built, settings);
            let rooted = binary[0] == '/';
            let dev = has_infix(binary, "target/debug/"@);
            &&& fs.len() == if !rooted && dev {
                2int
            } else {
                1int
            }
            &&& forall|i: int| 0 <= i < fs.len() ==> #[trigger] fs[i].label == "dap.Xcode.binary"@
            &&& fs[0].grade == if !rooted {
                Grade::Note
            } else if !exists_there {
                Grade::Fail
            } else if dev {
                Grade::Warn
            } else {
                Grade::Pass
            }
            &&& !rooted && dev ==> fs[1].grade == Grade::Warn && has_prefix(
                fs[1].detail,
                "dev-build override "@ + binary,
            )
            &&& !rooted ==> has_prefix(fs[0].detail, binary)
            &&& rooted && !exists_there ==> has_prefix(fs[0].detail, binary) && has_suffix(
                fs[0].detail,
                settings,
            )
            &&& rooted && exists_there && !dev ==> fs[0].detail == binary
            &&& rooted && exists_there && dev ==> has_prefix(
                fs[0].detail,
                "dev-build override "@ + binary + " (mtime "@ + built + ")"@,
            )
        }),
{
    let fs = override_findings(binary, exists_there, built, settings);
    let d = fs[0].detail;
    if binary[0] != '/' {
        assert(d.subrange(0, binary.len() as int) =~= binary);
        if has_infix(binary, "target/debug/"@) {
            let p = "dev-build override "@ + binary;
            assert(fs[1].detail.subrange(0, p.len() as int) =~= p);
        }
    }
    if binary[0] == '/' {
        if !exists_there {
            assert(d.subrange(0, binary.len() as int) =~= binary);
            assert(d.subrange(d.len() - settings.len(), d.len() as int) =~= settings);
        } else if has_infix(binary, "target/debug/"@) {
            reveal_strlit(")");
            reveal_strlit(
                ") \u{2014} this binary goes stale silently; point it at a stable install (e.g. $(brew --prefix)/bin/xcode-dap \u{2014} see install.sh) or rebuild after every change",
            );
            let p = "dev-build override "@ + binary + " (mtime "@ + built + ")"@;
            assert(d.subrange(0, p.len() as int) =~= p);
        }
    }
}

// ---------------------------------------------------------------------------
// The project
// ---------------------------------------------------------------------------

proof fn lemma_extension_kept(names: Seq<Seq<char>>, ext: Seq<char>, n: int, name: Seq<char>)
    requires
        0 <= n <= names.len(),
    ensures
        with_extension(names, ext, n).contains(name) <==> exists|i: int|
            0 <= i < n && #[trigger] names[i] == name && extension_of(name) == Some(ext),
        with_extension(names, ext, n).len() <= n,
    decreases n,
{
    if n > 0 {
        lemma_extension_kept(names, ext, n - 1, name);
        let before = with_extension(names, ext, n - 1);
        let now = with_extension(names, ext, n);
        if now.contains(name) {
            let k = choose|k: int| 0 <= k < now.len() && now[k] == name;
            if k < before.len() {
                assert(before[k] == name);
                assert(before.contains(name));
                let i = choose|i: int|
                    0 <= i < n - 1 && #[trigger] names[i] == name && extension_of(name) == Some(ext);
                assert(names[i] == name);
            } else {
                assert(names[n - 1] == name);
            }
        }
        if exists|i: int|
            0 <= i < n && #[trigger] names[i] == name && extension_of(name) == Some(ext) {
            let i = choose|i: int|
                0 <= i < n && #[trigger] names[i] == name && extension_of(name) == Some(ext);
            if i < n - 1 {
                assert(names[i] == name);
                assert(before.contains(name));
                let k = choose|k: int| 0 <= k < before.len() && before[k] == name;
                assert(now[k] == name);
            } else {
                assert(now[before.len() as int] == name);
            }
        }
    }
}

/// The container of a directory is one of its entries: a workspace where there is one, else a
/// project, and of several the one whose name comes first. There is none only where no entry
/// is a workspace or a project.
pub proof fn lemma_container_found(names: Seq<Seq<char>>, r: Option<Seq<char>>, other: Seq<char>)
    requires
        is_container(names, r),
        names.contains(other),
    ensures
        r matches Some(n) ==> names.contains(n) && (extension_of(n) == Some("xcworkspace"@)
            || extension_of(n) == Some("xcodeproj"@)),
        extension_of(other) == Some("xcworkspace"@) ==> (r matches Some(n) && extension_of(n)
            == Some("xcworkspace"@) && !(text_rank(n, other) is After)),
        extension_of(other) == Some("xcodeproj"@) ==> (r matches Some(n) && (extension_of(n)
            == Some("xcworkspace"@) || !(text_rank(n, other) is After))),
{
    let len = names.len() as int;
    let ws = with_extension(names, "xcworkspace"@, len);
    let ps = with_extension(names, "xcodeproj"@, len);
    let at = choose|i: int| 0 <= i < names.len() && names[i] == other;
    assert(names[at] == other);
    lemma_extension_kept(names, "xcworkspace"@, len, other);
    lemma_extension_kept(names, "xcodeproj"@, len, other);
    if let Some(n) = r {
        lemma_extension_kept(names, "xcworkspace"@, len, n);
        lemma_extension_kept(names, "xcodeproj"@, len, n);
        if ws.contains(other) {
            let k = choose|k: int| 0 <= k < ws.len() && ws[k] == other;
            assert(!(text_rank(n, ws[k]) is After));
        }
        if ps.contains(other) {
            let k = choose|k: int| 0 <= k < ps.len() && ps[k] == other;
            assert(!(text_rank(n, ps[k]) is After) || ws.len() > 0);
        }
    } else {
        if ws.contains(other) {
            let k = choose|k: int| 0 <= k < ws.len() && ws[k] == other;
            assert(false);
        }
        if ps.contains(other) {
            let k = choose|k: int| 0 <= k < ps.len() && ps[k] == other;
            assert(false);
        }
    }
}

/// The command line of the build server is what `argv` lists.
pub proof fn lemma_argv_read(v: JsonView, items: Seq<JsonView>, k: int)
    requires
        v.get("argv"@) == Some(JsonView::Array(items)),
        forall|i: int| 0 <= i < items.len() ==> #[trigger] items[i] is Str,
    ensures
        argv_in(v).len() == items.len(),
        0 <= k < items.len() ==> items[k] == JsonView::Str(argv_in(v)[k]),
{
    lemma_texts_found(items, items.len() as int, k);
}

/// The command line of the build server is fine exactly where its program can be run, its
/// first argument is `bsp` and it is no development build.
pub proof fn lemma_argv_classes(argv: Seq<Seq<char>>, exec: bool)
    ensures
        argv_state(argv, exec) is Missing <==> argv.len() == 0,
        argv_state(argv, exec) is NotExecutable <==> argv.len() > 0 && !exec,
        argv_state(argv, exec) is WrongSubcommand <==> argv.len() > 0 && exec && !(argv.len() > 1
            && argv[1] == "bsp"@),
        argv_state(argv, exec) is DevBuild <==> argv.len() > 1 && exec && argv[1] == "bsp"@
            && has_infix(argv[0], "target/debug/"@),
        argv_state(argv, exec) is Fine <==> argv.len() > 1 && exec && argv[1] == "bsp"@
            && !has_infix(argv[0], "target/debug/"@),
{
}

/// A command line that cannot start the build server fails, a development build is warned
/// of, and one that runs another build of this program than this one is noted.
pub proof fn lemma_argv_graded(argv: Seq<Seq<char>>, exec: bool, current: Option<Seq<char>>)
    ensures
        ({
            let f = argv_finding(argv, exec, current);
            let starts = argv.len() > 1 && exec && argv[1] == "bsp"@;
            let dev = has_infix(argv[0], "target/debug/"@);
            let ours = current is None || current == Some(argv[0]);
            &&& f.grade == Grade::Fail <==> !starts
            &&& f.grade == Grade::Warn <==> starts && dev
            &&& f.grade == Grade::Note <==> starts && !dev && !ours
            &&& f.grade == Grade::Pass <==> starts && !dev && ours
            &&& f.grade == Grade::Pass ==> f.detail == argv[0]
            &&& argv.len() > 0 && !exec ==> has_prefix(f.detail, argv[0])
            &&& starts ==> has_prefix(f.detail, argv[0])
            &&& f.grade == Grade::Note ==> has_infix(f.detail, current->0)
            &&& has_prefix(f.label, "buildServer.json"@)
        }),
{
    let f = argv_finding(argv, exec, current);
    if argv.len() > 0 {
        if has_prefix(f.detail, argv[0]) {
        } else if !exec || (argv.len() > 1 && argv[1] == "bsp"@) {
            assert(f.detail.subrange(0, argv[0].len() as int) =~= argv[0]);
        }
        if f.grade == Grade::Note {
            reveal_strlit(" (this xcode-dap is ");
            let k = (argv[0] + " (this xcode-dap is "@).len() as int;
            assert(f.detail.subrange(k, k + current->0.len()) =~= current->0);
            assert(occurs_at(f.detail, current->0, k));
        }
    }
    reveal_strlit("buildServer.json");
    reveal_strlit("buildServer.json argv");
    reveal_strlit("buildServer.json argv[0]");
    assert(f.label.subrange(0, 16) =~= "buildServer.json"@);
    assert("buildServer.json"@.len() == 16);
}

/// A build server file that cannot be read is warned of under its name.
pub proof fn lemma_unreadable_server()
    ensures
        unreadable_server().grade == Grade::Warn,
        unreadable_server().label == "buildServer.json"@,
{
}

/// A directory holds an activity log where one of its entries is named so.
pub proof fn lemma_activity_log(names: Seq<Seq<char>>, i: int)
    requires
        0 <= i < names.len(),
    ensures
        extension_of(names[i]) == Some("xcactivitylog"@) ==> holds_activity_log(names),
        (forall|k: int|
            0 <= k < names.len() ==> extension_of(#[trigger] names[k]) != Some("xcactivitylog"@))
            ==> !holds_activity_log(names),
{
}

/// Two schemes disagree where both are known and they are not the same; the recorded one
/// comes first.
pub proof fn lemma_schemes_disagree(recorded: Seq<char>, selected: Seq<char>)
    ensures
        recorded != selected ==> scheme_mismatch(Some(recorded), Some(selected)) == Some(
            (recorded, selected),
        ),
        scheme_mismatch(Some(recorded), Some(recorded)) is None,
        scheme_mismatch(None, Some(selected)) is None,
        scheme_mismatch(Some(recorded), None) is None,
        scheme_mismatch(None, None) is None,
{
}

/// A document of tasks runs a command exactly where one of its tasks names it.
pub proof fn lemma_tasks_run(tasks: Seq<JsonView>, command: Seq<char>, i: int)
    requires
        0 <= i < tasks.len(),
    ensures
        (tasks[i].get("command"@) matches Some(JsonView::Str(c)) && unquoted(c) == command)
            ==> document_runs(JsonView::Array(tasks), command),
        (forall|k: int|
            0 <= k < tasks.len() ==> !((#[trigger] tasks[k]).get("command"@) matches Some(
                JsonView::Str(c),
            ) && unquoted(c) == command)) ==> !document_runs(JsonView::Array(tasks), command),
        !document_runs(tasks[i], command) || tasks[i] is Array,
{
    if tasks[i].get("command"@) matches Some(JsonView::Str(c)) && unquoted(c) == command {
        assert(task_runs(tasks[i], command));
    }
}

/// The command of a task passes where it is a path to something that can be run, or a name
/// that is found on the path, and fails otherwise.
pub proof fn lemma_task_command_graded(command: Seq<char>, exec: bool, on_path: Option<Seq<char>>)
    ensures
        command_finding(command, exec, on_path).grade == Grade::Pass <==> if command.contains('/') {
            exec
        } else {
            on_path is Some
        },
        command_finding(command, exec, on_path).grade != Grade::Pass ==> command_finding(
            command,
            exec,
            on_path,
        ).grade == Grade::Fail,
        command_finding(command, exec, on_path).label == ".zed/tasks.json command"@,
        command_finding(command, exec, on_path).grade == Grade::Pass ==> has_prefix(
            command_finding(command, exec, on_path).detail,
            command,
        ),
{
    let d = command_finding(command, exec, on_path).detail;
    if command_finding(command, exec, on_path).grade == Grade::Pass {
        assert(d.subrange(0, command.len() as int) =~= command);
    }
}

// ---------------------------------------------------------------------------
// Files of earlier runs
// ---------------------------------------------------------------------------

/// Of the files of earlier runs exactly those are stale that are named as pid files and whose
/// process has ended.
pub proof fn lemma_stale_files(files: Seq<RunFile>, n: int, i: int)
    requires
        0 <= i < n <= files.len(),
    ensures
        (has_suffix(files[i].name@, ".pid"@) || has_suffix(files[i].name@, ".dappid"@))
            && !files[i].alive ==> stale_upto(files, n).contains(files[i].name@),
        (forall|k: int|
            0 <= k < n ==> (#[trigger] files[k]).alive || !(has_suffix(files[k].name@, ".pid"@)
                || has_suffix(files[k].name@, ".dappid"@))) ==> stale_upto(files, n).len() == 0,
        stale_upto(files, n).len() <= n,
    decreases n,
{
    let before = stale_upto(files, n - 1);
    let now = stale_upto(files, n);
    if n > 1 {
        lemma_stale_files(files, n - 1, if i < n - 1 {
            i
        } else {
            0
        });
    }
    if i < n - 1 {
        if before.contains(files[i].name@) {
            let k = choose|k: int| 0 <= k < before.len() && before[k] == files[i].name@;
            assert(now[k] == files[i].name@);
        }
    } else if is_pidfile(files[i].name@) && !files[i].alive {
        assert(now[before.len() as int] == files[i].name@);
    }
    assert(files[n - 1].alive || !is_pidfile(files[n - 1].name@) ==> now == before);
}

/// The log passes where it was there, before this run or now, and is noted otherwise; its
/// path is named either way.
pub proof fn lemma_log_graded(path: Seq<char>, seen: LogSeen)
    ensures
        log_finding(Some(path), seen).grade == Grade::Pass <==> (seen matches LogSeen::Before(Some(_))
            || seen matches LogSeen::Now(Some(_))),
        log_finding(Some(path), seen).grade == Grade::Note <==> (seen matches LogSeen::Before(None)
            || seen matches LogSeen::Now(None)),
        log_finding(None, seen).grade == Grade::Note,
        log_finding(Some(path), seen).label == "xcode-dap.log"@,
        log_finding(Some(path), seen).grade == Grade::Pass ==> has_prefix(
            log_finding(Some(path), seen).detail,
            path,
        ),
        seen matches LogSeen::Now(Some(f)) ==> has_prefix(
            log_finding(Some(path), seen).detail,
            path + " ("@ + decimal((f.len / 1024) as nat) + " KB, modified "@,
        ),
        seen matches LogSeen::Before(Some(f)) ==> has_suffix(
            log_finding(Some(path), seen).detail,
            ", before this run)"@,
        ),
{
    let d = log_finding(Some(path), seen).detail;
    if log_finding(Some(path), seen).grade == Grade::Pass {
        assert(d.subrange(0, path.len() as int) =~= path);
    }
    if let LogSeen::Now(Some(f)) = seen {
        let p = path + " ("@ + decimal((f.len / 1024) as nat) + " KB, modified "@;
        assert(d.subrange(0, p.len() as int) =~= p);
    }
    if let LogSeen::Before(Some(_)) = seen {
        let e = ", before this run)"@;
        assert(d.subrange(d.len() - e.len(), d.len() as int) =~= e);
    }
}

} // verus!
