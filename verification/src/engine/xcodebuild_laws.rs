//! What xcodebuild is told and what is made of what it says.

use crate::engine::config::BuildOutput;
use crate::engine::config::ConfigView;
use crate::engine::xcodebuild::ancestor;
use crate::engine::xcodebuild::app_in;
use crate::engine::xcodebuild::app_of;
use crate::engine::xcodebuild::build_words;
use crate::engine::xcodebuild::cached_path;
use crate::engine::xcodebuild::chomped;
use crate::engine::xcodebuild::clean_words;
use crate::engine::xcodebuild::failed_text;
use crate::engine::xcodebuild::first_app;
use crate::engine::xcodebuild::first_root;
use crate::engine::xcodebuild::indented;
use crate::engine::xcodebuild::kept_errors;
use crate::engine::xcodebuild::root_in;
use crate::engine::xcodebuild::root_of;
use crate::engine::xcodebuild::settings_words;
use crate::engine::xcodebuild::show_root_words;
use crate::engine::xcodebuild::show_words;
use crate::engine::xcodebuild::stream_step;
use crate::engine::xcodebuild::BuildFailed;
use crate::engine::xcodebuild::CacheEntryView;
use crate::engine::xcodebuild::LineFilter;
use crate::engine::xcodebuild::StreamView;
use crate::json::JsonView;
use crate::number::decimal_int;
use crate::text::has_infix;
use crate::text::has_prefix;
use crate::text::has_suffix;
use crate::text::trimmed;
use crate::util::paths::is_project;
use crate::util::paths::joined;
use crate::util::paths::parent_of;
use vstd::prelude::*;
use vstd::utf8::encode_utf8;

verus! {

// ---------------------------------------------------------------------------
// command lines
// ---------------------------------------------------------------------------

/// Whether a flag stands among arguments with a value right behind it.
pub open spec fn passes_flag(args: Seq<Seq<char>>, flag: Seq<char>, value: Seq<char>) -> bool {
    exists|i: int| 0 <= i < args.len() - 1 && #[trigger] args[i] == flag && args[i + 1] == value
}

/// How many arguments the container, the scheme and the options of a configuration take.
pub open spec fn options_end(
    configuration: Option<Seq<char>>,
    derived_data: Option<Seq<char>>,
) -> int {
    4 + (if configuration is Some {
        2int
    } else {
        0
    }) + (if derived_data is Some {
        2int
    } else {
        0
    })
}

/// Whether arguments start with what says what to build: the container by its flag, the
/// scheme, and each option that is set, by its flag and with its value.
pub open spec fn names_build(
    args: Seq<Seq<char>>,
    workspace: Seq<char>,
    scheme: Seq<char>,
    configuration: Option<Seq<char>>,
    derived_data: Option<Seq<char>>,
) -> bool {
    let dd: int = if configuration is Some {
        6
    } else {
        4
    };
    &&& args.len() > options_end(configuration, derived_data)
    &&& args[0] == if is_project(workspace) {
        "-project"@
    } else {
        "-workspace"@
    }
    &&& args[1] == workspace
    &&& args[2] == "-scheme"@
    &&& args[3] == scheme
    &&& configuration matches Some(c) ==> args[4] == "-configuration"@ && args[5] == c
    &&& configuration is None ==> args[4] != "-configuration"@
    &&& derived_data matches Some(d) ==> args[dd] == "-derivedDataPath"@ && args[dd + 1] == d
    &&& derived_data is None ==> args[dd] != "-derivedDataPath"@
}

/// The flags that a command line may hold where another may stand are told apart.
proof fn lemma_flags_differ()
    ensures
        "-configuration"@ != "-derivedDataPath"@,
        "-configuration"@ != "-destination"@,
        "-configuration"@ != "clean"@,
        "-derivedDataPath"@ != "-destination"@,
        "-derivedDataPath"@ != "clean"@,
        "-destination"@ != "clean"@,
{
    reveal_strlit("-configuration");
    reveal_strlit("-derivedDataPath");
    reveal_strlit("-destination");
    reveal_strlit("clean");
    assert("-configuration"@.len() != "-derivedDataPath"@.len());
    assert("-configuration"@.len() != "-destination"@.len());
    assert("-configuration"@.len() != "clean"@.len());
    assert("-derivedDataPath"@.len() != "-destination"@.len());
    assert("-derivedDataPath"@.len() != "clean"@.len());
    assert("-destination"@.len() != "clean"@.len());
}

/// A build names the container, the scheme and every option of its configuration, and
/// goes to the simulator that it is for.
pub proof fn lemma_build_command(cfg: ConfigView, udid: Seq<char>)
    ensures
        ({
            let a = build_words(cfg, udid);
            let n = options_end(cfg.configuration, cfg.derived_data);
            &&& names_build(a, cfg.workspace, cfg.scheme, cfg.configuration, cfg.derived_data)
            &&& a.len() == n + 3
            &&& a[n] == "-destination"@
            &&& a[n + 1] == "platform=iOS Simulator,id="@ + udid
            &&& a[n + 2] == "build"@
        }),
{
    lemma_flags_differ();
}

/// A clean names what a build names, and cleans it.
pub proof fn lemma_clean_command(cfg: ConfigView)
    ensures
        ({
            let a = clean_words(cfg);
            let n = options_end(cfg.configuration, cfg.derived_data);
            &&& names_build(a, cfg.workspace, cfg.scheme, cfg.configuration, cfg.derived_data)
            &&& a.len() == n + 1
            &&& a[n] == "clean"@
        }),
{
    lemma_flags_differ();
}

/// The settings are asked for in JSON, of the very build that they are for.
pub proof fn lemma_show_command(cfg: ConfigView, udid: Seq<char>)
    ensures
        ({
            let a = show_words(cfg, udid);
            let n = options_end(cfg.configuration, cfg.derived_data);
            &&& names_build(a, cfg.workspace, cfg.scheme, cfg.configuration, cfg.derived_data)
            &&& a.len() == n + 5
            &&& a[n] == "-destination"@
            &&& a[n + 1] == "platform=iOS Simulator,id="@ + udid
            &&& a[n + 2] == "-showBuildSettings"@
            &&& a[n + 3] == "-json"@
            &&& a[n + 4] == "build"@
        }),
{
    lemma_flags_differ();
}

/// The build root is asked for without a device.
pub proof fn lemma_show_root_command(
    workspace: Seq<char>,
    scheme: Seq<char>,
    configuration: Option<Seq<char>>,
)
    ensures
        ({
            let a = show_root_words(workspace, scheme, configuration);
            let n = options_end(configuration, None);
            &&& names_build(a, workspace, scheme, configuration, None)
            &&& a.len() == n + 5
            &&& a[n] == "-destination"@
            &&& a[n + 1] == "generic/platform=iOS Simulator"@
            &&& a[n + 2] == "-showBuildSettings"@
            &&& a[n + 3] == "-json"@
            &&& a[n + 4] == "build"@
        }),
{
    lemma_flags_differ();
}

/// The prefix that build, clean and settings share names the build and nothing else.
pub proof fn lemma_shared_prefix(
    workspace: Seq<char>,
    scheme: Seq<char>,
    configuration: Option<Seq<char>>,
    derived_data: Option<Seq<char>>,
)
    ensures
        ({
            let a = settings_words(workspace, scheme, configuration, derived_data);
            &&& a.len() == options_end(configuration, derived_data)
            &&& names_build(a.push("x"@), workspace, scheme, configuration, derived_data)
        }),
{
    lemma_flags_differ();
    reveal_strlit("x");
    reveal_strlit("-configuration");
    reveal_strlit("-derivedDataPath");
    assert("x"@.len() == 1);
}

/// Every option of the configuration reaches the command line of a build, of a clean and
/// of the settings.
pub proof fn lemma_options_passed(cfg: ConfigView, udid: Seq<char>)
    ensures
        cfg.configuration matches Some(c) ==> passes_flag(
            build_words(cfg, udid),
            "-configuration"@,
            c,
        ) && passes_flag(clean_words(cfg), "-configuration"@, c) && passes_flag(
            show_words(cfg, udid),
            "-configuration"@,
            c,
        ),
        cfg.derived_data matches Some(d) ==> passes_flag(
            build_words(cfg, udid),
            "-derivedDataPath"@,
            d,
        ) && passes_flag(clean_words(cfg), "-derivedDataPath"@, d) && passes_flag(
            show_words(cfg, udid),
            "-derivedDataPath"@,
            d,
        ),
        passes_flag(build_words(cfg, udid), "-scheme"@, cfg.scheme),
        passes_flag(clean_words(cfg), "-scheme"@, cfg.scheme),
        passes_flag(show_words(cfg, udid), "-scheme"@, cfg.scheme),
{
    lemma_build_command(cfg, udid);
    lemma_clean_command(cfg);
    lemma_show_command(cfg, udid);
    let dd: int = if cfg.configuration is Some {
        6
    } else {
        4
    };
    let (b, c, s) = (build_words(cfg, udid), clean_words(cfg), show_words(cfg, udid));
    assert(b[2] == "-scheme"@ && c[2] == "-scheme"@ && s[2] == "-scheme"@);
    assert(b[3] == cfg.scheme && c[3] == cfg.scheme && s[3] == cfg.scheme);
    if cfg.configuration is Some {
        assert(b[4] == "-configuration"@ && c[4] == "-configuration"@ && s[4] == "-configuration"@);
    }
    if cfg.derived_data is Some {
        assert(b[dd] == "-derivedDataPath"@ && c[dd] == "-derivedDataPath"@ && s[dd]
            == "-derivedDataPath"@);
    }
}

/// What is built can be read off the command line: two builds with the same arguments are
/// of one container, scheme, configuration and DerivedData, for one simulator.
pub proof fn lemma_build_command_distinct(c1: ConfigView, u1: Seq<char>, c2: ConfigView, u2: Seq<char>)
    requires
        build_words(c1, u1) == build_words(c2, u2),
    ensures
        c1.workspace == c2.workspace,
        c1.scheme == c2.scheme,
        c1.configuration == c2.configuration,
        c1.derived_data == c2.derived_data,
        u1 == u2,
{
    lemma_build_command(c1, u1);
    lemma_build_command(c2, u2);
    lemma_flags_differ();
    let p = "platform=iOS Simulator,id="@;
    assert(options_end(c1.configuration, c1.derived_data) == options_end(
        c2.configuration,
        c2.derived_data,
    ));
    assert((p + u1).skip(p.len() as int) =~= u1);
    assert((p + u2).skip(p.len() as int) =~= u2);
}

/// So can what is cleaned.
pub proof fn lemma_clean_command_distinct(c1: ConfigView, c2: ConfigView)
    requires
        clean_words(c1) == clean_words(c2),
    ensures
        c1.workspace == c2.workspace,
        c1.scheme == c2.scheme,
        c1.configuration == c2.configuration,
        c1.derived_data == c2.derived_data,
{
    lemma_clean_command(c1);
    lemma_clean_command(c2);
    lemma_flags_differ();
}

// ---------------------------------------------------------------------------
// settings
// ---------------------------------------------------------------------------

/// Whether a settings entry builds the app `wrapper` into `dir`.
pub open spec fn builds_app(entry: JsonView, dir: Seq<char>, wrapper: Seq<char>) -> bool {
    entry.get("buildSettings"@) matches Some(s) && s.str_at("WRAPPER_NAME"@) == Some(wrapper)
        && s.str_at("TARGET_BUILD_DIR"@) == Some(dir) && has_suffix(wrapper, ".app"@)
}

/// Whether a settings entry builds some app.
pub open spec fn builds_some_app(entry: JsonView) -> bool {
    exists|d: Seq<char>, w: Seq<char>| #[trigger] builds_app(entry, d, w)
}

/// The app that the settings name is the product of the first entry, from `from` on, whose
/// wrapper is an `.app`, in that entry's own directory.
proof fn lemma_first_app(entries: Seq<JsonView>, from: int)
    requires
        0 <= from,
    ensures
        match first_app(entries, from) {
            Some(p) => exists|i: int, d: Seq<char>, w: Seq<char>|
                from <= i < entries.len() && #[trigger] builds_app(entries[i], d, w) && p
                    == joined(d, w) && forall|j: int|
                    from <= j < i ==> !builds_some_app(#[trigger] entries[j]),
            None => forall|j: int|
                from <= j < entries.len() ==> !builds_some_app(#[trigger] entries[j]),
        },
    decreases entries.len() - from,
{
    if from < entries.len() {
        let e = entries[from];
        if app_in(e) is Some {
            let s = e.get("buildSettings"@)->0;
            let d = s.str_at("TARGET_BUILD_DIR"@)->0;
            let w = s.str_at("WRAPPER_NAME"@)->0;
            assert(builds_app(entries[from], d, w));
        } else {
            lemma_first_app(entries, from + 1);
            assert(!builds_some_app(e));
            if let Some(p) = first_app(entries, from + 1) {
                let (i, d, w) = choose|i: int, d: Seq<char>, w: Seq<char>|
                    from + 1 <= i < entries.len() && #[trigger] builds_app(entries[i], d, w) && p
                        == joined(d, w) && forall|j: int|
                        from + 1 <= j < i ==> !builds_some_app(#[trigger] entries[j]);
                assert(builds_app(entries[i], d, w));
            }
        }
    }
}

/// The app that the settings name is the product of the first entry whose wrapper is an
/// `.app`, in that entry's own directory; without one there is no app.
pub proof fn lemma_app_found(entries: Seq<JsonView>)
    ensures
        match app_of(JsonView::Array(entries)) {
            Ok(p) => exists|i: int, d: Seq<char>, w: Seq<char>|
                0 <= i < entries.len() && #[trigger] builds_app(entries[i], d, w) && p == joined(
                    d,
                    w,
                ) && forall|j: int| 0 <= j < i ==> !builds_some_app(#[trigger] entries[j]),
            Err(_) => forall|j: int|
                0 <= j < entries.len() ==> !builds_some_app(#[trigger] entries[j]),
        },
{
    lemma_first_app(entries, 0);
}

/// The directory two levels above the `BUILD_DIR` of a settings entry.
pub open spec fn root_above(entry: JsonView) -> Option<Seq<char>> {
    match entry.get("buildSettings"@) {
        Some(s) => match s.str_at("BUILD_DIR"@) {
            Some(d) => match parent_of(d) {
                Some(p) => parent_of(p),
                None => None,
            },
            None => None,
        },
        None => None,
    }
}

/// The build root is two levels above the first `BUILD_DIR` that is that deep.
proof fn lemma_first_root(entries: Seq<JsonView>, from: int)
    requires
        0 <= from,
    ensures
        match first_root(entries, from) {
            Some(p) => exists|i: int|
                from <= i < entries.len() && #[trigger] root_above(entries[i]) == Some(p)
                    && forall|j: int| from <= j < i ==> root_above(#[trigger] entries[j]) is None,
            None => forall|j: int|
                from <= j < entries.len() ==> root_above(#[trigger] entries[j]) is None,
        },
    decreases entries.len() - from,
{
    reveal_with_fuel(ancestor, 3);
    if from < entries.len() {
        assert(root_in(entries[from]) == root_above(entries[from]));
        if root_above(entries[from]) is None {
            lemma_first_root(entries, from + 1);
            if let Some(p) = first_root(entries, from + 1) {
                let i = choose|i: int|
                    from + 1 <= i < entries.len() && #[trigger] root_above(entries[i]) == Some(p)
                        && forall|j: int|
                        from + 1 <= j < i ==> root_above(#[trigger] entries[j]) is None;
                assert(root_above(entries[i]) == Some(p));
            }
        }
    }
}

/// The build root that the settings name is two levels above the first `BUILD_DIR` that is
/// that deep; without one there is none.
pub proof fn lemma_root_found(entries: Seq<JsonView>)
    ensures
        match root_of(JsonView::Array(entries)) {
            Ok(p) => exists|i: int|
                0 <= i < entries.len() && #[trigger] root_above(entries[i]) == Some(p)
                    && forall|j: int| 0 <= j < i ==> root_above(#[trigger] entries[j]) is None,
            Err(_) => forall|j: int|
                0 <= j < entries.len() ==> root_above(#[trigger] entries[j]) is None,
        },
{
    lemma_first_root(entries, 0);
}

/// Settings that are no list name neither an app nor a build root.
pub proof fn lemma_settings_are_a_list(v: JsonView)
    requires
        !(v is Array),
    ensures
        app_of(v) is Err,
        root_of(v) is Err,
{
}

// ---------------------------------------------------------------------------
// output
// ---------------------------------------------------------------------------

/// No error, warning or note is ever held back, nor the start of a phase, nor the result;
/// in full mode nothing is.
pub proof fn lemma_what_passes(f: LineFilter, line: Seq<char>)
    ensures
        f.mode == BuildOutput::Full ==> f.step(line).1,
        has_infix(line, "error:"@) ==> f.step(line).1,
        has_infix(line, "warning:"@) ==> f.step(line).1,
        has_infix(line, "note:"@) ==> f.step(line).1,
        has_prefix(line, "=== "@) ==> f.step(line).1,
        has_prefix(line, "** "@) ==> f.step(line).1,
        has_prefix(line, "Build description"@) ==> f.step(line).1,
        has_prefix(line, "CreateBuildDescription"@) ==> f.step(line).1,
        has_prefix(line, "SwiftDriver"@) ==> f.step(line).1,
        has_prefix(line, "CompileSwiftSources "@) ==> f.step(line).1,
        has_prefix(line, "CompileC "@) ==> f.step(line).1,
        has_prefix(line, "Ld "@) ==> f.step(line).1,
        has_prefix(line, "Libtool "@) ==> f.step(line).1,
        has_prefix(line, "CodeSign "@) ==> f.step(line).1,
        has_prefix(line, "PhaseScriptExecution "@) ==> f.step(line).1,
        has_prefix(line, "ProcessInfoPlistFile "@) ==> f.step(line).1,
        f.step(line).0.mode == f.mode,
{
}

/// In filtered mode a line that is none of these is held back, unless it is one of the two
/// behind an error, a warning or a note.
pub proof fn lemma_what_is_held_back(f: LineFilter, line: Seq<char>)
    requires
        f.mode == BuildOutput::Filtered,
        !has_infix(line, "error:"@),
        !has_infix(line, "warning:"@),
        !has_infix(line, "note:"@),
        !has_prefix(line, "=== "@),
        !has_prefix(line, "** "@),
        !has_prefix(line, "Build description"@),
        !has_prefix(line, "CreateBuildDescription"@),
        !has_prefix(line, "SwiftDriver"@),
        !has_prefix(line, "CompileSwiftSources "@),
        !has_prefix(line, "CompileC "@),
        !has_prefix(line, "Ld "@),
        !has_prefix(line, "Libtool "@),
        !has_prefix(line, "CodeSign "@),
        !has_prefix(line, "PhaseScriptExecution "@),
        !has_prefix(line, "ProcessInfoPlistFile "@),
    ensures
        f.step(line).1 <==> f.context_left > 0,
        f.context_left > 0 ==> f.step(line).0.context_left == f.context_left - 1,
        f.context_left == 0 ==> f.step(line).0.context_left == 0,
{
}

/// Two more lines pass behind an error, a warning or a note.
pub proof fn lemma_context_of_two(f: LineFilter, line: Seq<char>)
    requires
        f.mode == BuildOutput::Filtered,
        has_infix(line, "error:"@) || has_infix(line, "warning:"@) || has_infix(line, "note:"@),
    ensures
        f.step(line).0.context_left == 2,
{
}

/// Of the errors of a build the last five are kept, each without the white space around
/// it, and nothing that is no error is.
pub proof fn lemma_errors_kept(errors: Seq<Seq<char>>, line: Seq<char>)
    requires
        errors.len() <= 5,
    ensures
        ({
            let kept = kept_errors(errors, line);
            &&& !has_infix(line, "error:"@) ==> kept == errors
            &&& has_infix(line, "error:"@) ==> {
                &&& kept.last() == trimmed(line)
                &&& errors.len() < 5 ==> kept == errors.push(trimmed(line))
                &&& errors.len() == 5 ==> kept.len() == 5 && forall|i: int|
                    0 <= i < 4 ==> #[trigger] kept[i] == errors[i + 1]
            }
        }),
{
}

/// A line is shown at once where the batch has grown to eight kilobytes, else within fifty
/// milliseconds of the first line of its batch; what is held back is never in a batch.
pub proof fn lemma_batches(s: StreamView, line: Seq<char>, now_ms: u64)
    requires
        now_ms <= u64::MAX - 50,
    ensures
        ({
            let (t, out) = stream_step(s, line, now_ms);
            let text = if s.batch.pending {
                s.batch.text + seq!['\n'] + line
            } else {
                line
            };
            &&& !s.filter.step(line).1 ==> out is None && t.batch == s.batch
            &&& s.filter.step(line).1 && encode_utf8(text).len() >= 8192 ==> out == Some(text)
                && !t.batch.pending && t.batch.text.len() == 0 && t.batch.deadline is None
            &&& s.filter.step(line).1 && encode_utf8(text).len() < 8192 ==> {
                &&& out is None
                &&& t.batch.pending
                &&& t.batch.text == text
                &&& t.batch.deadline == if s.batch.pending {
                    s.batch.deadline
                } else {
                    Some((now_ms + 50) as u64)
                }
            }
        }),
{
}

/// A failed build says its exit code first, then each error line on a line of its own,
/// and at the end where the whole log is.
pub proof fn lemma_failure_says_why(b: BuildFailed)
    ensures
        has_prefix(
            failed_text(b),
            "xcodebuild failed with exit code "@ + decimal_int(b.code as int),
        ),
        b.log_path matches Some(p) ==> has_suffix(
            failed_text(b),
            "\n  full build log: "@ + p@,
        ),
        b.errors@.len() == 0 && b.log_path is None ==> failed_text(b)
            == "xcodebuild failed with exit code "@ + decimal_int(b.code as int),
{
    let head = "xcodebuild failed with exit code "@ + decimal_int(b.code as int);
    let n = head.len() as int;
    let t = failed_text(b);
    assert(t.take(n) =~= head);
    if let Some(p) = b.log_path {
        let tail = "\n  full build log: "@ + p@;
        assert(t.skip(t.len() - tail.len()) =~= tail);
    }
    if b.errors@.len() == 0 && b.log_path is None {
        assert(t =~= head);
    }
}

/// One more error is one more line, indented, behind the others.
pub proof fn lemma_errors_listed(lines: Seq<Seq<char>>, line: Seq<char>)
    ensures
        indented(lines.push(line)) == indented(lines) + "\n  "@ + line,
        indented(Seq::empty()) == Seq::<char>::empty(),
{
    assert(lines.push(line).drop_last() =~= lines);
}

/// A line of output is what stands in front of its line break, with or without a carriage
/// return; the last one may have none.
pub proof fn lemma_line_breaks(line: Seq<u8>)
    ensures
        chomped(line.push(0x0d).push(0x0a)) == line,
        line.len() == 0 || line.last() != 0x0d ==> chomped(line.push(0x0a)) == line,
        line.len() == 0 || line.last() != 0x0a ==> chomped(line) == line,
{
    assert(line.push(0x0d).push(0x0a).drop_last() =~= line.push(0x0d));
    assert(line.push(0x0d).drop_last() =~= line);
    assert(line.push(0x0a).drop_last() =~= line);
}

/// What was found for a project is used again only as long as the project has not changed.
pub proof fn lemma_cache_used(
    cache: Map<Seq<char>, CacheEntryView>,
    key: Seq<char>,
    other: Seq<char>,
    path: Seq<char>,
    mtime: u64,
    now: u64,
)
    ensures
        ({
            let put = cache.insert(key, CacheEntryView { workspace_mtime: mtime, path });
            &&& cached_path(put, key, mtime) == Some(path)
            &&& now != mtime ==> cached_path(put, key, now) is None
            &&& other != key ==> cached_path(put, other, now) == cached_path(cache, other, now)
        }),
        !cache.dom().contains(key) ==> cached_path(cache, key, now) is None,
{
}

} // verus!
