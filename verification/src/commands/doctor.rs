//! `xcode-dap doctor`: what the environment checks find.

use crate::commands::refresh::own_opt;
use crate::commands::select::ios_version;
use crate::commands::select::runtime_os;
use crate::commands::select::strings_among;
use crate::commands::select::strings_in;
use crate::json::members_view;
use crate::json::parse;
use crate::json::serde_parse;
use crate::json::views_of;
use crate::json::Json;
use crate::json::JsonView;
use crate::number::decimal;
use crate::number::decimal_u64;
use crate::order::lemma_text_rank;
use crate::order::lemma_text_rank_chain;
use crate::order::rank_texts;
use crate::order::text_rank;
use crate::order::Rank;
use crate::setup::jsonc::jsonc_parsed;
use crate::setup::jsonc::parse_jsonc;
use crate::setup::project::build_server_opted_in;
use crate::setup::project::opted_in;
use crate::setup::project::unquote_command;
use crate::setup::project::unquoted;
use crate::text::chars_of;
use crate::text::contains;
use crate::text::ends_with;
use crate::text::find_char;
use crate::text::has_infix;
use crate::text::has_prefix;
use crate::text::has_suffix;
use crate::text::join_with;
use crate::text::joined_with;
use crate::text::lemma_char_from;
use crate::text::lines;
use crate::text::lines_of;
use crate::text::lossy_text;
use crate::text::opt_str_view;
use crate::text::opt_view;
use crate::text::owned;
use crate::text::push_text;
use crate::text::starts_with;
use crate::text::str_eq;
use crate::text::texts;
use crate::text::trim;
use crate::text::trimmed;
use crate::text::utf8_lossy;
use crate::util::name_map::rising;
use crate::util::name_map::NameMap;
use crate::util::paths::extension;
use crate::util::paths::extension_of;
use crate::util::paths::is_absolute;
use crate::util::paths::is_absolute_path;
use crate::util::paths::join;
use crate::util::paths::joined;
use vstd::prelude::*;
use vstd::utf8::encode_utf8;

verus! {

// ---------------------------------------------------------------------------
// findings
// ---------------------------------------------------------------------------

/// How a check came out.
#[derive(Clone, Copy, Debug, PartialEq, Eq, Structural)]
pub enum Grade {
    Pass,
    Fail,
    Warn,
    Note,
}

/// What a check found.
#[derive(Debug)]
pub struct Finding {
    pub grade: Grade,
    pub label: String,
    pub detail: String,
}

/// The mathematical value of a [`Finding`].
pub struct FindingView {
    pub grade: Grade,
    pub label: Seq<char>,
    pub detail: Seq<char>,
}

impl View for Finding {
    type V = FindingView;

    open spec fn view(&self) -> FindingView {
        FindingView { grade: self.grade, label: self.label@, detail: self.detail@ }
    }
}

/// A finding.
pub open spec fn found(grade: Grade, label: Seq<char>, detail: Seq<char>) -> FindingView {
    FindingView { grade, label, detail }
}

/// A finding.
pub fn finding(grade: Grade, label: &str, detail: &str) -> (r: Finding)
    ensures
        r@ == found(grade, label@, detail@),
{
    Finding { grade, label: owned(label), detail: owned(detail) }
}

/// The sign in front of a finding.
pub open spec fn sign_of(grade: Grade) -> Seq<char> {
    match grade {
        Grade::Pass => "\u{2713} "@,
        Grade::Fail => "\u{2717} "@,
        Grade::Warn => "! "@,
        Grade::Note => "\u{2013} "@,
    }
}

/// The line that shows a finding.
pub open spec fn finding_line(f: FindingView) -> Seq<char> {
    if f.detail.len() == 0 {
        sign_of(f.grade) + f.label
    } else {
        sign_of(f.grade) + f.label + ": "@ + f.detail
    }
}

impl Finding {
    /// The line that shows the finding.
    pub fn line(&self) -> (r: String)
        ensures
            r@ == finding_line(self@),
    {
        let mut r = owned(
            match self.grade {
                Grade::Pass => "\u{2713} ",
                Grade::Fail => "\u{2717} ",
                Grade::Warn => "! ",
                Grade::Note => "\u{2013} ",
            },
        );
        r.append(self.label.as_str());
        if chars_of(self.detail.as_str()).len() > 0 {
            r.append(": ");
            r.append(self.detail.as_str());
        }
        r
    }
}

/// How many of the first `n` findings have a grade.
pub open spec fn graded(fs: Seq<Finding>, grade: Grade, n: int) -> int
    decreases n,
{
    if n <= 0 {
        0
    } else {
        graded(fs, grade, n - 1) + if fs[n - 1].grade == grade {
            1int
        } else {
            0int
        }
    }
}

/// How many findings have a grade.
pub fn count_grade(fs: &Vec<Finding>, grade: Grade) -> (r: usize)
    ensures
        r == graded(fs@, grade, fs@.len() as int),
{
    let mut r: usize = 0;
    let mut i: usize = 0;
    while i < fs.len()
        invariant
            i <= fs.len(),
            r <= i,
            r == graded(fs@, grade, i as int),
        decreases fs.len() - i,
    {
        if fs[i].grade == grade {
            r = r + 1;
        }
        i = i + 1;
    }
    r
}

/// The last line of the report, and the error where a check failed.
pub fn conclusion(fs: &Vec<Finding>) -> (r: (String, Result<(), String>))
    ensures
        r.0@ == decimal(graded(fs@, Grade::Fail, fs@.len() as int) as nat) + " failure(s), "@
            + decimal(graded(fs@, Grade::Warn, fs@.len() as int) as nat) + " warning(s)"@,
        r.1 is Ok <==> graded(fs@, Grade::Fail, fs@.len() as int) == 0,
        r.1 matches Err(e) ==> e@ == "doctor found "@ + decimal(
            graded(fs@, Grade::Fail, fs@.len() as int) as nat,
        ) + " failure(s)"@,
{
    let failures = count_grade(fs, Grade::Fail);
    let warnings = count_grade(fs, Grade::Warn);
    let mut s = decimal_u64(failures as u64);
    s.append(" failure(s), ");
    s.append(decimal_u64(warnings as u64).as_str());
    s.append(" warning(s)");
    if failures > 0 {
        let mut e = owned("doctor found ");
        e.append(decimal_u64(failures as u64).as_str());
        e.append(" failure(s)");
        (s, Err(e))
    } else {
        (s, Ok(()))
    }
}

// ---------------------------------------------------------------------------
// toolchain
// ---------------------------------------------------------------------------

pub const DEVELOPER_DIR_MISSING: &'static str =
    "xcode-select -p failed \u{2014} install Xcode, then `sudo xcode-select -s <path>`";

pub const XCODEBUILD_MISSING: &'static str = "not runnable \u{2014} is Xcode installed?";

/// Whether the program runs on macOS.
pub fn check_macos(macos: bool) -> (r: Finding)
    ensures
        r@ == if macos {
            found(Grade::Pass, "macOS"@, ""@)
        } else {
            found(Grade::Fail, "macOS"@, "xcode-dap is macOS-only"@)
        },
{
    if macos {
        finding(Grade::Pass, "macOS", "")
    } else {
        finding(Grade::Fail, "macOS", "xcode-dap is macOS-only")
    }
}

/// The first line of what a command printed, where it succeeded and printed one.
pub open spec fn first_printed(success: bool, printed: Seq<char>) -> Option<Seq<char>> {
    if success && lines_of(printed).len() > 0 && trimmed(lines_of(printed)[0]).len() > 0 {
        Some(trimmed(lines_of(printed)[0]))
    } else {
        None
    }
}

/// The first line of a command's output, where it succeeded and printed one.
pub fn cmd_first_line(success: bool, stdout: &[u8]) -> (r: Option<String>)
    ensures
        opt_view(r) == first_printed(success, lossy_text(stdout@)),
{
    if !success {
        return None;
    }
    let text = utf8_lossy(stdout);
    let ls = lines(text.as_str());
    assert(texts(ls@).len() == ls@.len());
    if ls.len() == 0 {
        return None;
    }
    assert(texts(ls@)[0] == ls@[0]@);
    let line = trim(ls[0].as_str());
    if chars_of(line.as_str()).len() == 0 {
        None
    } else {
        Some(line)
    }
}

/// What is found of a tool: where it is, or why it is missing.
pub open spec fn tool_finding(label: Seq<char>, at: Option<Seq<char>>, missing: Seq<char>) -> FindingView {
    match at {
        Some(p) => found(Grade::Pass, label, p),
        None => found(Grade::Fail, label, missing),
    }
}

/// What is found of a tool: where it is, or why it is missing.
pub fn check_tool(label: &str, at: Option<&str>, missing: &str) -> (r: Finding)
    ensures
        r@ == tool_finding(label@, opt_str_view(at), missing@),
{
    match at {
        Some(p) => finding(Grade::Pass, label, p),
        None => finding(Grade::Fail, label, missing),
    }
}

/// Why a tool that `xcrun` should find is missing.
pub fn xcrun_missing(tool: &str) -> (r: String)
    ensures
        r@ == "`xcrun -f "@ + tool@ + "` failed; "@ + if tool@ == "lldb-dap"@ {
            "ships with Xcode 16+ \u{2014} update Xcode"@
        } else {
            "ships with Xcode \u{2014} update Xcode"@
        },
{
    let mut r = owned("`xcrun -f ");
    r.append(tool);
    r.append("` failed; ");
    if str_eq(tool, "lldb-dap") {
        r.append("ships with Xcode 16+ \u{2014} update Xcode");
    } else {
        r.append("ships with Xcode \u{2014} update Xcode");
    }
    r
}

/// Whether the program is on the search path.
pub fn check_on_path(at: Option<&str>) -> (r: Finding)
    ensures
        r@ == match opt_str_view(at) {
            Some(p) => found(Grade::Pass, "xcode-dap on PATH"@, p),
            None => found(
                Grade::Warn,
                "xcode-dap on PATH"@,
                "not found \u{2014} terminal use (`xcode-dap doctor`, `xcode-dap console`) needs it; run ./install.sh in the ZedXcode repo"@,
            ),
        },
{
    match at {
        Some(p) => finding(Grade::Pass, "xcode-dap on PATH", p),
        None => finding(
            Grade::Warn,
            "xcode-dap on PATH",
            "not found \u{2014} terminal use (`xcode-dap doctor`, `xcode-dap console`) needs it; run ./install.sh in the ZedXcode repo",
        ),
    }
}

// ---------------------------------------------------------------------------
// simulators
// ---------------------------------------------------------------------------

/// Whether a device entry is an available iPhone or iPad.
pub open spec fn counts(dev: JsonView) -> bool {
    &&& dev.get("isAvailable"@) matches Some(a)
    &&& a.as_bool() == Some(true)
    &&& dev.str_at("name"@) matches Some(n)
    &&& (has_prefix(n, "iPhone"@) || has_prefix(n, "iPad"@))
}

/// For each counted device among the first `n` of a runtime, whether it is booted.
pub open spec fn counted(entries: Seq<JsonView>, n: int) -> Seq<bool>
    decreases n,
{
    if n <= 0 {
        Seq::empty()
    } else if counts(entries[n - 1]) {
        counted(entries, n - 1).push(entries[n - 1].str_at("state"@) == Some("Booted"@))
    } else {
        counted(entries, n - 1)
    }
}

/// For each counted device of the iOS runtimes among the first `n`, whether it is
/// booted.
pub open spec fn counted_in(runtimes: Seq<(Seq<char>, JsonView)>, n: int) -> Seq<bool>
    decreases n,
{
    if n <= 0 {
        Seq::empty()
    } else {
        let front = counted_in(runtimes, n - 1);
        match (ios_version(runtimes[n - 1].0), runtimes[n - 1].1.as_array()) {
            (Some(_), Some(entries)) => front + counted(entries, entries.len() as int),
            _ => front,
        }
    }
}

/// For each counted device of a device listing, whether it is booted.
pub open spec fn counted_devices(v: JsonView) -> Seq<bool> {
    match v.get("devices"@) {
        Some(d) => match d.as_object() {
            Some(rs) => counted_in(rs, rs.len() as int),
            None => Seq::empty(),
        },
        None => Seq::empty(),
    }
}

/// How many of the first `n` flags are set.
pub open spec fn set_flags(flags: Seq<bool>, n: int) -> int
    decreases n,
{
    if n <= 0 {
        0
    } else {
        set_flags(flags, n - 1) + if flags[n - 1] {
            1int
        } else {
            0int
        }
    }
}

/// Whether a device entry is an available iPhone or iPad.
fn is_counted(dev: &Json) -> (r: bool)
    ensures
        r == counts(dev@),
{
    let available = match dev.get("isAvailable") {
        Some(a) => match a.as_bool() {
            Some(b) => b,
            None => false,
        },
        None => false,
    };
    if !available {
        return false;
    }
    match dev.str_at("name") {
        Some(n) => {
            let cs = chars_of(n);
            starts_with(cs.as_slice(), "iPhone") || starts_with(cs.as_slice(), "iPad")
        },
        None => false,
    }
}

/// Append, for each counted device of a runtime, whether it is booted.
fn count_runtime(flags: &mut Vec<bool>, entries: &Vec<Json>)
    ensures
        final(flags)@ == old(flags)@ + counted(views_of(entries@), entries@.len() as int),
{
    let ghost before = flags@;
    let ghost ev = views_of(entries@);
    let mut i: usize = 0;
    assert(flags@ =~= before + counted(ev, 0));
    while i < entries.len()
        invariant
            i <= entries.len(),
            ev == views_of(entries@),
            flags@ == before + counted(ev, i as int),
        decreases entries.len() - i,
    {
        assert(ev[i as int] == entries@[i as int]@);
        let ghost now = flags@;
        if is_counted(&entries[i]) {
            let booted = match entries[i].str_at("state") {
                Some(s) => str_eq(s, "Booted"),
                None => false,
            };
            flags.push(booted);
            assert(flags@ =~= before + counted(ev, i + 1));
        }
        i = i + 1;
    }
}

/// How many iPhone and iPad simulators are available on iOS runtimes, and how
/// many of them are booted.
pub fn count_ios_simulators(v: &Json) -> (r: (usize, usize))
    ensures
        r.0 == counted_devices(v@).len(),
        r.1 == set_flags(counted_devices(v@), counted_devices(v@).len() as int),
{
    let devices = match v.get("devices") {
        Some(d) => d,
        None => return (0, 0),
    };
    let runtimes = match devices.as_object() {
        Some(ms) => ms,
        None => return (0, 0),
    };
    let ghost rv = members_view(runtimes@);
    let mut flags: Vec<bool> = Vec::new();
    let mut i: usize = 0;
    assert(flags@ =~= counted_in(rv, 0));
    while i < runtimes.len()
        invariant
            i <= runtimes.len(),
            rv == members_view(runtimes@),
            flags@ == counted_in(rv, i as int),
        decreases runtimes.len() - i,
    {
        assert(rv[i as int] == (runtimes@[i as int].key@, runtimes@[i as int].value@));
        if runtime_os(runtimes[i].key.as_str()).is_some() {
            if let Some(entries) = runtimes[i].value.as_array() {
                assert(views_of(entries@).len() == entries@.len());
                count_runtime(&mut flags, entries);
            }
        }
        i = i + 1;
    }
    let mut booted: usize = 0;
    let mut j: usize = 0;
    while j < flags.len()
        invariant
            j <= flags.len(),
            booted <= j,
            booted == set_flags(flags@, j as int),
        decreases flags.len() - j,
    {
        if flags[j] {
            booted = booted + 1;
        }
        j = j + 1;
    }
    (flags.len(), booted)
}

/// What `simctl list devices --json` gave.
pub enum SimctlOutput<'a> {
    NotRunnable,
    /// It failed, and printed this on stderr.
    Failed(&'a [u8]),
    /// It succeeded, and printed this.
    Printed(&'a [u8]),
}

/// What is found of the simulators.
pub open spec fn simctl_finding(out: SimctlOutput) -> FindingView {
    match out {
        SimctlOutput::NotRunnable => found(Grade::Fail, "simctl"@, "xcrun not runnable"@),
        SimctlOutput::Failed(e) => found(
            Grade::Fail,
            "simctl"@,
            "simctl list failed: "@ + trimmed(lossy_text(e@)),
        ),
        SimctlOutput::Printed(o) => match serde_parse(o@) {
            Err(_) => found(Grade::Fail, "simctl"@, "simctl list output is not JSON"@),
            Ok(v) => if counted_devices(v).len() == 0 {
                found(
                    Grade::Fail,
                    "simulators"@,
                    "no available iPhone/iPad simulators \u{2014} install a simulator runtime in Xcode (Settings \u{25b8} Components)"@,
                )
            } else {
                found(
                    Grade::Pass,
                    "simulators"@,
                    decimal(counted_devices(v).len()) + " available, "@ + decimal(
                        set_flags(counted_devices(v), counted_devices(v).len() as int) as nat,
                    ) + " booted"@,
                )
            },
        },
    }
}

/// What is found of the simulators.
pub fn check_simctl(out: SimctlOutput) -> (r: Finding)
    ensures
        r@ == simctl_finding(out),
{
    match out {
        SimctlOutput::NotRunnable => finding(Grade::Fail, "simctl", "xcrun not runnable"),
        SimctlOutput::Failed(e) => {
            let mut m = owned("simctl list failed: ");
            m.append(trim(utf8_lossy(e).as_str()).as_str());
            finding(Grade::Fail, "simctl", m.as_str())
        },
        SimctlOutput::Printed(o) => match parse(o) {
            Err(_) => finding(Grade::Fail, "simctl", "simctl list output is not JSON"),
            Ok(v) => {
                let (available, booted) = count_ios_simulators(&v);
                if available == 0 {
                    return finding(
                        Grade::Fail,
                        "simulators",
                        "no available iPhone/iPad simulators \u{2014} install a simulator runtime in Xcode (Settings \u{25b8} Components)",
                    );
                }
                let mut m = decimal_u64(available as u64);
                m.append(" available, ");
                m.append(decimal_u64(booted as u64).as_str());
                m.append(" booted");
                finding(Grade::Pass, "simulators", m.as_str())
            },
        },
    }
}

// ---------------------------------------------------------------------------
// the editor
// ---------------------------------------------------------------------------

/// Where the editor's release channels install: in `/Applications` and in
/// `~/Applications`, each under a name of its own.
pub open spec fn app_places(home: Seq<char>) -> Seq<Seq<char>> {
    let user = joined(home, "Applications"@);
    seq![
        joined("/Applications"@, "Zed.app"@),
        joined(user, "Zed.app"@),
        joined("/Applications"@, "Zed Preview.app"@),
        joined(user, "Zed Preview.app"@),
        joined("/Applications"@, "Zed Nightly.app"@),
        joined(user, "Zed Nightly.app"@),
        joined("/Applications"@, "Zed Dev.app"@),
        joined(user, "Zed Dev.app"@),
    ]
}

/// Where the editor's release channels install, in the order of the search.
pub fn zed_apps(home: &str) -> (r: Vec<String>)
    ensures
        texts(r@) == app_places(home@),
{
    let user = join(home, "Applications");
    let mut r: Vec<String> = Vec::new();
    assert(texts(r@) =~= Seq::<Seq<char>>::empty());
    push_text(&mut r, join("/Applications", "Zed.app").as_str());
    push_text(&mut r, join(user.as_str(), "Zed.app").as_str());
    push_text(&mut r, join("/Applications", "Zed Preview.app").as_str());
    push_text(&mut r, join(user.as_str(), "Zed Preview.app").as_str());
    push_text(&mut r, join("/Applications", "Zed Nightly.app").as_str());
    push_text(&mut r, join(user.as_str(), "Zed Nightly.app").as_str());
    push_text(&mut r, join("/Applications", "Zed Dev.app").as_str());
    push_text(&mut r, join(user.as_str(), "Zed Dev.app").as_str());
    assert(texts(r@) =~= app_places(home@));
    r
}

/// What is found of the editor: its application, else its command.
pub fn check_zed(app: Option<&str>, cli: Option<&str>) -> (r: Finding)
    ensures
        r@ == match (opt_str_view(app), opt_str_view(cli)) {
            (Some(p), _) => found(Grade::Pass, "Zed"@, p),
            (None, Some(c)) => found(Grade::Pass, "Zed"@, "cli at "@ + c),
            (None, None) => found(
                Grade::Fail,
                "Zed"@,
                "Zed.app not found \u{2014} install from https://zed.dev"@,
            ),
        },
{
    match app {
        Some(p) => finding(Grade::Pass, "Zed", p),
        None => match cli {
            Some(c) => {
                let mut m = owned("cli at ");
                m.append(c);
                finding(Grade::Pass, "Zed", m.as_str())
            },
            None => finding(
                Grade::Fail,
                "Zed",
                "Zed.app not found \u{2014} install from https://zed.dev",
            ),
        },
    }
}

/// How a `dap.Xcode.binary` override stands.
#[derive(Clone, Copy, Debug, PartialEq, Eq, Structural)]
pub enum BinaryOverride {
    /// Relative: it is resolved against each worktree root, so that its existence
    /// cannot be told from here.
    Relative { dev_build: bool },
    /// Absolute and missing: every debug session fails to start.
    Missing,
    /// Exists but points into `target/debug`: goes stale silently.
    DevBuild,
    Fine,
}

/// How an override stands; `exists` matters for an absolute path only.
pub open spec fn override_class(path: Seq<char>, exists: bool) -> BinaryOverride {
    let dev_build = has_infix(path, "target/debug/"@);
    if !is_absolute_path(path) {
        BinaryOverride::Relative { dev_build }
    } else if !exists {
        BinaryOverride::Missing
    } else if dev_build {
        BinaryOverride::DevBuild
    } else {
        BinaryOverride::Fine
    }
}

/// How an override stands.
pub fn classify_binary_override(path: &str, exists: bool) -> (r: BinaryOverride)
    ensures
        r == override_class(path@, exists),
{
    let cs = chars_of(path);
    let dev_build = contains(cs.as_slice(), "target/debug/");
    if !is_absolute(path) {
        return BinaryOverride::Relative { dev_build };
    }
    if !exists {
        return BinaryOverride::Missing;
    }
    if dev_build {
        return BinaryOverride::DevBuild;
    }
    BinaryOverride::Fine
}

/// `dap.Xcode.binary` in the editor's settings.
pub open spec fn override_in(settings: JsonView) -> Option<Seq<char>> {
    match settings.get("dap"@) {
        Some(d) => match d.get("Xcode"@) {
            Some(x) => x.str_at("binary"@),
            None => None,
        },
        None => None,
    }
}

/// `dap.Xcode.binary` in the editor's settings.
pub fn zed_dap_binary_override(settings: &Json) -> (r: Option<&str>)
    ensures
        opt_str_view(r) == override_in(settings@),
{
    match settings.get("dap") {
        Some(d) => match d.get("Xcode") {
            Some(x) => x.str_at("binary"),
            None => None,
        },
        None => None,
    }
}

/// The override that the settings hold, or what is found where there is none.
pub open spec fn override_read(path: Option<Seq<char>>, text: Option<Seq<char>>) -> Result<
    Seq<char>,
    FindingView,
> {
    match (path, text) {
        (None, _) => Err(
            found(
                Grade::Note,
                "dap.Xcode.binary"@,
                "cannot locate Zed settings (HOME not set)"@,
            ),
        ),
        (Some(_), None) => Err(
            found(
                Grade::Note,
                "dap.Xcode.binary"@,
                "no Zed settings.json \u{2014} extension resolves xcode-dap from PATH / GitHub releases"@,
            ),
        ),
        (Some(p), Some(t)) => match jsonc_parsed(t) {
            Err(_) => Err(
                found(
                    Grade::Warn,
                    "dap.Xcode.binary"@,
                    p + " does not parse as JSONC \u{2014} cannot check the override"@,
                ),
            ),
            Ok(v) => match override_in(v) {
                Some(b) => Ok(b),
                None => Err(
                    found(
                        Grade::Note,
                        "dap.Xcode.binary"@,
                        "not set \u{2014} extension resolves xcode-dap from PATH / GitHub releases"@,
                    ),
                ),
            },
        },
    }
}

/// The value of a text or of the finding in its place.
pub open spec fn read_view(r: Result<String, Finding>) -> Result<Seq<char>, FindingView> {
    match r {
        Ok(s) => Ok(s@),
        Err(f) => Err(f@),
    }
}

/// The override that the settings hold, or what is found where there is none.
pub fn read_override(path: Option<&str>, text: Option<&str>) -> (r: Result<String, Finding>)
    ensures
        read_view(r) == override_read(opt_str_view(path), opt_str_view(text)),
{
    let p = match path {
        Some(p) => p,
        None => return Err(
            finding(
                Grade::Note,
                "dap.Xcode.binary",
                "cannot locate Zed settings (HOME not set)",
            ),
        ),
    };
    let t = match text {
        Some(t) => t,
        None => return Err(
            finding(
                Grade::Note,
                "dap.Xcode.binary",
                "no Zed settings.json \u{2014} extension resolves xcode-dap from PATH / GitHub releases",
            ),
        ),
    };
    match parse_jsonc(t) {
        Err(_) => {
            let mut m = owned(p);
            m.append(" does not parse as JSONC \u{2014} cannot check the override");
            Err(finding(Grade::Warn, "dap.Xcode.binary", m.as_str()))
        },
        Ok(v) => match zed_dap_binary_override(&v) {
            Some(b) => Ok(owned(b)),
            None => Err(
                finding(
                    Grade::Note,
                    "dap.Xcode.binary",
                    "not set \u{2014} extension resolves xcode-dap from PATH / GitHub releases",
                ),
            ),
        },
    }
}

/// What is found of an override; `built` is the time of the binary's build.
pub open spec fn override_findings(
    binary: Seq<char>,
    exists: bool,
    built: Seq<char>,
    settings: Seq<char>,
) -> Seq<FindingView> {
    let label = "dap.Xcode.binary"@;
    match override_class(binary, exists) {
        BinaryOverride::Relative { dev_build } => {
            let note = found(
                Grade::Note,
                label,
                binary
                    + " is worktree-relative \u{2014} Zed resolves it against each worktree root; cannot verify from here"@,
            );
            if dev_build {
                seq![
                    note,
                    found(
                        Grade::Warn,
                        label,
                        "dev-build override "@ + binary
                            + " \u{2014} this binary goes stale silently; point it at a stable install (e.g. $(brew --prefix)/bin/xcode-dap \u{2014} see install.sh) or rebuild after every change"@,
                    ),
                ]
            } else {
                seq![note]
            }
        },
        BinaryOverride::Missing => seq![
            found(
                Grade::Fail,
                label,
                binary
                    + " does not exist \u{2014} debug sessions will fail to start; fix or remove the \"dap\" \u{2192} \"Xcode\" \u{2192} \"binary\" override in "@
                    + settings,
            ),
        ],
        BinaryOverride::DevBuild => seq![
            found(
                Grade::Warn,
                label,
                "dev-build override "@ + binary + " (mtime "@ + built
                    + ") \u{2014} this binary goes stale silently; point it at a stable install (e.g. $(brew --prefix)/bin/xcode-dap \u{2014} see install.sh) or rebuild after every change"@,
            ),
        ],
        BinaryOverride::Fine => seq![found(Grade::Pass, label, binary)],
    }
}

/// The mathematical values of some findings.
pub open spec fn findings(fs: Seq<Finding>) -> Seq<FindingView> {
    Seq::new(fs.len(), |i: int| fs[i]@)
}

/// What is found of an override; `built` is the time of the binary's build, or
/// `unknown`.
pub fn check_binary_override(binary: &str, exists: bool, built: &str, settings: &str) -> (r: Vec<
    Finding,
>)
    ensures
        findings(r@) == override_findings(binary@, exists, built@, settings@),
{
    let label = "dap.Xcode.binary";
    let mut r: Vec<Finding> = Vec::new();
    match classify_binary_override(binary, exists) {
        BinaryOverride::Relative { dev_build } => {
            let mut m = owned(binary);
            m.append(
                " is worktree-relative \u{2014} Zed resolves it against each worktree root; cannot verify from here",
            );
            r.push(finding(Grade::Note, label, m.as_str()));
            if dev_build {
                let mut w = owned("dev-build override ");
                w.append(binary);
                w.append(
                    " \u{2014} this binary goes stale silently; point it at a stable install (e.g. $(brew --prefix)/bin/xcode-dap \u{2014} see install.sh) or rebuild after every change",
                );
                r.push(finding(Grade::Warn, label, w.as_str()));
            }
        },
        BinaryOverride::Missing => {
            let mut m = owned(binary);
            m.append(
                " does not exist \u{2014} debug sessions will fail to start; fix or remove the \"dap\" \u{2192} \"Xcode\" \u{2192} \"binary\" override in ",
            );
            m.append(settings);
            r.push(finding(Grade::Fail, label, m.as_str()));
        },
        BinaryOverride::DevBuild => {
            let mut w = owned("dev-build override ");
            w.append(binary);
            w.append(" (mtime ");
            w.append(built);
            w.append(
                ") \u{2014} this binary goes stale silently; point it at a stable install (e.g. $(brew --prefix)/bin/xcode-dap \u{2014} see install.sh) or rebuild after every change",
            );
            r.push(finding(Grade::Warn, label, w.as_str()));
        },
        BinaryOverride::Fine => {
            r.push(finding(Grade::Pass, label, binary));
        },
    }
    assert(findings(r@) =~= override_findings(binary@, exists, built@, settings@));
    r
}

// ---------------------------------------------------------------------------
// the project
// ---------------------------------------------------------------------------

/// Whether `n` is the first in order of some names.
pub open spec fn is_first_of(n: Seq<char>, names: Seq<Seq<char>>) -> bool {
    names.contains(n) && forall|i: int|
        0 <= i < names.len() ==> !(text_rank(n, #[trigger] names[i]) is After)
}

/// The names among the first `n` that have an extension.
pub open spec fn with_extension(names: Seq<Seq<char>>, ext: Seq<char>, n: int) -> Seq<Seq<char>>
    decreases n,
{
    if n <= 0 {
        Seq::empty()
    } else if extension_of(names[n - 1]) == Some(ext) {
        with_extension(names, ext, n - 1).push(names[n - 1])
    } else {
        with_extension(names, ext, n - 1)
    }
}

/// Whether a result is the container of a directory with some names in it: the
/// first workspace in order; without any, the first project.
pub open spec fn is_container(names: Seq<Seq<char>>, r: Option<Seq<char>>) -> bool {
    let ws = with_extension(names, "xcworkspace"@, names.len() as int);
    let ps = with_extension(names, "xcodeproj"@, names.len() as int);
    match r {
        Some(n) => if ws.len() > 0 {
            is_first_of(n, ws)
        } else {
            is_first_of(n, ps)
        },
        None => ws.len() == 0 && ps.len() == 0,
    }
}

/// The first in order of the names that have an extension.
fn first_with(names: &Vec<String>, ext: &str) -> (r: Option<String>)
    ensures
        ({
            let found = with_extension(texts(names@), ext@, names@.len() as int);
            match r {
                Some(n) => is_first_of(n@, found),
                None => found.len() == 0,
            }
        }),
{
    let ghost nv = texts(names@);
    let mut best: Option<String> = None;
    let mut i: usize = 0;
    while i < names.len()
        invariant
            i <= names.len(),
            nv == texts(names@),
            match best {
                Some(n) => is_first_of(n@, with_extension(nv, ext@, i as int)),
                None => with_extension(nv, ext@, i as int).len() == 0,
            },
        decreases names.len() - i,
    {
        assert(nv[i as int] == names@[i as int]@);
        let ghost front = with_extension(nv, ext@, i as int);
        let ghost now = with_extension(nv, ext@, i + 1);
        let has = match extension(names[i].as_str()) {
            Some(e) => str_eq(e.as_str(), ext),
            None => false,
        };
        if has {
            let ghost x = nv[i as int];
            assert(now == front.push(x));
            let better = match &best {
                Some(b) => rank_texts(names[i].as_str(), b.as_str()) == Rank::Before,
                None => true,
            };
            proof {
                lemma_text_rank(x, x);
                assert(now[front.len() as int] == x);
                if let Some(b) = opt_view(best) {
                    let k = choose|k: int| 0 <= k < front.len() && front[k] == b;
                    assert(now[k] == b);
                    lemma_text_rank(x, b);
                    assert forall|j: int| 0 <= j < now.len() implies !(text_rank(
                        if better {
                            x
                        } else {
                            b
                        },
                        #[trigger] now[j],
                    ) is After) by {
                        if j < front.len() {
                            assert(now[j] == front[j]);
                            if better {
                                lemma_text_rank_chain(x, b, front[j]);
                            }
                        }
                    }
                }
            }
            if better {
                best = Some(owned(names[i].as_str()));
            }
        }
        i = i + 1;
    }
    best
}

/// The build container of a directory that the freshness check goes by: the first
/// workspace in order, else the first project.
pub fn find_container(names: &Vec<String>) -> (r: Option<String>)
    ensures
        is_container(texts(names@), opt_view(r)),
{
    match first_with(names, "xcworkspace") {
        Some(n) => {
            Some(n)
        },
        None => first_with(names, "xcodeproj"),
    }
}

/// What is found outside of a project: nothing else is looked at then. A directory
/// is one where it holds a container or Zed's configuration.
pub fn check_in_project(has_container: bool, zed_dir: bool) -> (r: Option<Finding>)
    ensures
        match r {
            Some(f) => !has_container && !zed_dir && f@ == found(
                Grade::Note,
                "project"@,
                "cwd is not an Xcode project \u{2014} skipping project checks"@,
            ),
            None => has_container || zed_dir,
        },
{
    if has_container || zed_dir {
        None
    } else {
        Some(
            finding(
                Grade::Note,
                "project",
                "cwd is not an Xcode project \u{2014} skipping project checks",
            ),
        )
    }
}

/// Whether a missing `buildServer.json` is a failure: a root `Package.swift` next
/// to a container, in a project that uses the adapter.
pub fn missing_build_server_is_failure(
    has_container: bool,
    package_swift: bool,
    debug_json: Option<&str>,
) -> (r: bool)
    ensures
        r == (has_container && package_swift && opted_in(false, opt_str_view(debug_json))),
{
    has_container && package_swift && build_server_opted_in(false, debug_json)
}

/// What is found where `buildServer.json` is missing.
pub fn check_missing_build_server(failure: bool) -> (r: Finding)
    ensures
        r@ == if failure {
            found(
                Grade::Fail,
                "buildServer.json"@,
                "missing, and a root Package.swift exists \u{2014} sourcekit-lsp will fall back to SPM on Package.swift: macOS args, 'Could not load module' errors, wrong jumps. Fix: `xcode-dap refresh`, then `editor: restart language server` in Zed (repo clean scripts may delete buildServer.json)"@,
            )
        } else {
            found(
                Grade::Warn,
                "buildServer.json"@,
                "missing \u{2014} run `xcode-dap setup --project .` (or build once to auto-generate)"@,
            )
        },
{
    if failure {
        finding(
            Grade::Fail,
            "buildServer.json",
            "missing, and a root Package.swift exists \u{2014} sourcekit-lsp will fall back to SPM on Package.swift: macOS args, 'Could not load module' errors, wrong jumps. Fix: `xcode-dap refresh`, then `editor: restart language server` in Zed (repo clean scripts may delete buildServer.json)",
        )
    } else {
        finding(
            Grade::Warn,
            "buildServer.json",
            "missing \u{2014} run `xcode-dap setup --project .` (or build once to auto-generate)",
        )
    }
}

/// Whether `buildServer.json` is older than the workspace.
pub fn check_freshness(build_server: Option<i128>, workspace: Option<i128>) -> (r: Finding)
    ensures
        r@ == match (build_server, workspace) {
            (Some(b), Some(w)) => if b < w {
                found(
                    Grade::Warn,
                    "buildServer.json"@,
                    "older than the workspace (regenerated project?) \u{2014} run `xcode-dap refresh`"@,
                )
            } else {
                found(Grade::Pass, "buildServer.json"@, "present"@)
            },
            _ => found(Grade::Pass, "buildServer.json"@, "present"@),
        },
{
    if let (Some(b), Some(w)) = (build_server, workspace) {
        if b < w {
            return finding(
                Grade::Warn,
                "buildServer.json",
                "older than the workspace (regenerated project?) \u{2014} run `xcode-dap refresh`",
            );
        }
    }
    finding(Grade::Pass, "buildServer.json", "present")
}

/// What `buildServer.json` records.
pub struct ServerFacts {
    pub argv: Vec<String>,
    pub build_root: Option<String>,
    pub scheme: Option<String>,
}

/// The texts of the `argv` that a document records.
pub open spec fn argv_in(v: JsonView) -> Seq<Seq<char>> {
    match v.get("argv"@) {
        Some(a) => match a.as_array() {
            Some(items) => strings_among(items, items.len() as int),
            None => Seq::empty(),
        },
        None => Seq::empty(),
    }
}

/// What a document records.
pub fn server_facts(v: &Json) -> (r: ServerFacts)
    ensures
        texts(r.argv@) == argv_in(v@),
        opt_view(r.build_root) == v@.str_at("build_root"@),
        opt_view(r.scheme) == v@.str_at("scheme"@),
{
    let empty: Vec<String> = Vec::new();
    assert(texts(empty@) =~= Seq::<Seq<char>>::empty());
    let argv = match v.get("argv") {
        Some(a) => match a.as_array() {
            Some(items) => strings_in(items),
            None => empty,
        },
        None => empty,
    };
    ServerFacts {
        argv,
        build_root: own_opt(v.str_at("build_root")),
        scheme: own_opt(v.str_at("scheme")),
    }
}

/// What `buildServer.json` records, or what is found where it does not parse.
pub fn read_server(text: Option<&str>) -> (r: Result<ServerFacts, Finding>)
    ensures
        match opt_str_view(text) {
            Some(t) => match serde_parse(encode_utf8(t)) {
                Ok(v) => r matches Ok(f) && texts(f.argv@) == argv_in(v) && opt_view(f.build_root)
                    == v.str_at("build_root"@) && opt_view(f.scheme) == v.str_at("scheme"@),
                Err(_) => r matches Err(f) && f@ == unreadable_server(),
            },
            None => r matches Err(f) && f@ == unreadable_server(),
        },
{
    if let Some(t) = text {
        if let Ok(v) = parse(t.as_bytes()) {
            return Ok(server_facts(&v));
        }
    }
    Err(
        finding(
            Grade::Warn,
            "buildServer.json",
            "does not parse as JSON \u{2014} run `xcode-dap refresh` to regenerate it",
        ),
    )
}

/// What is found of a `buildServer.json` that does not parse.
pub open spec fn unreadable_server() -> FindingView {
    found(
        Grade::Warn,
        "buildServer.json"@,
        "does not parse as JSON \u{2014} run `xcode-dap refresh` to regenerate it"@,
    )
}

/// How the `argv` of `buildServer.json` stands.
#[derive(Clone, Copy, Debug, PartialEq, Eq, Structural)]
pub enum ArgvState {
    /// No argv[0] at all.
    Missing,
    /// argv[0] does not exist or is not executable.
    NotExecutable,
    /// argv[1] is not `bsp`.
    WrongSubcommand,
    /// argv[0] points into `target/debug`: goes stale silently.
    DevBuild,
    Fine,
}

/// How an `argv` stands, given whether its first entry is executable.
pub open spec fn argv_state(argv: Seq<Seq<char>>, exec: bool) -> ArgvState {
    if argv.len() == 0 {
        ArgvState::Missing
    } else if !exec {
        ArgvState::NotExecutable
    } else if argv.len() < 2 || argv[1] != "bsp"@ {
        ArgvState::WrongSubcommand
    } else if has_infix(argv[0], "target/debug/"@) {
        ArgvState::DevBuild
    } else {
        ArgvState::Fine
    }
}

/// How an `argv` stands, given whether its first entry is executable.
pub fn classify_build_server_argv(argv: &Vec<String>, exec: bool) -> (r: ArgvState)
    ensures
        r == argv_state(texts(argv@), exec),
{
    let ghost av = texts(argv@);
    if argv.len() == 0 {
        return ArgvState::Missing;
    }
    if !exec {
        return ArgvState::NotExecutable;
    }
    assert(av[0] == argv@[0]@);
    if argv.len() < 2 {
        return ArgvState::WrongSubcommand;
    }
    assert(av[1] == argv@[1]@);
    if !str_eq(argv[1].as_str(), "bsp") {
        return ArgvState::WrongSubcommand;
    }
    let cs = chars_of(argv[0].as_str());
    if contains(cs.as_slice(), "target/debug/") {
        return ArgvState::DevBuild;
    }
    ArgvState::Fine
}

/// What is found of an `argv`; `current` is the path of the running binary.
pub open spec fn argv_finding(argv: Seq<Seq<char>>, exec: bool, current: Option<Seq<char>>) -> FindingView {
    match argv_state(argv, exec) {
        ArgvState::Missing => found(
            Grade::Fail,
            "buildServer.json argv"@,
            "no argv \u{2014} sourcekit-lsp cannot launch the build server; run `xcode-dap refresh`"@,
        ),
        ArgvState::NotExecutable => found(
            Grade::Fail,
            "buildServer.json argv[0]"@,
            argv[0]
                + " does not exist or is not executable \u{2014} cmd+click go-to-definition will not work; re-run `xcode-dap setup --project .` (or ./install.sh) then `xcode-dap refresh`"@,
        ),
        ArgvState::WrongSubcommand => found(
            Grade::Fail,
            "buildServer.json argv"@,
            "argv[1] is not \"bsp\" \u{2014} sourcekit-lsp will not start the build server; run `xcode-dap refresh`"@,
        ),
        ArgvState::DevBuild => found(
            Grade::Warn,
            "buildServer.json argv[0]"@,
            argv[0]
                + " is a dev build (target/debug) \u{2014} goes stale silently; point at a stable install (./install.sh) then `xcode-dap refresh`"@,
        ),
        ArgvState::Fine => if current is Some && current->0 != argv[0] {
            found(
                Grade::Note,
                "buildServer.json argv[0]"@,
                argv[0] + " (this xcode-dap is "@ + current->0
                    + ") \u{2014} run `xcode-dap refresh` if that path is stale"@,
            )
        } else {
            found(Grade::Pass, "buildServer.json argv[0]"@, argv[0])
        },
    }
}

/// What is found of an `argv`; `current` is the path of the running binary.
pub fn check_build_server_argv(argv: &Vec<String>, exec: bool, current: Option<&str>) -> (r: Finding)
    ensures
        r@ == argv_finding(texts(argv@), exec, opt_str_view(current)),
{
    let state = classify_build_server_argv(argv, exec);
    if argv.len() == 0 {
        return finding(
            Grade::Fail,
            "buildServer.json argv",
            "no argv \u{2014} sourcekit-lsp cannot launch the build server; run `xcode-dap refresh`",
        );
    }
    assert(texts(argv@)[0] == argv@[0]@);
    let bin = argv[0].as_str();
    let mut m = owned(bin);
    match state {
        ArgvState::WrongSubcommand => finding(
            Grade::Fail,
            "buildServer.json argv",
            "argv[1] is not \"bsp\" \u{2014} sourcekit-lsp will not start the build server; run `xcode-dap refresh`",
        ),
        ArgvState::DevBuild => {
            m.append(
                " is a dev build (target/debug) \u{2014} goes stale silently; point at a stable install (./install.sh) then `xcode-dap refresh`",
            );
            finding(Grade::Warn, "buildServer.json argv[0]", m.as_str())
        },
        ArgvState::Fine => {
            if let Some(c) = current {
                if !str_eq(c, bin) {
                    m.append(" (this xcode-dap is ");
                    m.append(c);
                    m.append(") \u{2014} run `xcode-dap refresh` if that path is stale");
                    return finding(Grade::Note, "buildServer.json argv[0]", m.as_str());
                }
            }
            finding(Grade::Pass, "buildServer.json argv[0]", bin)
        },
        _ => {
            m.append(
                " does not exist or is not executable \u{2014} cmd+click go-to-definition will not work; re-run `xcode-dap setup --project .` (or ./install.sh) then `xcode-dap refresh`",
            );
            finding(Grade::Fail, "buildServer.json argv[0]", m.as_str())
        },
    }
}

/// Whether there is no compile store yet: there is no file, or no scheme to look
/// for.
pub fn compile_store_missing(scheme: Option<&str>, store_exists: bool) -> (r: bool)
    ensures
        r == (scheme is None || !store_exists),
{
    scheme.is_none() || !store_exists
}

/// Whether one of the files in `<build_root>/Logs/Build` is an activity log.
pub open spec fn holds_activity_log(names: Seq<Seq<char>>) -> bool {
    exists|i: int|
        0 <= i < names.len() && extension_of(#[trigger] names[i]) == Some("xcactivitylog"@)
}

/// Whether one of the files in `<build_root>/Logs/Build` is an activity log: the
/// sign that the build root still holds a build.
pub fn build_root_has_activity_log(names: &Vec<String>) -> (r: bool)
    ensures
        r == holds_activity_log(texts(names@)),
{
    let ghost nv = texts(names@);
    let mut i: usize = 0;
    while i < names.len()
        invariant
            i <= names.len(),
            nv == texts(names@),
            forall|k: int|
                0 <= k < i ==> extension_of(#[trigger] nv[k]) != Some("xcactivitylog"@),
        decreases names.len() - i,
    {
        assert(nv[i as int] == names@[i as int]@);
        if let Some(e) = extension(names[i].as_str()) {
            if str_eq(e.as_str(), "xcactivitylog") {
                return true;
            }
        }
        i = i + 1;
    }
    false
}

/// What is found of the recorded build root, where something is amiss: only where
/// both the activity log and the compile store are missing is there no build.
pub fn check_build_root(root: &str, is_dir: bool, has_log: bool, store_missing: bool) -> (r: Option<
    Finding,
>)
    ensures
        if !is_dir {
            r matches Some(f) && f@ == found(
                Grade::Warn,
                "buildServer.json build_root"@,
                root@
                    + " does not exist \u{2014} DerivedData wiped; build once to restore navigation"@,
            )
        } else if !has_log && store_missing {
            r matches Some(f) && f@ == found(
                Grade::Warn,
                "buildServer.json build_root"@,
                "no *.xcactivitylog under <build_root>/Logs/Build and no compile store yet \u{2014} build once (`xcode-dap build`) to populate go-to-definition"@,
            )
        } else {
            r is None
        },
{
    if !is_dir {
        let mut m = owned(root);
        m.append(" does not exist \u{2014} DerivedData wiped; build once to restore navigation");
        Some(finding(Grade::Warn, "buildServer.json build_root", m.as_str()))
    } else if !has_log && store_missing {
        Some(
            finding(
                Grade::Warn,
                "buildServer.json build_root",
                "no *.xcactivitylog under <build_root>/Logs/Build and no compile store yet \u{2014} build once (`xcode-dap build`) to populate go-to-definition",
            ),
        )
    } else {
        None
    }
}

/// The recorded and the selected scheme, where both are known and they differ.
pub open spec fn scheme_mismatch(recorded: Option<Seq<char>>, selected: Option<Seq<char>>) -> Option<
    (Seq<char>, Seq<char>),
> {
    match (recorded, selected) {
        (Some(a), Some(b)) => if a != b {
            Some((a, b))
        } else {
            None
        },
        _ => None,
    }
}

/// The recorded and the selected scheme, where both are known and they differ.
pub fn build_server_scheme_mismatch(build_server: &Json, selected: Option<&str>) -> (r: Option<
    (String, String),
>)
    ensures
        match r {
            Some((a, b)) => scheme_mismatch(
                build_server@.str_at("scheme"@),
                opt_str_view(selected),
            ) == Some((a@, b@)),
            None => scheme_mismatch(build_server@.str_at("scheme"@), opt_str_view(selected)) is None,
        },
{
    mismatched(build_server.str_at("scheme"), selected)
}

/// Two schemes, where both are known and they differ.
fn mismatched(recorded: Option<&str>, selected: Option<&str>) -> (r: Option<(String, String)>)
    ensures
        match r {
            Some((a, b)) => scheme_mismatch(opt_str_view(recorded), opt_str_view(selected))
                == Some((a@, b@)),
            None => scheme_mismatch(opt_str_view(recorded), opt_str_view(selected)) is None,
        },
{
    if let (Some(a), Some(b)) = (recorded, selected) {
        if !str_eq(a, b) {
            return Some((owned(a), owned(b)));
        }
    }
    None
}

/// What is found of the recorded scheme, where it is not the selected one.
pub fn check_scheme(recorded: Option<&str>, selected: Option<&str>) -> (r: Option<Finding>)
    ensures
        match scheme_mismatch(opt_str_view(recorded), opt_str_view(selected)) {
            Some((a, b)) => r matches Some(f) && f@ == found(
                Grade::Warn,
                "buildServer.json scheme"@,
                "records \""@ + a + "\" but the selected scheme is \""@ + b
                    + "\" \u{2014} go-to-definition answers with the other scheme's products; run `xcode-dap refresh`"@,
            ),
            None => r is None,
        },
{
    match mismatched(recorded, selected) {
        Some((a, b)) => {
            let mut m = owned("records \"");
            m.append(a.as_str());
            m.append("\" but the selected scheme is \"");
            m.append(b.as_str());
            m.append(
                "\" \u{2014} go-to-definition answers with the other scheme's products; run `xcode-dap refresh`",
            );
            Some(finding(Grade::Warn, "buildServer.json scheme", m.as_str()))
        },
        None => None,
    }
}

// ---------------------------------------------------------------------------
// tasks
// ---------------------------------------------------------------------------

/// Whether one of the first `n` tasks runs a command.
pub open spec fn runs(tasks: Seq<JsonView>, command: Seq<char>, n: int) -> bool {
    exists|i: int| 0 <= i < n && task_runs(#[trigger] tasks[i], command)
}

/// Whether a task runs a command.
pub open spec fn task_runs(task: JsonView, command: Seq<char>) -> bool {
    match task.str_at("command"@) {
        Some(c) => unquoted(c) == command,
        None => false,
    }
}

/// Whether one of the tasks of a document runs a command.
pub open spec fn document_runs(v: JsonView, command: Seq<char>) -> bool {
    match v.as_array() {
        Some(tasks) => runs(tasks, command, tasks.len() as int),
        None => false,
    }
}

/// The commands of the tasks of a document, without shell quotes, in order, each
/// once.
pub fn task_commands(v: &Json) -> (r: Vec<String>)
    ensures
        rising(texts(r@)),
        forall|c: Seq<char>| #[trigger] texts(r@).contains(c) <==> document_runs(v@, c),
{
    let mut found: NameMap<()> = NameMap::new();
    let mut r: Vec<String> = Vec::new();
    if let Some(tasks) = v.as_array() {
        let ghost tv = views_of(tasks@);
        let mut i: usize = 0;
        while i < tasks.len()
            invariant
                i <= tasks.len(),
                tv == views_of(tasks@),
                found.wf(),
                forall|c: Seq<char>| #[trigger] found@.dom().contains(c) <==> runs(tv, c, i as int),
            decreases tasks.len() - i,
        {
            assert(tv[i as int] == tasks@[i as int]@);
            let ghost before = found@;
            match tasks[i].str_at("command") {
                Some(c) => {
                    let u = unquote_command(c);
                    found.insert(u.as_str(), ());
                    assert forall|x: Seq<char>| #[trigger] found@.dom().contains(x) <==> runs(
                        tv,
                        x,
                        i + 1,
                    ) by {
                        lemma_runs(tv, x, i as int);
                        assert(before.dom().contains(x) <==> runs(tv, x, i as int));
                    }
                },
                None => {
                    assert forall|x: Seq<char>| #[trigger] found@.dom().contains(x) <==> runs(
                        tv,
                        x,
                        i + 1,
                    ) by {
                        lemma_runs(tv, x, i as int);
                        assert(before.dom().contains(x) <==> runs(tv, x, i as int));
                    }
                },
            }
            i = i + 1;
        }
        assert(v@.as_array() == Some(tv));
    }
    proof {
        found.lemma_names();
        assert forall|c: Seq<char>| #[trigger] found.names().contains(c) <==> document_runs(v@, c) by {
            assert(found@.dom().contains(c) <==> found.names().contains(c));
        }
    }
    let ghost ns = found.names();
    let mut j: usize = 0;
    assert(texts(r@) =~= ns.take(0));
    while j < found.len()
        invariant
            j <= ns.len(),
            ns == found.names(),
            texts(r@) == ns.take(j as int),
        decreases ns.len() - j,
    {
        push_text(&mut r, found.name(j));
        assert(ns.take(j + 1) =~= ns.take(j as int).push(ns[j as int]));
        j = j + 1;
    }
    assert(texts(r@) =~= ns);
    r
}

/// What one more task adds to the commands.
proof fn lemma_runs(tasks: Seq<JsonView>, command: Seq<char>, n: int)
    requires
        0 <= n,
    ensures
        runs(tasks, command, n + 1) <==> runs(tasks, command, n) || task_runs(tasks[n], command),
{
    if runs(tasks, command, n) {
        let i = choose|i: int| 0 <= i < n && task_runs(#[trigger] tasks[i], command);
        assert(task_runs(tasks[i], command));
    }
}

/// The commands that `.zed/tasks.json` runs, or what is found where it does not
/// parse.
pub fn read_tasks(text: &str) -> (r: Result<Vec<String>, Finding>)
    ensures
        match jsonc_parsed(text@) {
            Ok(v) => r matches Ok(cs) && rising(texts(cs@)) && forall|c: Seq<char>| #[trigger]
                texts(cs@).contains(c) <==> document_runs(v, c),
            Err(_) => r matches Err(f) && f@ == found(
                Grade::Warn,
                ".zed/tasks.json"@,
                "does not parse as JSONC \u{2014} tasks will not load"@,
            ),
        },
{
    match parse_jsonc(text) {
        Ok(v) => Ok(task_commands(&v)),
        Err(_) => Err(
            finding(
                Grade::Warn,
                ".zed/tasks.json",
                "does not parse as JSONC \u{2014} tasks will not load",
            ),
        ),
    }
}

/// What is found of a task's command: a path has to be executable, a bare name
/// has to be on the search path.
pub open spec fn command_finding(command: Seq<char>, exec: bool, on_path: Option<Seq<char>>) -> FindingView {
    let label = ".zed/tasks.json command"@;
    if command.contains('/') {
        if exec {
            found(Grade::Pass, label, command)
        } else {
            found(
                Grade::Fail,
                label,
                command
                    + " does not exist or is not executable \u{2014} tasks (CMD+B/CMD+Shift+K) will exit 127; re-run `xcode-dap setup --project .`"@,
            )
        }
    } else {
        match on_path {
            Some(p) => found(Grade::Pass, label, command + " (on PATH: "@ + p + ")"@),
            None => found(
                Grade::Fail,
                label,
                "`"@ + command
                    + "` is not on PATH \u{2014} tasks (CMD+B/CMD+Shift+K) will exit 127; re-run `xcode-dap setup --project .` (embeds the absolute path) or ./install.sh"@,
            ),
        }
    }
}

/// Whether a command is a path, not a bare name.
pub fn is_path(command: &str) -> (r: bool)
    ensures
        r == command@.contains('/'),
{
    let cs = chars_of(command);
    proof {
        lemma_char_from(command@, '/', 0);
    }
    match find_char(cs.as_slice(), '/', 0) {
        Some(i) => {
            assert(command@[i as int] == '/');
            true
        },
        None => false,
    }
}

/// What is found of a task's command.
pub fn check_tasks_command(command: &str, exec: bool, on_path: Option<&str>) -> (r: Finding)
    ensures
        r@ == command_finding(command@, exec, opt_str_view(on_path)),
{
    let label = ".zed/tasks.json command";
    if is_path(command) {
        if exec {
            return finding(Grade::Pass, label, command);
        }
        let mut m = owned(command);
        m.append(
            " does not exist or is not executable \u{2014} tasks (CMD+B/CMD+Shift+K) will exit 127; re-run `xcode-dap setup --project .`",
        );
        return finding(Grade::Fail, label, m.as_str());
    }
    match on_path {
        Some(p) => {
            let mut m = owned(command);
            m.append(" (on PATH: ");
            m.append(p);
            m.append(")");
            finding(Grade::Pass, label, m.as_str())
        },
        None => {
            let mut m = owned("`");
            m.append(command);
            m.append(
                "` is not on PATH \u{2014} tasks (CMD+B/CMD+Shift+K) will exit 127; re-run `xcode-dap setup --project .` (embeds the absolute path) or ./install.sh",
            );
            finding(Grade::Fail, label, m.as_str())
        },
    }
}

// ---------------------------------------------------------------------------
// housekeeping
// ---------------------------------------------------------------------------

/// A file in the run directory, and whether the process it names is alive.
pub struct RunFile {
    pub name: String,
    pub alive: bool,
}

/// Whether a file's name is that of a pidfile.
pub open spec fn is_pidfile(name: Seq<char>) -> bool {
    has_suffix(name, ".pid"@) || has_suffix(name, ".dappid"@)
}

/// The pidfiles among the first `n` files whose process is gone.
pub open spec fn stale_upto(files: Seq<RunFile>, n: int) -> Seq<Seq<char>>
    decreases n,
{
    if n <= 0 {
        Seq::empty()
    } else if is_pidfile(files[n - 1].name@) && !files[n - 1].alive {
        stale_upto(files, n - 1).push(files[n - 1].name@)
    } else {
        stale_upto(files, n - 1)
    }
}

/// The pidfiles whose process is gone.
pub fn stale_pidfiles(files: &Vec<RunFile>) -> (r: Vec<String>)
    ensures
        texts(r@) == stale_upto(files@, files@.len() as int),
{
    let mut r: Vec<String> = Vec::new();
    let mut i: usize = 0;
    assert(texts(r@) =~= stale_upto(files@, 0));
    while i < files.len()
        invariant
            i <= files.len(),
            texts(r@) == stale_upto(files@, i as int),
        decreases files.len() - i,
    {
        let cs = chars_of(files[i].name.as_str());
        let pidfile = ends_with(cs.as_slice(), ".pid") || ends_with(cs.as_slice(), ".dappid");
        if pidfile && !files[i].alive {
            push_text(&mut r, files[i].name.as_str());
        }
        i = i + 1;
    }
    r
}

/// What is found of the pidfiles; no files where there is no run directory.
pub fn check_pidfiles(run_dir: &str, files: Option<&Vec<RunFile>>) -> (r: Finding)
    ensures
        match files {
            None => r@ == found(
                Grade::Pass,
                "pidfiles"@,
                "none (~/.zedxcode/run does not exist yet)"@,
            ),
            Some(fs) => {
                let stale = stale_upto(fs@, fs@.len() as int);
                if stale.len() == 0 {
                    r@ == found(Grade::Pass, "pidfiles"@, "no stale pidfiles"@)
                } else {
                    r@ == found(
                        Grade::Warn,
                        "pidfiles"@,
                        "stale: "@ + joined_with(stale, ", "@) + " (in "@ + run_dir@
                            + ") \u{2014} safe to delete"@,
                    )
                }
            },
        },
{
    let fs = match files {
        Some(fs) => fs,
        None => return finding(
            Grade::Pass,
            "pidfiles",
            "none (~/.zedxcode/run does not exist yet)",
        ),
    };
    let stale = stale_pidfiles(fs);
    assert(texts(stale@).len() == stale@.len());
    if stale.len() == 0 {
        return finding(Grade::Pass, "pidfiles", "no stale pidfiles");
    }
    let mut m = owned("stale: ");
    m.append(join_with(&stale, ", ").as_str());
    m.append(" (in ");
    m.append(run_dir);
    m.append(") \u{2014} safe to delete");
    finding(Grade::Warn, "pidfiles", m.as_str())
}

/// The length and the time of a log file.
pub struct LogFacts {
    pub len: u64,
    pub modified: Option<String>,
}

/// When a log file was looked at.
pub enum LogSeen {
    /// Before this run opened it.
    Before(Option<LogFacts>),
    /// Just now.
    Now(Option<LogFacts>),
}

/// What is said of a log file.
pub open spec fn log_text(path: Seq<char>, len: u64, modified: Option<Seq<char>>, end: Seq<char>) -> Seq<char> {
    path + " ("@ + decimal((len / 1024) as nat) + " KB, modified "@ + match modified {
        Some(t) => t,
        None => "unknown"@,
    } + end
}

/// What is found of the log file: it is never a failure.
pub open spec fn log_finding(path: Option<Seq<char>>, seen: LogSeen) -> FindingView {
    let label = "xcode-dap.log"@;
    match path {
        None => found(Grade::Note, label, "HOME not set"@),
        Some(p) => match seen {
            LogSeen::Before(Some(f)) => found(
                Grade::Pass,
                label,
                log_text(p, f.len, opt_view(f.modified), ", before this run)"@),
            ),
            LogSeen::Before(None) => found(
                Grade::Note,
                label,
                "not created before this run ("@ + p + ")"@,
            ),
            LogSeen::Now(Some(f)) => found(
                Grade::Pass,
                label,
                log_text(p, f.len, opt_view(f.modified), ")"@),
            ),
            LogSeen::Now(None) => found(Grade::Note, label, "not created yet ("@ + p + ")"@),
        },
    }
}

/// What is said of a log file.
fn describe_log(path: &str, f: &LogFacts, end: &str) -> (r: String)
    ensures
        r@ == log_text(path@, f.len, opt_view(f.modified), end@),
{
    let mut m = owned(path);
    m.append(" (");
    m.append(decimal_u64(f.len / 1024).as_str());
    m.append(" KB, modified ");
    match &f.modified {
        Some(t) => m.append(t.as_str()),
        None => m.append("unknown"),
    }
    m.append(end);
    m
}

/// What is found of the log file.
pub fn check_log_file(path: Option<&str>, seen: &LogSeen) -> (r: Finding)
    ensures
        r@ == log_finding(opt_str_view(path), *seen),
{
    let label = "xcode-dap.log";
    let p = match path {
        Some(p) => p,
        None => return finding(Grade::Note, label, "HOME not set"),
    };
    match seen {
        LogSeen::Before(Some(f)) => finding(
            Grade::Pass,
            label,
            describe_log(p, f, ", before this run)").as_str(),
        ),
        LogSeen::Now(Some(f)) => finding(Grade::Pass, label, describe_log(p, f, ")").as_str()),
        LogSeen::Before(None) => {
            let mut m = owned("not created before this run (");
            m.append(p);
            m.append(")");
            finding(Grade::Note, label, m.as_str())
        },
        LogSeen::Now(None) => {
            let mut m = owned("not created yet (");
            m.append(p);
            m.append(")");
            finding(Grade::Note, label, m.as_str())
        },
    }
}

} // verus!
