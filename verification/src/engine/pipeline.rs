//! preflight -> build -> install -> launch -> pid pipeline, shared by the
//! debug adapter and the command line.

use crate::engine::compile_store::adopted;
use crate::engine::compile_store::any_named;
use crate::engine::compile_store::groups_view;
use crate::engine::compile_store::merged_groups;
use crate::engine::compile_store::saved_view;
use crate::engine::compile_store::CompileStore;
use crate::engine::compile_store::LockedMerge;
use crate::engine::compile_store::Persisted;
use crate::engine::compile_store::Watermark;
use crate::engine::disk::Disk;
use crate::engine::simctl::Device;
use crate::engine::xcactivitylog::lemma_collected_named;
use crate::engine::xcactivitylog::lists_modules;
use crate::engine::xcactivitylog::module_names;
use crate::engine::xcactivitylog::modules_view;
use crate::engine::xcactivitylog::parse_text_lines;
use crate::engine::xcactivitylog::sections_from;
use crate::engine::xcactivitylog::text_modules;
use crate::engine::xcactivitylog::ModuleView;
use crate::engine::xcodebuild::ancestor;
use crate::engine::xcodebuild::build_root_from_app;
use crate::engine::xcodebuild::failed_text;
use crate::engine::xcodebuild::BuildFailed;
use crate::number::decimal_i64;
use crate::number::decimal_int;
use crate::setup::build_server::Outcome;
use crate::setup::project::build_server_opted_in;
use crate::setup::project::opted_in;
use crate::text::chars_of;
use crate::text::in_context;
use crate::text::lines_of;
use crate::text::lossy_text;
use crate::text::opt_str_view;
use crate::text::opt_view;
use crate::text::owned;
use crate::text::push_text;
use crate::text::text_result;
use crate::text::texts;
use crate::text::trim;
use crate::text::trimmed;
use crate::text::utf8_lossy;
use crate::text::with_context;
use crate::util::paths::buildserver_stale;
use crate::util::paths::file_stem;
use crate::util::paths::is_stale;
use crate::util::paths::join;
use crate::util::paths::joined;
use crate::util::paths::parent;
use crate::util::paths::parent_of;
use crate::util::paths::stem_of;
use vstd::prelude::*;

verus! {

/// Where pipeline output lines go: `output` events in the debug adapter, plain
/// stdout/stderr on the command line.
pub trait OutputSink: Send + Sync {
    /// Emit one line; `category` is an output category (`"console"`,
    /// `"stdout"`, `"stderr"`) or one of the internal sub-categories `"build"`,
    /// `"oslog"`, `"preflight"`. `text` has no trailing newline but may contain
    /// embedded ones.
    fn line(&self, category: &str, text: &str);
}

/// Result of a successful pipeline run.
#[derive(Debug)]
pub struct LaunchedApp {
    pub pid: i64,
    pub udid: String,
    pub bundle_id: String,
    pub app_path: String,
    pub stdout_file: String,
    pub stderr_file: String,
}

/// The mathematical value of a [`LaunchedApp`].
pub struct LaunchedView {
    pub pid: i64,
    pub udid: Seq<char>,
    pub bundle_id: Seq<char>,
    pub app_path: Seq<char>,
    pub stdout_file: Seq<char>,
    pub stderr_file: Seq<char>,
}

impl View for LaunchedApp {
    type V = LaunchedView;

    open spec fn view(&self) -> LaunchedView {
        LaunchedView {
            pid: self.pid,
            udid: self.udid@,
            bundle_id: self.bundle_id@,
            app_path: self.app_path@,
            stdout_file: self.stdout_file@,
            stderr_file: self.stderr_file@,
        }
    }
}

impl LaunchedApp {
    /// An independent copy.
    pub fn copy(&self) -> (r: LaunchedApp)
        ensures
            r@ == self@,
    {
        LaunchedApp {
            pid: self.pid,
            udid: owned(self.udid.as_str()),
            bundle_id: owned(self.bundle_id.as_str()),
            app_path: owned(self.app_path.as_str()),
            stdout_file: owned(self.stdout_file.as_str()),
            stderr_file: owned(self.stderr_file.as_str()),
        }
    }
}

// ---------------------------------------------------------------------------
// events and steps
// ---------------------------------------------------------------------------

/// How long the boot of a simulator may take, in seconds.
pub const BOOT_TIMEOUT_SECS: u64 = 240;

/// Why the pipeline ended early.
#[derive(Debug)]
pub enum PipelineError {
    /// xcodebuild failed; its exit code is the exit code of the command.
    Build(BuildFailed),
    Other(String),
}

/// The mathematical value of a [`PipelineError`].
pub enum ErrorView {
    Build(BuildFailed),
    Other(Seq<char>),
}

impl View for PipelineError {
    type V = ErrorView;

    open spec fn view(&self) -> ErrorView {
        match self {
            PipelineError::Build(b) => ErrorView::Build(*b),
            PipelineError::Other(e) => ErrorView::Other(e@),
        }
    }
}

impl PipelineError {
    /// The message shown to the user.
    pub fn message(&self) -> (r: String)
        ensures
            r@ == match self@ {
                ErrorView::Build(b) => failed_text(b),
                ErrorView::Other(e) => e,
            },
    {
        match self {
            PipelineError::Build(b) => b.to_string(),
            PipelineError::Other(e) => owned(e.as_str()),
        }
    }
}

/// How the boot of a simulator ended.
#[derive(Debug)]
pub enum BootEnd {
    Done,
    Failed(String),
    TimedOut,
    Cancelled,
}

/// What happened outside. `cancelled` says whether a stop has been asked for by
/// then.
#[derive(Debug)]
pub enum Event {
    Start { workspace_exists: bool },
    PreflightDone { outcome: Result<(), String>, workspace_exists: bool },
    Device { result: Result<String, String>, cancelled: bool },
    Booted { end: BootEnd, cancelled: bool },
    /// The build server file is fresh, or could not be refreshed.
    BuildServerReady { cancelled: bool },
    Built(Result<(), PipelineError>),
    App(Result<String, String>),
    BundleId { result: Result<String, String>, cancelled: bool },
    Installed(Result<(), String>),
    FilesReady(Result<(), String>),
    Launched(Result<i64, String>),
}

/// What is to be done next.
#[derive(Debug)]
pub enum Step {
    /// Run the project generation in the workspace's directory.
    Preflight { command: String, inside: Option<String> },
    ResolveDevice,
    Boot { udid: String },
    EnsureBuildServer,
    Build { udid: String },
    LocateApp { udid: String },
    /// The build is all that was asked for.
    Finished { udid: String, app: String },
    /// Read the bundle id of the app; before that, a previous session on the
    /// simulator is told to end where the app is to be debugged.
    ReadBundleId { udid: String, app: String, supersede: bool },
    Install { udid: String, app: String },
    /// Create the directory and truncate the two capture files.
    PrepareFiles { dir: String, stdout_file: String, stderr_file: String },
    Launch {
        udid: String,
        bundle_id: String,
        app_name: String,
        debug: bool,
        stdout_file: String,
        stderr_file: String,
    },
    Running(LaunchedApp),
    Fail(PipelineError),
    /// The event does not belong to this stage: wait on.
    Wait,
}

/// The mathematical value of a [`Step`].
pub enum StepView {
    Preflight(Seq<char>, Option<Seq<char>>),
    ResolveDevice,
    Boot(Seq<char>),
    EnsureBuildServer,
    Build(Seq<char>),
    LocateApp(Seq<char>),
    Finished(Seq<char>, Seq<char>),
    ReadBundleId(Seq<char>, Seq<char>, bool),
    Install(Seq<char>, Seq<char>),
    PrepareFiles(Seq<char>, Seq<char>, Seq<char>),
    Launch(Seq<char>, Seq<char>, Seq<char>, bool, Seq<char>, Seq<char>),
    Running(LaunchedView),
    Fail(ErrorView),
    Wait,
}

impl View for Step {
    type V = StepView;

    open spec fn view(&self) -> StepView {
        match self {
            Step::Preflight { command, inside } => StepView::Preflight(command@, opt_view(*inside)),
            Step::ResolveDevice => StepView::ResolveDevice,
            Step::Boot { udid } => StepView::Boot(udid@),
            Step::EnsureBuildServer => StepView::EnsureBuildServer,
            Step::Build { udid } => StepView::Build(udid@),
            Step::LocateApp { udid } => StepView::LocateApp(udid@),
            Step::Finished { udid, app } => StepView::Finished(udid@, app@),
            Step::ReadBundleId { udid, app, supersede } => StepView::ReadBundleId(
                udid@,
                app@,
                *supersede,
            ),
            Step::Install { udid, app } => StepView::Install(udid@, app@),
            Step::PrepareFiles { dir, stdout_file, stderr_file } => StepView::PrepareFiles(
                dir@,
                stdout_file@,
                stderr_file@,
            ),
            Step::Launch { udid, bundle_id, app_name, debug, stdout_file, stderr_file } =>
                StepView::Launch(
                udid@,
                bundle_id@,
                app_name@,
                *debug,
                stdout_file@,
                stderr_file@,
            ),
            Step::Running(a) => StepView::Running(a@),
            Step::Fail(e) => StepView::Fail(e@),
            Step::Wait => StepView::Wait,
        }
    }
}

// ---------------------------------------------------------------------------
// the machine
// ---------------------------------------------------------------------------

/// How far the pipeline has come, with what is known by then.
#[derive(Debug)]
pub enum Stage {
    Idle,
    Preflight { command: String },
    Resolve,
    Boot { udid: String },
    BuildServer { udid: String },
    Build { udid: String },
    Locate { udid: String },
    Bundle { udid: String, app: String },
    Install { udid: String, app: String, id: String },
    Files { udid: String, app: String, id: String },
    Launch { udid: String, app: String, id: String },
    Over,
}

/// The mathematical value of a [`Stage`].
pub enum StageView {
    Idle,
    Preflight(Seq<char>),
    Resolve,
    Boot(Seq<char>),
    BuildServer(Seq<char>),
    Build(Seq<char>),
    Locate(Seq<char>),
    Bundle(Seq<char>, Seq<char>),
    Install(Seq<char>, Seq<char>, Seq<char>),
    Files(Seq<char>, Seq<char>, Seq<char>),
    Launch(Seq<char>, Seq<char>, Seq<char>),
    Over,
}

impl View for Stage {
    type V = StageView;

    open spec fn view(&self) -> StageView {
        match self {
            Stage::Idle => StageView::Idle,
            Stage::Preflight { command } => StageView::Preflight(command@),
            Stage::Resolve => StageView::Resolve,
            Stage::Boot { udid } => StageView::Boot(udid@),
            Stage::BuildServer { udid } => StageView::BuildServer(udid@),
            Stage::Build { udid } => StageView::Build(udid@),
            Stage::Locate { udid } => StageView::Locate(udid@),
            Stage::Bundle { udid, app } => StageView::Bundle(udid@, app@),
            Stage::Install { udid, app, id } => StageView::Install(udid@, app@, id@),
            Stage::Files { udid, app, id } => StageView::Files(udid@, app@, id@),
            Stage::Launch { udid, app, id } => StageView::Launch(udid@, app@, id@),
            Stage::Over => StageView::Over,
        }
    }
}

impl StageView {
    /// The place of a stage in the course of the pipeline.
    pub open spec fn place(self) -> int {
        match self {
            StageView::Idle => 0,
            StageView::Preflight(..) => 1,
            StageView::Resolve => 2,
            StageView::Boot(..) => 3,
            StageView::BuildServer(..) => 4,
            StageView::Build(..) => 5,
            StageView::Locate(..) => 6,
            StageView::Bundle(..) => 7,
            StageView::Install(..) => 8,
            StageView::Files(..) => 9,
            StageView::Launch(..) => 10,
            StageView::Over => 11,
        }
    }
}

/// What the pipeline was started for.
pub struct Plan {
    pub workspace: String,
    pub scheme: String,
    pub preflight: Option<String>,
    /// Whether the app is installed and launched, not only built.
    pub launch: bool,
    /// Whether the app waits for the debugger.
    pub debug: bool,
    /// The tool's home directory, under which capture files lie.
    pub home: String,
}

/// The mathematical value of a [`Plan`].
pub struct PlanView {
    pub workspace: Seq<char>,
    pub scheme: Seq<char>,
    pub preflight: Option<Seq<char>>,
    pub launch: bool,
    pub debug: bool,
    pub home: Seq<char>,
}

impl View for Plan {
    type V = PlanView;

    open spec fn view(&self) -> PlanView {
        PlanView {
            workspace: self.workspace@,
            scheme: self.scheme@,
            preflight: opt_view(self.preflight),
            launch: self.launch,
            debug: self.debug,
            home: self.home@,
        }
    }
}

/// What an event leads to: the next stage, the lines to show and the step to take.
pub struct Turn {
    pub stage: Stage,
    pub lines: Vec<String>,
    pub step: Step,
}

/// The mathematical value of a [`Turn`].
pub struct TurnView {
    pub stage: StageView,
    pub lines: Seq<Seq<char>>,
    pub step: StepView,
}

impl View for Turn {
    type V = TurnView;

    open spec fn view(&self) -> TurnView {
        TurnView { stage: self.stage@, lines: texts(self.lines@), step: self.step@ }
    }
}

/// The pipeline fails.
pub open spec fn failed(e: Seq<char>) -> TurnView {
    TurnView {
        stage: StageView::Over,
        lines: Seq::empty(),
        step: StepView::Fail(ErrorView::Other(e)),
    }
}

/// The pipeline goes on.
pub open spec fn goes_on(stage: StageView, lines: Seq<Seq<char>>, step: StepView) -> TurnView {
    TurnView { stage, lines, step }
}

/// Where the workspace is missing and nothing can generate it.
pub open spec fn no_workspace_message(workspace: Seq<char>) -> Seq<char> {
    "workspace "@ + workspace
        + " not found and no \"preflight\" command is configured to generate it\nhint: generate the project first (e.g. `make project CI=true` for Tuist setups), set \"preflight\" in .zed/debug.json, or fix the path via --workspace / the \"workspace\" key; `xcode-dap refresh` regenerates and refreshes go-to-definition"@
}

/// The directory of the capture files of a simulator.
pub open spec fn run_dir_of(home: Seq<char>, udid: Seq<char>) -> Seq<char> {
    joined(joined(home, "run"@), udid)
}

/// At the start: the project is generated only where the workspace is missing.
pub open spec fn turn_start(p: PlanView, workspace_exists: bool) -> TurnView {
    if workspace_exists {
        goes_on(StageView::Resolve, Seq::empty(), StepView::ResolveDevice)
    } else {
        match p.preflight {
            None => failed(no_workspace_message(p.workspace)),
            Some(c) => goes_on(
                StageView::Preflight(c),
                seq![
                    "Workspace "@ + p.workspace + " missing \u{2014} running preflight: "@ + c,
                ],
                StepView::Preflight(c, parent_of(p.workspace)),
            ),
        }
    }
}

/// After the project generation: the workspace has to be there now.
pub open spec fn turn_preflight(
    p: PlanView,
    command: Seq<char>,
    error: Option<Seq<char>>,
    workspace_exists: bool,
) -> TurnView {
    match error {
        Some(e) => failed(in_context("preflight `"@ + command + "` failed"@, e)),
        None => if workspace_exists {
            goes_on(StageView::Resolve, Seq::empty(), StepView::ResolveDevice)
        } else {
            failed(
                "preflight `"@ + command + "` completed but workspace "@ + p.workspace
                    + " still does not exist"@,
            )
        },
    }
}

/// After the simulator is known: it is booted only where the app is to run.
pub open spec fn turn_device(p: PlanView, udid: Seq<char>, cancelled: bool) -> TurnView {
    if p.launch {
        goes_on(
            StageView::Boot(udid),
            seq!["Simulator: "@ + udid, "Booting simulator (visible)..."@],
            StepView::Boot(udid),
        )
    } else if cancelled {
        TurnView { lines: seq!["Simulator: "@ + udid], ..failed("cancelled"@) }
    } else {
        goes_on(
            StageView::BuildServer(udid),
            seq!["Simulator: "@ + udid],
            StepView::EnsureBuildServer,
        )
    }
}

/// After the boot.
pub open spec fn turn_booted(udid: Seq<char>, end: BootEnd, cancelled: bool) -> TurnView {
    match end {
        BootEnd::Failed(e) => failed(e@),
        BootEnd::TimedOut => failed(
            "simulator did not finish booting in 240s \u{2014} try `xcrun simctl shutdown "@ + udid
                + "` and rerun"@,
        ),
        BootEnd::Cancelled => failed("cancelled while booting simulator"@),
        BootEnd::Done => if cancelled {
            failed("cancelled"@)
        } else {
            goes_on(StageView::BuildServer(udid), Seq::empty(), StepView::EnsureBuildServer)
        },
    }
}

/// After the app is located: the end of a build, or the way to its launch.
pub open spec fn turn_app(p: PlanView, udid: Seq<char>, app: Seq<char>) -> TurnView {
    if p.launch {
        goes_on(
            StageView::Bundle(udid, app),
            seq!["App: "@ + app],
            StepView::ReadBundleId(udid, app, p.debug),
        )
    } else {
        goes_on(StageView::Over, seq!["App: "@ + app], StepView::Finished(udid, app))
    }
}

/// After the installation.
pub open spec fn turn_installed(p: PlanView, udid: Seq<char>, app: Seq<char>, id: Seq<char>) -> TurnView {
    let dir = run_dir_of(p.home, udid);
    goes_on(
        StageView::Files(udid, app, id),
        Seq::empty(),
        StepView::PrepareFiles(dir, joined(dir, "out.log"@), joined(dir, "err.log"@)),
    )
}

/// After the capture files are ready.
pub open spec fn turn_files(p: PlanView, udid: Seq<char>, app: Seq<char>, id: Seq<char>) -> TurnView {
    let dir = run_dir_of(p.home, udid);
    match stem_of(app) {
        None => failed("app path has no file stem"@),
        Some(name) => goes_on(
            StageView::Launch(udid, app, id),
            seq![
                if p.debug {
                    "Launching "@ + id + " (waiting for debugger)"@ + "..."@
                } else {
                    "Launching "@ + id + ""@ + "..."@
                },
            ],
            StepView::Launch(
                udid,
                id,
                name,
                p.debug,
                joined(dir, "out.log"@),
                joined(dir, "err.log"@),
            ),
        ),
    }
}

/// After the launch.
pub open spec fn turn_launched(
    p: PlanView,
    udid: Seq<char>,
    app: Seq<char>,
    id: Seq<char>,
    pid: i64,
) -> TurnView {
    let dir = run_dir_of(p.home, udid);
    goes_on(
        StageView::Over,
        seq!["Launched "@ + id + " (pid "@ + decimal_int(pid as int) + ")"@],
        StepView::Running(
            LaunchedView {
                pid,
                udid,
                bundle_id: id,
                app_path: app,
                stdout_file: joined(dir, "out.log"@),
                stderr_file: joined(dir, "err.log"@),
            },
        ),
    )
}

/// What an event leads to. An event that does not belong to the stage changes
/// nothing; any failure ends the pipeline.
pub open spec fn turned(p: PlanView, stage: StageView, e: Event) -> TurnView {
    match (stage, e) {
        (StageView::Idle, Event::Start { workspace_exists }) => turn_start(p, workspace_exists),
        (StageView::Preflight(c), Event::PreflightDone { outcome, workspace_exists }) =>
            turn_preflight(
            p,
            c,
            match outcome {
                Ok(_) => None,
                Err(m) => Some(m@),
            },
            workspace_exists,
        ),
        (StageView::Resolve, Event::Device { result, cancelled }) => match result {
            Err(m) => failed(m@),
            Ok(u) => turn_device(p, u@, cancelled),
        },
        (StageView::Boot(u), Event::Booted { end, cancelled }) => turn_booted(u, end, cancelled),
        (StageView::BuildServer(u), Event::BuildServerReady { cancelled }) => if cancelled {
            failed("cancelled while resolving build_root for buildServer.json"@)
        } else {
            goes_on(
                StageView::Build(u),
                seq!["Building scheme \""@ + p.scheme + "\"..."@],
                StepView::Build(u),
            )
        },
        (StageView::Build(u), Event::Built(result)) => match result {
            Err(x) => goes_on(StageView::Over, Seq::empty(), StepView::Fail(x@)),
            Ok(_) => goes_on(StageView::Locate(u), Seq::empty(), StepView::LocateApp(u)),
        },
        (StageView::Locate(u), Event::App(result)) => match result {
            Err(m) => failed(m@),
            Ok(a) => turn_app(p, u, a@),
        },
        (StageView::Bundle(u, a), Event::BundleId { result, cancelled }) => match result {
            Err(m) => failed(m@),
            Ok(id) => if cancelled {
                failed("cancelled"@)
            } else {
                goes_on(
                    StageView::Install(u, a, id@),
                    seq!["Installing "@ + id@ + "..."@],
                    StepView::Install(u, a),
                )
            },
        },
        (StageView::Install(u, a, id), Event::Installed(result)) => match result {
            Err(m) => failed(m@),
            Ok(_) => turn_installed(p, u, a, id),
        },
        (StageView::Files(u, a, id), Event::FilesReady(result)) => match result {
            Err(m) => failed(m@),
            Ok(_) => turn_files(p, u, a, id),
        },
        (StageView::Launch(u, a, id), Event::Launched(result)) => match result {
            Err(m) => failed(m@),
            Ok(pid) => turn_launched(p, u, a, id, pid),
        },
        _ => TurnView { stage, lines: Seq::empty(), step: StepView::Wait },
    }
}

/// No lines.
fn no_lines() -> (r: Vec<String>)
    ensures
        texts(r@) == Seq::<Seq<char>>::empty(),
{
    let r: Vec<String> = Vec::new();
    assert(texts(r@) =~= Seq::<Seq<char>>::empty());
    r
}

/// One line.
fn one_line(s: String) -> (r: Vec<String>)
    ensures
        texts(r@) == seq![s@],
{
    let r = vec![s];
    assert(texts(r@) =~= seq![s@]);
    r
}

/// The pipeline fails.
fn fail(e: String) -> (r: Turn)
    ensures
        r@ == failed(e@),
{
    Turn { stage: Stage::Over, lines: no_lines(), step: Step::Fail(PipelineError::Other(e)) }
}

/// The directory of the capture files of a simulator.
pub fn run_dir(home: &str, udid: &str) -> (r: String)
    ensures
        r@ == run_dir_of(home@, udid@),
{
    join(join(home, "run").as_str(), udid)
}

/// At the start.
fn on_start(p: &Plan, workspace_exists: bool) -> (r: Turn)
    ensures
        r@ == turn_start(p@, workspace_exists),
{
    if workspace_exists {
        return Turn { stage: Stage::Resolve, lines: no_lines(), step: Step::ResolveDevice };
    }
    match &p.preflight {
        None => {
            let mut m = owned("workspace ");
            m.append(p.workspace.as_str());
            m.append(
                " not found and no \"preflight\" command is configured to generate it\nhint: generate the project first (e.g. `make project CI=true` for Tuist setups), set \"preflight\" in .zed/debug.json, or fix the path via --workspace / the \"workspace\" key; `xcode-dap refresh` regenerates and refreshes go-to-definition",
            );
            fail(m)
        },
        Some(c) => {
            let mut m = owned("Workspace ");
            m.append(p.workspace.as_str());
            m.append(" missing \u{2014} running preflight: ");
            m.append(c.as_str());
            Turn {
                stage: Stage::Preflight { command: owned(c.as_str()) },
                lines: one_line(m),
                step: Step::Preflight {
                    command: owned(c.as_str()),
                    inside: parent(p.workspace.as_str()),
                },
            }
        },
    }
}

/// After the project generation.
fn on_preflight(
    p: &Plan,
    command: &str,
    result: Result<(), String>,
    workspace_exists: bool,
) -> (r: Turn)
    ensures
        r@ == turn_preflight(
            p@,
            command@,
            match result {
                Ok(_) => None,
                Err(m) => Some(m@),
            },
            workspace_exists,
        ),
{
    match result {
        Err(e) => {
            let mut what = owned("preflight `");
            what.append(command);
            what.append("` failed");
            fail(with_context(what.as_str(), e.as_str()))
        },
        Ok(_) => if workspace_exists {
            Turn { stage: Stage::Resolve, lines: no_lines(), step: Step::ResolveDevice }
        } else {
            let mut m = owned("preflight `");
            m.append(command);
            m.append("` completed but workspace ");
            m.append(p.workspace.as_str());
            m.append(" still does not exist");
            fail(m)
        },
    }
}

/// After the simulator is known.
fn on_device(p: &Plan, udid: String, cancelled: bool) -> (r: Turn)
    ensures
        r@ == turn_device(p@, udid@, cancelled),
{
    let mut line = owned("Simulator: ");
    line.append(udid.as_str());
    let mut lines = one_line(line);
    if p.launch {
        push_text(&mut lines, "Booting simulator (visible)...");
        assert(texts(lines@) =~= seq![
            "Simulator: "@ + udid@,
            "Booting simulator (visible)..."@,
        ]);
        return Turn {
            stage: Stage::Boot { udid: owned(udid.as_str()) },
            lines,
            step: Step::Boot { udid },
        };
    }
    if cancelled {
        return Turn {
            stage: Stage::Over,
            lines,
            step: Step::Fail(PipelineError::Other(owned("cancelled"))),
        };
    }
    Turn { stage: Stage::BuildServer { udid }, lines, step: Step::EnsureBuildServer }
}

/// After the boot.
fn on_booted(udid: &str, end: BootEnd, cancelled: bool) -> (r: Turn)
    ensures
        r@ == turn_booted(udid@, end, cancelled),
{
    match end {
        BootEnd::Failed(e) => fail(e),
        BootEnd::TimedOut => {
            let mut m = owned(
                "simulator did not finish booting in 240s \u{2014} try `xcrun simctl shutdown ",
            );
            m.append(udid);
            m.append("` and rerun");
            fail(m)
        },
        BootEnd::Cancelled => fail(owned("cancelled while booting simulator")),
        BootEnd::Done => if cancelled {
            fail(owned("cancelled"))
        } else {
            Turn {
                stage: Stage::BuildServer { udid: owned(udid) },
                lines: no_lines(),
                step: Step::EnsureBuildServer,
            }
        },
    }
}

/// After the build server file is seen to.
fn on_build_server(p: &Plan, udid: &str, cancelled: bool) -> (r: Turn)
    ensures
        r@ == if cancelled {
            failed("cancelled while resolving build_root for buildServer.json"@)
        } else {
            goes_on(
                StageView::Build(udid@),
                seq!["Building scheme \""@ + p@.scheme + "\"..."@],
                StepView::Build(udid@),
            )
        },
{
    if cancelled {
        return fail(owned("cancelled while resolving build_root for buildServer.json"));
    }
    let mut line = owned("Building scheme \"");
    line.append(p.scheme.as_str());
    line.append("\"...");
    Turn {
        stage: Stage::Build { udid: owned(udid) },
        lines: one_line(line),
        step: Step::Build { udid: owned(udid) },
    }
}

/// After the app is located.
fn on_app(p: &Plan, udid: &str, app: String) -> (r: Turn)
    ensures
        r@ == turn_app(p@, udid@, app@),
{
    let mut line = owned("App: ");
    line.append(app.as_str());
    let lines = one_line(line);
    if p.launch {
        Turn {
            stage: Stage::Bundle { udid: owned(udid), app: owned(app.as_str()) },
            lines,
            step: Step::ReadBundleId { udid: owned(udid), app, supersede: p.debug },
        }
    } else {
        Turn { stage: Stage::Over, lines, step: Step::Finished { udid: owned(udid), app } }
    }
}

/// After the bundle id is read.
fn on_bundle(udid: &str, app: &str, id: String, cancelled: bool) -> (r: Turn)
    ensures
        r@ == if cancelled {
            failed("cancelled"@)
        } else {
            goes_on(
                StageView::Install(udid@, app@, id@),
                seq!["Installing "@ + id@ + "..."@],
                StepView::Install(udid@, app@),
            )
        },
{
    if cancelled {
        return fail(owned("cancelled"));
    }
    let mut line = owned("Installing ");
    line.append(id.as_str());
    line.append("...");
    Turn {
        stage: Stage::Install { udid: owned(udid), app: owned(app), id },
        lines: one_line(line),
        step: Step::Install { udid: owned(udid), app: owned(app) },
    }
}

/// After the installation.
fn on_installed(p: &Plan, udid: &str, app: &str, id: &str) -> (r: Turn)
    ensures
        r@ == turn_installed(p@, udid@, app@, id@),
{
    let dir = run_dir(p.home.as_str(), udid);
    let stdout_file = join(dir.as_str(), "out.log");
    let stderr_file = join(dir.as_str(), "err.log");
    Turn {
        stage: Stage::Files { udid: owned(udid), app: owned(app), id: owned(id) },
        lines: no_lines(),
        step: Step::PrepareFiles { dir, stdout_file, stderr_file },
    }
}

/// After the capture files are ready.
fn on_files(p: &Plan, udid: &str, app: &str, id: &str) -> (r: Turn)
    ensures
        r@ == turn_files(p@, udid@, app@, id@),
{
    let name = match file_stem(app) {
        Some(n) => n,
        None => return fail(owned("app path has no file stem")),
    };
    let dir = run_dir(p.home.as_str(), udid);
    let mut line = owned("Launching ");
    line.append(id);
    if p.debug {
        line.append(" (waiting for debugger)");
    } else {
        proof {
            reveal_strlit("");
            assert(line@ + ""@ =~= line@);
        }
    }
    line.append("...");
    Turn {
        stage: Stage::Launch { udid: owned(udid), app: owned(app), id: owned(id) },
        lines: one_line(line),
        step: Step::Launch {
            udid: owned(udid),
            bundle_id: owned(id),
            app_name: name,
            debug: p.debug,
            stdout_file: join(dir.as_str(), "out.log"),
            stderr_file: join(dir.as_str(), "err.log"),
        },
    }
}

/// After the launch.
fn on_launched(p: &Plan, udid: &str, app: &str, id: &str, pid: i64) -> (r: Turn)
    ensures
        r@ == turn_launched(p@, udid@, app@, id@, pid),
{
    let dir = run_dir(p.home.as_str(), udid);
    let mut line = owned("Launched ");
    line.append(id);
    line.append(" (pid ");
    line.append(decimal_i64(pid).as_str());
    line.append(")");
    Turn {
        stage: Stage::Over,
        lines: one_line(line),
        step: Step::Running(
            LaunchedApp {
                pid,
                udid: owned(udid),
                bundle_id: owned(id),
                app_path: owned(app),
                stdout_file: join(dir.as_str(), "out.log"),
                stderr_file: join(dir.as_str(), "err.log"),
            },
        ),
    }
}

/// What an event leads to.
pub fn turn(p: &Plan, stage: Stage, e: Event) -> (r: Turn)
    ensures
        r@ == turned(p@, stage@, e),
{
    match (stage, e) {
        (Stage::Idle, Event::Start { workspace_exists }) => on_start(p, workspace_exists),
        (Stage::Preflight { command }, Event::PreflightDone { outcome, workspace_exists }) =>
            on_preflight(p, command.as_str(), outcome, workspace_exists),
        (Stage::Resolve, Event::Device { result, cancelled }) => match result {
            Err(m) => fail(m),
            Ok(u) => on_device(p, u, cancelled),
        },
        (Stage::Boot { udid }, Event::Booted { end, cancelled }) => on_booted(
            udid.as_str(),
            end,
            cancelled,
        ),
        (Stage::BuildServer { udid }, Event::BuildServerReady { cancelled }) => on_build_server(
            p,
            udid.as_str(),
            cancelled,
        ),
        (Stage::Build { udid }, Event::Built(result)) => match result {
            Err(x) => Turn { stage: Stage::Over, lines: no_lines(), step: Step::Fail(x) },
            Ok(_) => Turn {
                stage: Stage::Locate { udid: owned(udid.as_str()) },
                lines: no_lines(),
                step: Step::LocateApp { udid },
            },
        },
        (Stage::Locate { udid }, Event::App(result)) => match result {
            Err(m) => fail(m),
            Ok(a) => on_app(p, udid.as_str(), a),
        },
        (Stage::Bundle { udid, app }, Event::BundleId { result, cancelled }) => match result {
            Err(m) => fail(m),
            Ok(id) => on_bundle(udid.as_str(), app.as_str(), id, cancelled),
        },
        (Stage::Install { udid, app, id }, Event::Installed(result)) => match result {
            Err(m) => fail(m),
            Ok(_) => on_installed(p, udid.as_str(), app.as_str(), id.as_str()),
        },
        (Stage::Files { udid, app, id }, Event::FilesReady(result)) => match result {
            Err(m) => fail(m),
            Ok(_) => on_files(p, udid.as_str(), app.as_str(), id.as_str()),
        },
        (Stage::Launch { udid, app, id }, Event::Launched(result)) => match result {
            Err(m) => fail(m),
            Ok(pid) => on_launched(p, udid.as_str(), app.as_str(), id.as_str(), pid),
        },
        (stage, _) => Turn { stage, lines: no_lines(), step: Step::Wait },
    }
}

/// The phases come in order and none comes twice: an event either changes nothing
/// or leads to a later stage. A pipeline that is over stays so.
pub proof fn lemma_stages_advance(p: PlanView, stage: StageView, e: Event)
    ensures
        turned(p, stage, e).step is Wait <==> turned(p, stage, e).stage == stage,
        !(turned(p, stage, e).step is Wait) ==> turned(p, stage, e).stage.place() > stage.place(),
        stage is Over ==> turned(p, stage, e).step is Wait,
{
}

/// Only a build that succeeded is installed, and only what was installed is
/// launched; where nothing is to be launched no simulator is booted.
pub proof fn lemma_phases_follow(p: PlanView, stage: StageView, e: Event)
    ensures
        turned(p, stage, e).step is LocateApp ==> (e matches Event::Built(r) && r is Ok),
        turned(p, stage, e).step is Install ==> stage is Bundle,
        turned(p, stage, e).step is ReadBundleId ==> p.launch && stage is Locate,
        turned(p, stage, e).step is PrepareFiles ==> (e matches Event::Installed(r) && r is Ok),
        turned(p, stage, e).step is Launch ==> stage is Files,
        turned(p, stage, e).step is Boot ==> p.launch,
{
}

// ---------------------------------------------------------------------------
// the build server file and the compile store
// ---------------------------------------------------------------------------

/// What a build does about `buildServer.json`.
#[derive(Clone, Copy, Debug, PartialEq, Eq, Structural)]
pub enum ServerStep {
    /// It is as fresh as the workspace.
    Fresh,
    /// The project does not use the adapter: a missing file is not written.
    NotOptedIn,
    Regenerate,
}

/// What a build does about `buildServer.json`.
pub open spec fn server_step(
    build_server: Option<i128>,
    workspace: Option<i128>,
    present: bool,
    debug_json: Option<Seq<char>>,
) -> ServerStep {
    if !is_stale(build_server, workspace) {
        ServerStep::Fresh
    } else if opted_in(present, debug_json) {
        ServerStep::Regenerate
    } else {
        ServerStep::NotOptedIn
    }
}

/// What a build does about `buildServer.json`, from the times of the file and of
/// the workspace and the debug scenarios of the project.
pub fn ensure_build_server(
    build_server: Option<i128>,
    workspace: Option<i128>,
    present: bool,
    debug_json: Option<&str>,
) -> (r: ServerStep)
    ensures
        r == server_step(build_server, workspace, present, opt_str_view(debug_json)),
{
    if !buildserver_stale(build_server, workspace) {
        ServerStep::Fresh
    } else if build_server_opted_in(present, debug_json) {
        ServerStep::Regenerate
    } else {
        ServerStep::NotOptedIn
    }
}

/// The line to show after `buildServer.json` was regenerated, where the language
/// server has to be restarted.
pub fn restart_line(outcome: &Outcome) -> (r: Option<String>)
    ensures
        opt_view(r) == if outcome.restart_hint {
            Some(
                "buildServer.json regenerated \u{2014} run 'editor: restart language server' in Zed to restore code navigation"@,
            )
        } else {
            None
        },
{
    if outcome.restart_hint {
        Some(
            owned(
                "buildServer.json regenerated \u{2014} run 'editor: restart language server' in Zed to restore code navigation",
            ),
        )
    } else {
        None
    }
}

/// The build root whose compile store takes in the output of a build.
pub open spec fn ingested_root(
    present: bool,
    debug_json: Option<Seq<char>>,
    derived_data: Option<Seq<char>>,
    app: Seq<char>,
) -> Option<Seq<char>> {
    if opted_in(present, debug_json) {
        match derived_data {
            Some(d) => Some(d),
            None => ancestor(app, 4),
        }
    } else {
        None
    }
}

/// The build root whose compile store takes in the output of a build: none where
/// the project does not use the adapter.
pub fn ingest_target(
    present: bool,
    debug_json: Option<&str>,
    derived_data: Option<&str>,
    app: &str,
) -> (r: Option<String>)
    ensures
        opt_view(r) == ingested_root(
            present,
            opt_str_view(debug_json),
            opt_str_view(derived_data),
            app@,
        ),
{
    if build_server_opted_in(present, debug_json) {
        build_root_from_app(derived_data, app)
    } else {
        None
    }
}

/// Fold the output of a build into the compile store. Output that compiled
/// nothing leaves the store alone, and the watermark of the build logs stays.
pub fn ingest_build_log(
    build_root: &str,
    scheme: &str,
    log: &str,
    saved: Option<Persisted>,
    disk: &Disk,
) -> (r: Option<LockedMerge>)
    requires
        disk.wf(),
        saved matches Some(p) ==> p.modules.wf(),
    ensures
        r is None <==> text_modules(log@) == Map::<Seq<char>, ModuleView>::empty(),
        r matches Some(m) ==> {
            &&& m.store.wf()
            &&& m.changed
            &&& m.store@.build_root == build_root@
            &&& m.store@.scheme == scheme@
            &&& exists|ms: Seq<ModuleView>| #[trigger]
                lists_modules(ms, text_modules(log@)) && m.store@.modules == merged_groups(
                    adopted(build_root@, scheme@, saved_view(saved)).0,
                    seq![ms],
                    1,
                )
            &&& m.store@.last_log == adopted(build_root@, scheme@, saved_view(saved)).1
        },
{
    let modules = parse_text_lines(log);
    let ghost mv = modules_view(modules@);
    let ghost by_name = text_modules(log@);
    if modules.len() == 0 {
        assert forall|k: Seq<char>| !by_name.dom().contains(k) by {
            assert(!module_names(mv).contains(k));
        }
        assert(by_name =~= Map::<Seq<char>, ModuleView>::empty());
        return None;
    }
    assert(module_names(mv)[0] == mv[0].name);
    assert(module_names(mv).contains(mv[0].name));
    assert(by_name.dom().contains(mv[0].name));
    let groups = vec![modules];
    let ghost gv = groups_view(groups@);
    assert(gv =~= seq![mv]);
    proof {
        let sections = sections_from(lines_of(log@), 0);
        lemma_collected_named(sections, sections.len() as int);
        assert(mv[0].name.len() > 0);
        assert(any_named(gv[0], gv[0].len() as int));
    }
    Some(
        CompileStore::merge_save_locked(build_root, scheme, saved, &groups, Watermark::Keep, disk),
    )
}

// ---------------------------------------------------------------------------
// the bundle id
// ---------------------------------------------------------------------------

/// The bundle id that `plutil` printed for an `Info.plist`.
pub open spec fn bundle_id_of(
    success: bool,
    printed: Seq<char>,
    stderr: Seq<char>,
    plist: Seq<char>,
) -> Result<Seq<char>, Seq<char>> {
    if !success {
        Err("reading CFBundleIdentifier from "@ + plist + " failed: "@ + trimmed(stderr))
    } else if trimmed(printed).len() == 0 {
        Err("empty CFBundleIdentifier in "@ + plist)
    } else {
        Ok(trimmed(printed))
    }
}

/// The bundle id that `plutil` printed for an `Info.plist`.
pub fn bundle_id(success: bool, stdout: &[u8], stderr: &[u8], plist: &str) -> (r: Result<
    String,
    String,
>)
    ensures
        text_result(r) == bundle_id_of(
            success,
            lossy_text(stdout@),
            lossy_text(stderr@),
            plist@,
        ),
{
    if !success {
        let mut m = owned("reading CFBundleIdentifier from ");
        m.append(plist);
        m.append(" failed: ");
        m.append(trim(utf8_lossy(stderr).as_str()).as_str());
        return Err(m);
    }
    let id = trim(utf8_lossy(stdout).as_str());
    if chars_of(id.as_str()).len() == 0 {
        let mut m = owned("empty CFBundleIdentifier in ");
        m.append(plist);
        return Err(m);
    }
    Ok(id)
}

} // verus!
