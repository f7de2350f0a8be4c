//! The proxy's routing decisions: seq namespace, launch interception, attach
//! and response rewrite, teardown.
//!
//! - Everything except `launch` flows byte-verbatim in both directions.
//! - `launch` is intercepted: the pipeline runs while a client `disconnect` may
//!   cancel it; on success the proxy selects the simulator platform, attaches
//!   to the app's pid, and rewrites the attach response onto the client's
//!   launch seq.
//! - Once the debugger has reported the end of the session, a following
//!   `disconnect` is answered by the proxy itself; once the process has exited
//!   there is nothing left for teardown to terminate.
//!
//! A [`Proxy`] holds the state. Each event gives the actions to perform, in
//! order.

use crate::dap::framing::body_of;
use crate::dap::framing::frame;
use crate::dap::framing::frame_of;
use crate::dap::framing::frame_value;
use crate::dap::peek::attach_pid;
use crate::dap::peek::attach_view;
use crate::dap::peek::classify_child;
use crate::dap::peek::classify_client;
use crate::dap::peek::client_kind;
use crate::dap::peek::error_response;
use crate::dap::peek::evaluate_repl;
use crate::dap::peek::evaluate_view;
use crate::dap::peek::internal_seq;
use crate::dap::peek::output_event;
use crate::dap::peek::output_event_view;
use crate::dap::peek::response_view;
use crate::dap::peek::rewrite_attach_response;
use crate::dap::peek::rewritten;
use crate::dap::peek::succeeded;
use crate::dap::peek::success_response;
use crate::dap::peek::terminal_event;
use crate::dap::peek::terminal_kind;
use crate::dap::peek::terminated_event;
use crate::dap::peek::terminated_view;
use crate::dap::peek::ChildMsg;
use crate::dap::peek::ClientKindView;
use crate::dap::peek::ClientMsg;
use crate::dap::peek::SEQ_BASE;
use crate::engine::config::ConfigView;
use crate::engine::config::LaunchConfig;
use crate::engine::consoles::default_oslog_predicate;
use crate::engine::pipeline::LaunchedApp;
use crate::engine::pipeline::LaunchedView;
use crate::json::parse;
use crate::json::serde_parse;
use crate::json::Json;
use crate::json::JsonView;
use crate::number::decimal;
use crate::number::decimal_u64;
use crate::text::chars_of;
use crate::text::in_context;
use crate::text::owned;
use crate::text::push_bytes;
use crate::text::str_eq;
use crate::util::paths::file_stem;
use crate::util::paths::stem_of;
use vstd::prelude::*;

verus! {

// ---------------------------------------------------------------------------
// actions
// ---------------------------------------------------------------------------

/// One message on its way out.
#[derive(Debug)]
pub enum Out {
    /// Verbatim passthrough frame body (re-framed on write).
    Raw(Vec<u8>),
    /// Proxy-built message (serialized and framed on write).
    Msg(Json),
}

/// The mathematical value of an [`Out`].
pub enum OutView {
    Raw(Seq<u8>),
    Msg(JsonView),
}

impl View for Out {
    type V = OutView;

    open spec fn view(&self) -> OutView {
        match self {
            Out::Raw(b) => OutView::Raw(b@),
            Out::Msg(j) => OutView::Msg(j@),
        }
    }
}

/// The bytes of a frame for a peer: a body as it came, or a document.
pub open spec fn wire(out: OutView) -> Seq<u8> {
    match out {
        OutView::Raw(body) => frame_of(body),
        OutView::Msg(v) => frame_of(body_of(v)),
    }
}

impl Out {
    /// The bytes to write for this frame.
    pub fn bytes(&self) -> (r: Vec<u8>)
        ensures
            r@ == wire(self@),
    {
        match self {
            Out::Raw(body) => frame(body.as_slice()),
            Out::Msg(v) => frame_value(v),
        }
    }
}

/// Something the caller does for the proxy.
#[derive(Debug)]
pub enum Action {
    /// Queue a message for the client.
    ToClient(Out),
    /// Queue a message for the debugger.
    ToChild(Out),
    /// Ask the running pipeline to stop.
    CancelPipeline,
    /// Read a launch configuration out of these arguments and hand it to
    /// [`Proxy::on_launch_config`].
    ReadConfig(Json),
    /// Start the mock pipeline.
    StartMock,
    /// Start the pipeline with this configuration.
    StartPipeline(LaunchConfig),
    /// Kill the mock app.
    KillMock,
    /// Terminate the app on the simulator.
    TerminateApp { udid: String, bundle_id: String },
    /// Claim the simulator's pidfile, stopping a previous instance.
    ClaimPidfile(String),
    /// Start the console tailers (and the log pump, where one is wanted).
    StartTailers(TailPlan),
    /// Leave the routing loop with this exit code.
    Exit(i32),
}

/// What to tail once the debugger has attached.
#[derive(Debug)]
pub struct TailPlan {
    pub stdout_file: String,
    pub stderr_file: String,
    /// Simulator and predicate of the log pump.
    pub oslog: Option<(String, String)>,
}

/// The mathematical value of a [`TailPlan`].
pub struct TailView {
    pub stdout_file: Seq<char>,
    pub stderr_file: Seq<char>,
    pub oslog: Option<(Seq<char>, Seq<char>)>,
}

impl View for TailPlan {
    type V = TailView;

    open spec fn view(&self) -> TailView {
        TailView {
            stdout_file: self.stdout_file@,
            stderr_file: self.stderr_file@,
            oslog: match self.oslog {
                Some((u, p)) => Some((u@, p@)),
                None => None,
            },
        }
    }
}

/// The mathematical value of an [`Action`].
pub enum ActionView {
    ToClient(OutView),
    ToChild(OutView),
    CancelPipeline,
    ReadConfig(JsonView),
    StartMock,
    StartPipeline(ConfigView),
    KillMock,
    TerminateApp { udid: Seq<char>, bundle_id: Seq<char> },
    ClaimPidfile(Seq<char>),
    StartTailers(TailView),
    Exit(i32),
}

impl View for Action {
    type V = ActionView;

    open spec fn view(&self) -> ActionView {
        match self {
            Action::ToClient(o) => ActionView::ToClient(o@),
            Action::ToChild(o) => ActionView::ToChild(o@),
            Action::CancelPipeline => ActionView::CancelPipeline,
            Action::ReadConfig(j) => ActionView::ReadConfig(j@),
            Action::StartMock => ActionView::StartMock,
            Action::StartPipeline(c) => ActionView::StartPipeline(c@),
            Action::KillMock => ActionView::KillMock,
            Action::TerminateApp { udid, bundle_id } => ActionView::TerminateApp {
                udid: udid@,
                bundle_id: bundle_id@,
            },
            Action::ClaimPidfile(u) => ActionView::ClaimPidfile(u@),
            Action::StartTailers(p) => ActionView::StartTailers(p@),
            Action::Exit(c) => ActionView::Exit(*c),
        }
    }
}

/// The views of a list of actions.
pub open spec fn actions_view(a: Seq<Action>) -> Seq<ActionView> {
    Seq::new(a.len(), |i: int| a[i]@)
}

// ---------------------------------------------------------------------------
// state
// ---------------------------------------------------------------------------

/// Result of one pipeline run handed back to the routing loop.
#[derive(Debug)]
pub struct PipelineDone {
    pub app: LaunchedApp,
    /// `None` in mock mode (the mock ignores the scenario config).
    pub config: Option<LaunchConfig>,
    /// Whether the app is the mock dummy (killed on teardown).
    pub mock: bool,
}

/// The mathematical value of a [`PipelineDone`].
pub struct DoneView {
    pub app: LaunchedView,
    pub config: Option<ConfigView>,
    pub mock: bool,
}

impl View for PipelineDone {
    type V = DoneView;

    open spec fn view(&self) -> DoneView {
        DoneView {
            app: self.app@,
            config: match self.config {
                Some(c) => Some(c@),
                None => None,
            },
            mock: self.mock,
        }
    }
}

/// What a pipeline run came to, by its view.
pub open spec fn result_view(res: Result<PipelineDone, String>) -> Result<DoneView, Seq<char>> {
    match res {
        Ok(d) => Ok(d@),
        Err(e) => Err(e@),
    }
}

/// A launch configuration that was read, by its view.
pub open spec fn read_view(cfg: Result<LaunchConfig, String>) -> Result<ConfigView, Seq<char>> {
    match cfg {
        Ok(c) => Ok(c@),
        Err(e) => Err(e@),
    }
}

/// A pipeline that ended during teardown, by its view.
pub open spec fn late_view(late: Option<PipelineDone>) -> Option<DoneView> {
    match late {
        Some(d) => Some(d@),
        None => None,
    }
}

/// The proxy state machine.
#[derive(Debug)]
pub struct Proxy {
    /// Skip xcodebuild and the simulator, attach to a dummy app.
    mock_pipeline: bool,
    /// Client's launch request seq (the attach response is rewritten onto it).
    launch_seq: Option<i64>,
    /// Our internal attach seq.
    attach_seq: Option<i64>,
    /// Proxy-internal seq namespace; starts at [`SEQ_BASE`].
    next_seq: i64,
    pipeline_running: bool,
    /// Disconnect seq received while the pipeline ran; answered ourselves once
    /// the cancelled pipeline winds down.
    pending_disconnect: Option<i64>,
    /// Launched app once the pipeline succeeded (teardown cleanup).
    session: Option<PipelineDone>,
    /// Whether the console tailers were started.
    tailing: bool,
    /// Set once the debugger reports a successful attach.
    attached: bool,
    /// Set once the debugger reports the end of the session.
    ended: bool,
    /// Set once the debugger reports that the process has exited.
    exited: bool,
}

/// The mathematical value of a [`Proxy`].
pub struct ProxyView {
    pub mock_pipeline: bool,
    pub launch_seq: Option<i64>,
    pub attach_seq: Option<i64>,
    pub next_seq: i64,
    pub pipeline_running: bool,
    pub pending_disconnect: Option<i64>,
    pub session: Option<DoneView>,
    pub tailing: bool,
    pub attached: bool,
    pub ended: bool,
    pub exited: bool,
}

impl View for Proxy {
    type V = ProxyView;

    closed spec fn view(&self) -> ProxyView {
        ProxyView {
            mock_pipeline: self.mock_pipeline,
            launch_seq: self.launch_seq,
            attach_seq: self.attach_seq,
            next_seq: self.next_seq,
            pipeline_running: self.pipeline_running,
            pending_disconnect: self.pending_disconnect,
            session: match self.session {
                Some(s) => Some(s@),
                None => None,
            },
            tailing: self.tailing,
            attached: self.attached,
            ended: self.ended,
            exited: self.exited,
        }
    }
}

impl ProxyView {
    /// What holds of the proxy at every moment: internal seqs come out of the
    /// private namespace in order, a launch is never running next to a
    /// session, and only a running launch has a disconnect pending.
    pub open spec fn wf(self) -> bool {
        &&& self.session is None ==> self.next_seq == SEQ_BASE && self.attach_seq is None
        &&& self.session is Some ==> {
            &&& !self.pipeline_running
            &&& SEQ_BASE < self.next_seq <= SEQ_BASE + 2
            &&& self.attach_seq is Some
            &&& SEQ_BASE <= self.attach_seq->0 < self.next_seq
        }
        &&& self.pending_disconnect is Some ==> self.pipeline_running
        &&& self.attached ==> self.session is Some
        &&& self.exited ==> self.ended
    }
}

// ---------------------------------------------------------------------------
// what each event does
// ---------------------------------------------------------------------------

/// A proxy-built message for the client.
pub open spec fn tell(m: JsonView) -> ActionView {
    ActionView::ToClient(OutView::Msg(m))
}

/// A proxy-built request for the debugger.
pub open spec fn ask(m: JsonView) -> ActionView {
    ActionView::ToChild(OutView::Msg(m))
}

/// The client's launch seq, 0 before there is one.
pub open spec fn launch_seq_of(s: ProxyView) -> i64 {
    match s.launch_seq {
        Some(n) => n,
        None => 0,
    }
}

/// A failed launch: error response, stderr output, `terminated`, exit 1.
pub open spec fn failure(s: ProxyView, msg: Seq<char>) -> Seq<ActionView> {
    seq![
        tell(response_view(launch_seq_of(s), "launch"@, false, Some(msg))),
        tell(output_event_view("stderr"@, msg + "\n"@)),
        tell(terminated_view()),
        ActionView::Exit(1),
    ]
}

/// A frame from the client.
pub open spec fn client_step(s: ProxyView, raw: Seq<u8>, k: ClientKindView) -> (
    ProxyView,
    Seq<ActionView>,
) {
    match k {
        ClientKindView::Initialize | ClientKindView::Other => (
            s,
            seq![ActionView::ToChild(OutView::Raw(raw))],
        ),
        ClientKindView::Launch { seq, args } => if s.pipeline_running || s.session is Some {
            (
                s,
                seq![
                    tell(
                        response_view(
                            seq,
                            "launch"@,
                            false,
                            Some("a launch is already in progress in this session"@),
                        ),
                    ),
                ],
            )
        } else if s.mock_pipeline {
            (
                ProxyView { launch_seq: Some(seq), pipeline_running: true, ..s },
                seq![ActionView::StartMock],
            )
        } else {
            (ProxyView { launch_seq: Some(seq), ..s }, seq![ActionView::ReadConfig(args)])
        },
        ClientKindView::Disconnect { seq } => if s.pipeline_running {
            (ProxyView { pending_disconnect: Some(seq), ..s }, seq![ActionView::CancelPipeline])
        } else if s.ended {
            (
                s,
                seq![tell(response_view(seq, "disconnect"@, true, None)), ActionView::Exit(0)],
            )
        } else {
            (s, seq![ActionView::ToChild(OutView::Raw(raw))])
        },
    }
}

/// The configuration of an intercepted launch.
pub open spec fn config_step(s: ProxyView, cfg: Result<ConfigView, Seq<char>>) -> (
    ProxyView,
    Seq<ActionView>,
) {
    match cfg {
        Ok(c) => (ProxyView { pipeline_running: true, ..s }, seq![ActionView::StartPipeline(c)]),
        Err(e) => (s, failure(s, "invalid launch configuration: "@ + e)),
    }
}

/// Taking back a launch whose session was given up meanwhile.
pub open spec fn undo(done: DoneView) -> ActionView {
    if done.mock {
        ActionView::KillMock
    } else {
        ActionView::TerminateApp { udid: done.app.udid, bundle_id: done.app.bundle_id }
    }
}

/// The end of the pipeline.
pub open spec fn pipeline_step(s: ProxyView, res: Result<DoneView, Seq<char>>) -> (
    ProxyView,
    Seq<ActionView>,
) {
    let idle = ProxyView { pipeline_running: false, ..s };
    match s.pending_disconnect {
        Some(q) => (
            ProxyView { pending_disconnect: None, ..idle },
            (match res {
                Ok(done) => seq![undo(done)],
                Err(_) => Seq::empty(),
            }) + seq![
                tell(response_view(q, "disconnect"@, true, None)),
                tell(terminated_view()),
                ActionView::Exit(0),
            ],
        ),
        None => match res {
            Err(e) => (idle, failure(idle, e)),
            Ok(done) => {
                let attach = if s.mock_pipeline {
                    s.next_seq
                } else {
                    (s.next_seq + 1) as i64
                };
                (
                    ProxyView {
                        attach_seq: Some(attach),
                        next_seq: (attach + 1) as i64,
                        session: Some(done),
                        ..idle
                    },
                    seq![ActionView::ClaimPidfile(done.app.udid)] + (if s.mock_pipeline {
                        Seq::empty()
                    } else {
                        seq![ask(evaluate_view("platform select ios-simulator"@, s.next_seq))]
                    }) + seq![ask(attach_view(done.app.pid, attach))],
                )
            },
        },
    }
}

/// What to tail for a session: the capture files, and the log pump where the
/// configuration asks for it and the app has a name.
pub open spec fn tail_view(done: DoneView) -> TailView {
    TailView {
        stdout_file: done.app.stdout_file,
        stderr_file: done.app.stderr_file,
        oslog: match done.config {
            Some(c) => if c.oslog {
                match stem_of(done.app.app_path) {
                    Some(name) => if name.len() > 0 {
                        Some(
                            (
                                done.app.udid,
                                match c.oslog_predicate {
                                    Some(p) => p,
                                    None => "subsystem == \""@ + done.app.bundle_id
                                        + "\" OR senderImagePath CONTAINS \"/"@ + name
                                        + ".app/\""@,
                                },
                            ),
                        )
                    } else {
                        None
                    },
                    None => None,
                }
            } else {
                None
            },
            None => None,
        },
    }
}

/// A frame from the debugger.
pub open spec fn child_step(s: ProxyView, raw: Seq<u8>, v: JsonView) -> (
    ProxyView,
    Seq<ActionView>,
) {
    match internal_seq(v) {
        Some(q) => if s.attach_seq != Some(q) {
            (s, Seq::empty())
        } else if succeeded(v) {
            (
                ProxyView { attached: true, tailing: s.tailing || s.session is Some, ..s },
                seq![
                    tell(rewritten(v, launch_seq_of(s))),
                    tell(output_event_view("console"@, "Debugger attached\n"@)),
                ] + if !s.tailing && s.session is Some {
                    seq![ActionView::StartTailers(tail_view(s.session->0))]
                } else {
                    Seq::empty()
                },
            )
        } else {
            (
                s,
                seq![
                    tell(rewritten(v, launch_seq_of(s))),
                    tell(output_event_view("stderr"@, "Debugger attach failed\n"@)),
                ],
            )
        },
        None => (
            ProxyView {
                ended: s.ended || terminal_kind(v) is Some,
                exited: s.exited || terminal_kind(v) == Some(true),
                ..s
            },
            seq![ActionView::ToClient(OutView::Raw(raw))],
        ),
    }
}

/// What teardown does to the app: the mock is killed; an app is terminated if
/// it is still ours and still there, and either never ran under the debugger
/// (it is suspended) or is to end with the session. `late` is what a pipeline
/// that was still running came to.
pub open spec fn teardown_actions(
    s: ProxyView,
    late: Option<DoneView>,
    superseded: bool,
) -> Seq<ActionView> {
    let session = if s.pipeline_running && late is Some {
        late
    } else {
        s.session
    };
    match session {
        Some(done) => if done.mock {
            seq![ActionView::KillMock]
        } else if !superseded && !s.exited && (!s.attached || (done.config is Some
            && done.config->0.terminate_on_stop)) {
            seq![
                ActionView::TerminateApp { udid: done.app.udid, bundle_id: done.app.bundle_id },
            ]
        } else {
            Seq::empty()
        },
        None => Seq::empty(),
    }
}

/// The output category that a pipeline line is shown under.
pub open spec fn dap_category_of(category: Seq<char>) -> Seq<char> {
    if category == "build"@ || category == "oslog"@ || category == "preflight"@ {
        "console"@
    } else {
        category
    }
}

/// A pipeline line as an `output` event: the internal sub-categories are
/// console output.
pub fn output_line(category: &str, text: &str) -> (r: Json)
    ensures
        r@ == output_event_view(dap_category_of(category@), text@ + "\n"@),
{
    let shown = if str_eq(category, "build") || str_eq(category, "oslog") || str_eq(
        category,
        "preflight",
    ) {
        "console"
    } else {
        category
    };
    let mut line = owned(text);
    line.append("\n");
    output_event(shown, line.as_str())
}

/// The name the client gives itself in its `initialize` request.
pub open spec fn client_id_of(v: JsonView) -> Seq<char> {
    match v.get("arguments"@) {
        Some(a) => match a.str_at("clientID"@) {
            Some(id) => id,
            None => "unknown"@,
        },
        None => "unknown"@,
    }
}

/// The first frame of a session, which has to be `initialize`: the client's
/// name.
pub fn accept_initialize(raw: &[u8]) -> (r: Result<Option<String>, String>)
    ensures
        match (r, serde_parse(raw@)) {
            (Ok(Some(id)), Ok(v)) => client_kind(v) == ClientKindView::Initialize && id@
                == client_id_of(v),
            (Ok(None), Ok(v)) => client_kind(v) != ClientKindView::Initialize,
            (Err(t), Err(e)) => t@ == in_context("client frame is not valid JSON"@, e),
            _ => false,
        },
{
    match classify_client(raw) {
        Err(e) => Err(e),
        Ok(ClientMsg::Initialize { raw: _ }) => match parse(raw) {
            Ok(v) => Ok(
                Some(
                    match v.get("arguments") {
                        Some(a) => match a.str_at("clientID") {
                            Some(id) => owned(id),
                            None => owned("unknown"),
                        },
                        None => owned("unknown"),
                    },
                ),
            ),
            Err(_) => Ok(Some(owned("unknown"))),
        },
        Ok(_) => Ok(None),
    }
}

/// A frame body to pass on as it is.
fn raw_out(raw: &[u8]) -> (r: Out)
    ensures
        r@ == OutView::Raw(raw@),
{
    let mut b: Vec<u8> = Vec::new();
    push_bytes(&mut b, raw);
    assert(b@ =~= raw@);
    Out::Raw(b)
}

/// What to tail for a session.
fn tail_plan(done: &PipelineDone) -> (r: TailPlan)
    ensures
        r@ == tail_view(done@),
{
    let oslog = match &done.config {
        Some(c) => if c.oslog {
            match file_stem(done.app.app_path.as_str()) {
                Some(name) => if chars_of(name.as_str()).len() > 0 {
                    let predicate = match &c.oslog_predicate {
                        Some(p) => owned(p.as_str()),
                        None => default_oslog_predicate(
                            done.app.bundle_id.as_str(),
                            name.as_str(),
                        ),
                    };
                    Some((owned(done.app.udid.as_str()), predicate))
                } else {
                    None
                },
                None => None,
            }
        } else {
            None
        },
        None => None,
    };
    TailPlan {
        stdout_file: owned(done.app.stdout_file.as_str()),
        stderr_file: owned(done.app.stderr_file.as_str()),
        oslog,
    }
}

impl Proxy {
    /// A proxy that has seen `initialize` and nothing else.
    pub fn new(mock_pipeline: bool) -> (r: Proxy)
        ensures
            r@ == (ProxyView {
                mock_pipeline,
                launch_seq: None,
                attach_seq: None,
                next_seq: SEQ_BASE,
                pipeline_running: false,
                pending_disconnect: None,
                session: None,
                tailing: false,
                attached: false,
                ended: false,
                exited: false,
            }),
            r@.wf(),
    {
        Proxy {
            mock_pipeline,
            launch_seq: None,
            attach_seq: None,
            next_seq: SEQ_BASE,
            pipeline_running: false,
            pending_disconnect: None,
            session: None,
            tailing: false,
            attached: false,
            ended: false,
            exited: false,
        }
    }

    /// Whether a pipeline result is awaited.
    pub fn is_pipeline_running(&self) -> (r: bool)
        ensures
            r == self@.pipeline_running,
    {
        self.pipeline_running
    }

    /// A failed launch: error response, stderr output, `terminated`, exit 1.
    fn fail_launch(&self, msg: &str) -> (r: Vec<Action>)
        ensures
            actions_view(r@) == failure(self@, msg@),
    {
        let seq: i64 = match self.launch_seq {
            Some(n) => n,
            None => 0,
        };
        let mut line = owned(msg);
        line.append("\n");
        let r = vec![
            Action::ToClient(Out::Msg(error_response(seq, "launch", msg))),
            Action::ToClient(Out::Msg(output_event("stderr", line.as_str()))),
            Action::ToClient(Out::Msg(terminated_event())),
            Action::Exit(1),
        ];
        assert(actions_view(r@) =~= failure(self@, msg@));
        r
    }

    /// Launch interception: record the seq and start (or refuse) the launch.
    fn handle_launch(&mut self, seq: i64, args: Json, Ghost(raw): Ghost<Seq<u8>>) -> (r: Vec<Action>)
        requires
            old(self)@.wf(),
        ensures
            (final(self)@, actions_view(r@)) == client_step(
                old(self)@,
                raw,
                ClientKindView::Launch { seq, args: args@ },
            ),
    {
        let r = if self.pipeline_running || self.session.is_some() {
            vec![
                Action::ToClient(
                    Out::Msg(
                        error_response(
                            seq,
                            "launch",
                            "a launch is already in progress in this session",
                        ),
                    ),
                ),
            ]
        } else {
            self.launch_seq = Some(seq);
            if self.mock_pipeline {
                self.pipeline_running = true;
                vec![Action::StartMock]
            } else {
                vec![Action::ReadConfig(args)]
            }
        };
        assert(actions_view(r@) =~= client_step(
            old(self)@,
            raw,
            ClientKindView::Launch { seq, args: args@ },
        ).1);
        r
    }

    /// Route one frame arriving from the client.
    pub fn on_client_message(&mut self, raw: &[u8]) -> (r: Result<Vec<Action>, String>)
        requires
            old(self)@.wf(),
        ensures
            final(self)@.wf(),
            match (r, serde_parse(raw@)) {
                (Ok(a), Ok(v)) => (final(self)@, actions_view(a@)) == client_step(
                    old(self)@,
                    raw@,
                    client_kind(v),
                ),
                (Err(t), Err(e)) => t@ == in_context("client frame is not valid JSON"@, e)
                    && final(self)@ == old(self)@,
                _ => false,
            },
    {
        let msg = match classify_client(raw) {
            Ok(m) => m,
            Err(e) => return Err(e),
        };
        let ghost kind = client_kind(serde_parse(raw@)->Ok_0);
        let r = match msg {
            ClientMsg::Initialize { raw: body } => vec![Action::ToChild(raw_out(body))],
            ClientMsg::Launch { seq, args } => self.handle_launch(seq, args, Ghost(raw@)),
            ClientMsg::Disconnect { seq, raw: body } => if self.pipeline_running {
                self.pending_disconnect = Some(seq);
                vec![Action::CancelPipeline]
            } else if self.ended {
                vec![
                    Action::ToClient(Out::Msg(success_response(seq, "disconnect"))),
                    Action::Exit(0),
                ]
            } else {
                vec![Action::ToChild(raw_out(body))]
            },
            ClientMsg::Other { raw: body } => vec![Action::ToChild(raw_out(body))],
        };
        assert(actions_view(r@) =~= client_step(old(self)@, raw@, kind).1);
        Ok(r)
    }

    /// The configuration of the launch that [`Action::ReadConfig`] asked for.
    pub fn on_launch_config(&mut self, cfg: Result<LaunchConfig, String>) -> (r: Vec<Action>)
        requires
            old(self)@.wf(),
            !old(self)@.pipeline_running,
            old(self)@.session is None,
        ensures
            final(self)@.wf(),
            (final(self)@, actions_view(r@)) == config_step(old(self)@, read_view(cfg)),
    {
        match cfg {
            Ok(c) => {
                self.pipeline_running = true;
                let ghost cv = c@;
                let r = vec![Action::StartPipeline(c)];
                assert(actions_view(r@) =~= seq![ActionView::StartPipeline(cv)]);
                r
            },
            Err(e) => {
                let mut msg = owned("invalid launch configuration: ");
                msg.append(e.as_str());
                self.fail_launch(msg.as_str())
            },
        }
    }

    /// Allocate the next proxy-internal seq.
    fn take_seq(&mut self) -> (r: i64)
        requires
            old(self)@.next_seq < i64::MAX,
        ensures
            r == old(self)@.next_seq,
            final(self)@ == (ProxyView {
                next_seq: (old(self)@.next_seq + 1) as i64,
                ..old(self)@
            }),
    {
        let seq = self.next_seq;
        self.next_seq = self.next_seq + 1;
        seq
    }

    /// The pipeline finished (success, failure, or cancellation).
    pub fn on_pipeline_result(&mut self, res: Result<PipelineDone, String>) -> (r: Vec<Action>)
        requires
            old(self)@.wf(),
            old(self)@.pipeline_running,
        ensures
            final(self)@.wf(),
            (final(self)@, actions_view(r@)) == pipeline_step(old(self)@, result_view(res)),
    {
        let ghost rv = result_view(res);
        self.pipeline_running = false;
        if let Some(q) = self.pending_disconnect {
            self.pending_disconnect = None;
            let mut r: Vec<Action> = Vec::new();
            if let Ok(done) = res {
                if done.mock {
                    r.push(Action::KillMock);
                } else {
                    r.push(
                        Action::TerminateApp {
                            udid: owned(done.app.udid.as_str()),
                            bundle_id: owned(done.app.bundle_id.as_str()),
                        },
                    );
                }
            }
            r.push(Action::ToClient(Out::Msg(success_response(q, "disconnect"))));
            r.push(Action::ToClient(Out::Msg(terminated_event())));
            r.push(Action::Exit(0));
            assert(actions_view(r@) =~= pipeline_step(old(self)@, rv).1);
            return r;
        }
        match res {
            Err(e) => self.fail_launch(e.as_str()),
            Ok(done) => {
                let mut r: Vec<Action> = Vec::new();
                r.push(Action::ClaimPidfile(owned(done.app.udid.as_str())));
                if !self.mock_pipeline {
                    let seq = self.take_seq();
                    r.push(
                        Action::ToChild(
                            Out::Msg(evaluate_repl("platform select ios-simulator", seq)),
                        ),
                    );
                }
                let attach_seq = self.take_seq();
                self.attach_seq = Some(attach_seq);
                r.push(Action::ToChild(Out::Msg(attach_pid(done.app.pid, attach_seq))));
                self.session = Some(done);
                assert(actions_view(r@) =~= pipeline_step(old(self)@, rv).1);
                r
            },
        }
    }

    /// Route one frame arriving from the debugger.
    pub fn on_child_message(&mut self, raw: &[u8]) -> (r: Result<Vec<Action>, String>)
        requires
            old(self)@.wf(),
        ensures
            final(self)@.wf(),
            match (r, serde_parse(raw@)) {
                (Ok(a), Ok(v)) => (final(self)@, actions_view(a@)) == child_step(
                    old(self)@,
                    raw@,
                    v,
                ),
                (Err(t), Err(e)) => t@ == in_context("child frame is not valid JSON"@, e)
                    && final(self)@ == old(self)@,
                _ => false,
            },
    {
        let msg = match classify_child(raw) {
            Ok(m) => m,
            Err(e) => return Err(e),
        };
        let ghost v = serde_parse(raw@)->Ok_0;
        let mut r: Vec<Action> = Vec::new();
        match msg {
            ChildMsg::InternalResponse { request_seq, raw: body } => {
                let ours = match self.attach_seq {
                    Some(q) => q == request_seq,
                    None => false,
                };
                if ours {
                    let launch_seq: i64 = match self.launch_seq {
                        Some(n) => n,
                        None => 0,
                    };
                    let (m, success) = match rewrite_attach_response(raw, launch_seq) {
                        Ok(p) => p,
                        Err(e) => return Err(e),
                    };
                    r.push(Action::ToClient(Out::Msg(m)));
                    if success {
                        self.attached = true;
                        r.push(
                            Action::ToClient(
                                Out::Msg(output_event("console", "Debugger attached\n")),
                            ),
                        );
                        if !self.tailing {
                            if let Some(done) = &self.session {
                                r.push(Action::StartTailers(tail_plan(done)));
                                self.tailing = true;
                            }
                        }
                    } else {
                        r.push(
                            Action::ToClient(
                                Out::Msg(output_event("stderr", "Debugger attach failed\n")),
                            ),
                        );
                    }
                }
            },
            ChildMsg::Other { raw: body } => {
                match terminal_event(raw) {
                    Some(exited) => {
                        self.ended = true;
                        if exited {
                            self.exited = true;
                        }
                    },
                    None => {},
                }
                r.push(Action::ToClient(raw_out(body)));
            },
        }
        assert(actions_view(r@) =~= child_step(old(self)@, raw@, v).1);
        Ok(r)
    }

    /// What teardown does to the app.
    pub fn teardown(&self, late: Option<PipelineDone>, superseded: bool) -> (r: Vec<Action>)
        ensures
            actions_view(r@) == teardown_actions(self@, late_view(late), superseded),
    {
        let mut r: Vec<Action> = Vec::new();
        let running = self.pipeline_running;
        let session: &Option<PipelineDone> = if running && late.is_some() {
            &late
        } else {
            &self.session
        };
        if let Some(done) = session {
            if done.mock {
                r.push(Action::KillMock);
            } else {
                let ends = match &done.config {
                    Some(c) => c.terminate_on_stop,
                    None => false,
                };
                if !superseded && !self.exited && (!self.attached || ends) {
                    r.push(
                        Action::TerminateApp {
                            udid: owned(done.app.udid.as_str()),
                            bundle_id: owned(done.app.bundle_id.as_str()),
                        },
                    );
                }
            }
        }
        assert(actions_view(r@) =~= teardown_actions(self@, late_view(late), superseded));
        r
    }
}

// ---------------------------------------------------------------------------
// laws
// ---------------------------------------------------------------------------

/// Every event keeps the proxy's invariant.
pub proof fn lemma_steps_keep_wf(
    s: ProxyView,
    raw: Seq<u8>,
    k: ClientKindView,
    v: JsonView,
    cfg: Result<ConfigView, Seq<char>>,
    res: Result<DoneView, Seq<char>>,
)
    requires
        s.wf(),
    ensures
        client_step(s, raw, k).0.wf(),
        child_step(s, raw, v).0.wf(),
        !s.pipeline_running && s.session is None ==> config_step(s, cfg).0.wf(),
        s.pipeline_running ==> pipeline_step(s, res).0.wf(),
{
}

/// Apart from `launch`, and from a `disconnect` that the proxy owns, what the
/// client sends reaches the debugger byte for byte and changes nothing.
pub proof fn lemma_client_passthrough(s: ProxyView, raw: Seq<u8>, k: ClientKindView)
    requires
        !(k is Launch),
        k is Disconnect ==> !s.pipeline_running && !s.ended,
    ensures
        client_step(s, raw, k) == (s, seq![ActionView::ToChild(OutView::Raw(raw))]),
{
}

/// What the debugger sends on its own account reaches the client byte for
/// byte, and nothing that answers the proxy's own requests does.
pub proof fn lemma_child_passthrough(s: ProxyView, raw: Seq<u8>, v: JsonView)
    ensures
        internal_seq(v) is None ==> child_step(s, raw, v).1 == seq![
            ActionView::ToClient(OutView::Raw(raw)),
        ],
        internal_seq(v) is Some ==> !child_step(s, raw, v).1.contains(
            ActionView::ToClient(OutView::Raw(raw)),
        ),
        internal_seq(v) is Some && s.attach_seq != internal_seq(v) ==> child_step(s, raw, v) == (
            s,
            Seq::<ActionView>::empty(),
        ),
{
}

/// While a launch is in progress or a session exists, another launch is
/// refused with an error and changes nothing.
pub proof fn lemma_second_launch_refused(s: ProxyView, raw: Seq<u8>, seq: i64, args: JsonView)
    requires
        s.pipeline_running || s.session is Some,
    ensures
        client_step(s, raw, ClientKindView::Launch { seq, args }).0 == s,
        client_step(s, raw, ClientKindView::Launch { seq, args }).1 == seq![
            tell(
                response_view(
                    seq,
                    "launch"@,
                    false,
                    Some("a launch is already in progress in this session"@),
                ),
            ),
        ],
{
}

/// A disconnect during the pipeline cancels it, and whatever the pipeline then
/// comes to the disconnect is answered, `terminated` is sent, a launched app is
/// taken back, and the proxy exits with 0.
pub proof fn lemma_disconnect_during_launch(
    s: ProxyView,
    raw: Seq<u8>,
    seq: i64,
    res: Result<DoneView, Seq<char>>,
)
    requires
        s.wf(),
        s.pipeline_running,
    ensures
        ({
            let (s1, a1) = client_step(s, raw, ClientKindView::Disconnect { seq });
            let (s2, a2) = pipeline_step(s1, res);
            &&& a1 == seq![ActionView::CancelPipeline]
            &&& a2.contains(tell(response_view(seq, "disconnect"@, true, None)))
            &&& a2.contains(tell(terminated_view()))
            &&& a2.last() == ActionView::Exit(0)
            &&& res is Ok ==> a2[0] == undo(res->Ok_0)
            &&& s2.session is None
        }),
{
    let (s1, a1) = client_step(s, raw, ClientKindView::Disconnect { seq });
    let (s2, a2) = pipeline_step(s1, res);
    let n = a2.len();
    assert(a2[n - 3] == tell(response_view(seq, "disconnect"@, true, None)));
    assert(a2[n - 2] == tell(terminated_view()));
}

/// The requests that follow a successful pipeline carry seqs of the private
/// namespace, each its own, and the response to the attach becomes the
/// response to the client's launch.
pub proof fn lemma_attach_answers_launch(s: ProxyView, done: DoneView, raw: Seq<u8>, v: JsonView)
    requires
        s.wf(),
        s.pipeline_running,
        s.pending_disconnect is None,
        internal_seq(v) == pipeline_step(s, Ok(done)).0.attach_seq,
    ensures
        ({
            let (s1, a1) = pipeline_step(s, Ok(done));
            let q = s1.attach_seq->0;
            &&& q >= SEQ_BASE
            &&& a1.last() == ask(attach_view(done.app.pid, q))
            &&& !s.mock_pipeline ==> a1[1] == ask(
                evaluate_view("platform select ios-simulator"@, (q - 1) as i64),
            )
            &&& child_step(s1, raw, v).1[0] == tell(rewritten(v, launch_seq_of(s)))
        }),
{
}

/// Stop semantics: unless a newer session took over or the process is gone, an
/// app that never ran under the debugger is terminated, and one that did is
/// terminated exactly when its configuration says so.
pub proof fn lemma_stop_semantics(s: ProxyView, superseded: bool)
    requires
        s.wf(),
        s.session is Some,
        !s.session->0.mock,
        s.session->0.config is Some,
    ensures
        ({
            let done = s.session->0;
            let a = teardown_actions(s, None, superseded);
            if superseded || s.exited {
                a.len() == 0
            } else {
                a == if !s.attached || done.config->0.terminate_on_stop {
                    seq![undo(done)]
                } else {
                    Seq::empty()
                }
            }
        }),
{
}

/// Once the debugger has reported the end of the session, a `disconnect` is
/// answered here and ends the proxy; the debugger is not asked. Only `exited` tells
/// that the process is gone, and neither report is ever taken back.
pub proof fn lemma_session_end(s: ProxyView, raw: Seq<u8>, v: JsonView, seq: i64)
    requires
        internal_seq(v) is None,
    ensures
        ({
            let s1 = child_step(s, raw, v).0;
            &&& terminal_kind(v) is Some ==> s1.ended
            &&& s1.exited == (s.exited || terminal_kind(v) == Some(true))
            &&& s.ended ==> s1.ended
            &&& s1.ended && !s1.pipeline_running ==> client_step(
                s1,
                raw,
                ClientKindView::Disconnect { seq },
            ) == (
                s1,
                seq![tell(response_view(seq, "disconnect"@, true, None)), ActionView::Exit(0)],
            )
        }),
{
}

/// Whether an action starts the tailers.
pub open spec fn starts_tailers(a: ActionView) -> bool {
    a is StartTailers
}

/// The tailers are started at most once: a step that starts them says so in the
/// state, and from then on none does.
pub proof fn lemma_tailers_once(s: ProxyView, raw: Seq<u8>, v: JsonView)
    ensures
        ({
            let (s1, a) = child_step(s, raw, v);
            &&& (exists|i: int| 0 <= i < a.len() && #[trigger] starts_tailers(a[i])) ==> !s.tailing
                && s1.tailing
            &&& s.tailing ==> s1.tailing
        }),
{
}

// ---------------------------------------------------------------------------
// the start of a session
// ---------------------------------------------------------------------------

/// What came first from the client.
pub enum FirstFrame<'a> {
    /// Nothing, within the seconds that were waited.
    Silence(u64),
    /// The end of the stream, within the seconds that were waited.
    Closed(u64),
    /// A frame.
    Frame(&'a [u8]),
}

/// How a session starts.
pub enum Startup {
    /// With a client of this name.
    Begin(String),
    /// Not at all; why.
    Refuse(String),
}

/// What is said where no `initialize` came.
pub open spec fn guard_text(secs: nat) -> Seq<char> {
    "xcode-dap: running in DAP mode but no `initialize` request arrived within "@ + decimal(secs)
        + "s. This binary speaks DAP on stdio when started without a subcommand (that is how Zed runs it). Did you mean a subcommand? Try `xcode-dap --help`."@
}

/// What is said where something other than `initialize` came.
pub open spec fn not_initialize_text() -> Seq<char> {
    "xcode-dap: first DAP message was not `initialize` \u{2014} protocol error. Try `xcode-dap --help` if you meant to run a subcommand."@
}

/// A session starts with an `initialize`; without one the program was started by
/// mistake. A first frame that is no JSON is an error.
pub fn start_session(first: FirstFrame) -> (r: Result<Startup, String>)
    ensures
        match first {
            FirstFrame::Silence(secs) | FirstFrame::Closed(secs) => r matches Ok(
                Startup::Refuse(m),
            ) && m@ == guard_text(secs as nat),
            FirstFrame::Frame(raw) => match serde_parse(raw@) {
                Ok(v) => if client_kind(v) == ClientKindView::Initialize {
                    r matches Ok(Startup::Begin(id)) && id@ == client_id_of(v)
                } else {
                    r matches Ok(Startup::Refuse(m)) && m@ == not_initialize_text()
                },
                Err(e) => r matches Err(t) && t@ == in_context(
                    "client frame is not valid JSON"@,
                    e,
                ),
            },
        },
{
    match first {
        FirstFrame::Silence(secs) | FirstFrame::Closed(secs) => {
            let mut m = owned(
                "xcode-dap: running in DAP mode but no `initialize` request arrived within ",
            );
            m.append(decimal_u64(secs).as_str());
            m.append(
                "s. This binary speaks DAP on stdio when started without a subcommand (that is how Zed runs it). Did you mean a subcommand? Try `xcode-dap --help`.",
            );
            Ok(Startup::Refuse(m))
        },
        FirstFrame::Frame(raw) => match accept_initialize(raw) {
            Err(e) => Err(e),
            Ok(Some(id)) => Ok(Startup::Begin(id)),
            Ok(None) => Ok(
                Startup::Refuse(
                    owned(
                        "xcode-dap: first DAP message was not `initialize` \u{2014} protocol error. Try `xcode-dap --help` if you meant to run a subcommand.",
                    ),
                ),
            ),
        },
    }
}

} // verus!
