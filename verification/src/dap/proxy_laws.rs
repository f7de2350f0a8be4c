//! What a debug session does for its user, from the launch to the stop, in terms of
//! what the client, the debugger and the simulator get to see.

use crate::dap::peek::internal_seq;
use crate::dap::peek::succeeded;
use crate::dap::peek::ClientKindView;
use crate::dap::peek::SEQ_BASE;
use crate::dap::peek_laws::lemma_attach_reads;
use crate::dap::peek_laws::lemma_evaluate_reads;
use crate::dap::peek_laws::lemma_output_reads;
use crate::dap::peek_laws::lemma_response_reads;
use crate::dap::peek_laws::lemma_rewritten_reads;
use crate::dap::peek_laws::lemma_terminal_kinds;
use crate::dap::peek_laws::lemma_terminated_reads;
use crate::dap::proxy::child_step;
use crate::dap::proxy::client_step;
use crate::dap::proxy::config_step;
use crate::dap::proxy::dap_category_of;
use crate::dap::proxy::pipeline_step;
use crate::dap::proxy::tail_view;
use crate::dap::proxy::teardown_actions;
use crate::dap::proxy::ActionView;
use crate::dap::proxy::DoneView;
use crate::dap::proxy::OutView;
use crate::dap::proxy::ProxyView;
use crate::engine::config::ConfigView;
use crate::json::JsonView;
use crate::util::paths::stem_of;
use vstd::prelude::*;

verus! {

// ---------------------------------------------------------------------------
// what an action says
// ---------------------------------------------------------------------------

/// Whether an action sends the client a response to the request `seq`.
pub open spec fn answers_client(
    a: ActionView,
    seq: i64,
    command: Seq<char>,
    success: bool,
    message: Option<Seq<char>>,
) -> bool {
    a matches ActionView::ToClient(OutView::Msg(m)) && {
        &&& m.str_at("type"@) == Some("response"@)
        &&& m.i64_at("request_seq"@) == Some(seq)
        &&& m.str_at("command"@) == Some(command)
        &&& m.get("success"@) == Some(JsonView::Bool(success))
        &&& m.str_at("message"@) == message
    }
}

/// Whether an action shows the client a text in a category.
pub open spec fn shows_client(a: ActionView, category: Seq<char>, text: Seq<char>) -> bool {
    a matches ActionView::ToClient(OutView::Msg(m)) && {
        &&& m.str_at("type"@) == Some("event"@)
        &&& m.str_at("event"@) == Some("output"@)
        &&& m.get("body"@) matches Some(b) && b.str_at("category"@) == Some(category) && b.str_at(
            "output"@,
        ) == Some(text)
    }
}

/// Whether an action tells the client that the session is over.
pub open spec fn ends_client(a: ActionView) -> bool {
    a matches ActionView::ToClient(OutView::Msg(m)) && m.str_at("type"@) == Some("event"@)
        && m.str_at("event"@) == Some("terminated"@)
}

/// Whether an action asks the debugger to attach to a process.
pub open spec fn attaches_to(a: ActionView, pid: i64, seq: i64) -> bool {
    a matches ActionView::ToChild(OutView::Msg(m)) && {
        &&& m.str_at("type"@) == Some("request"@)
        &&& m.str_at("command"@) == Some("attach"@)
        &&& m.i64_at("seq"@) == Some(seq)
        &&& m.get("arguments"@) matches Some(x) && x.i64_at("pid"@) == Some(pid)
    }
}

/// Whether an action has the debugger run a command of its own.
pub open spec fn evaluates(a: ActionView, expr: Seq<char>, seq: i64) -> bool {
    a matches ActionView::ToChild(OutView::Msg(m)) && {
        &&& m.str_at("type"@) == Some("request"@)
        &&& m.str_at("command"@) == Some("evaluate"@)
        &&& m.i64_at("seq"@) == Some(seq)
        &&& m.get("arguments"@) matches Some(x) && x.str_at("expression"@) == Some(expr)
            && x.str_at("context"@) == Some("repl"@)
    }
}

// ---------------------------------------------------------------------------
// stop
// ---------------------------------------------------------------------------

/// Stop ends the app that was launched: the one of this session, on the simulator
/// that it was launched on and under its own bundle id. It is left alone where a
/// newer session took over, where its process is gone, and where it ran under the
/// debugger and its configuration keeps it.
pub proof fn lemma_stop_ends_the_app(s: ProxyView, superseded: bool)
    ensures
        ({
            let a = teardown_actions(s, None, superseded);
            match s.session {
                None => a.len() == 0,
                Some(done) => {
                    let ends = done.config matches Some(c) && c.terminate_on_stop;
                    &&& done.mock ==> a.len() == 1 && a[0] is KillMock
                    &&& !done.mock && !superseded && !s.exited && s.attached && ends ==> a == seq![
                        ActionView::TerminateApp {
                            udid: done.app.udid,
                            bundle_id: done.app.bundle_id,
                        },
                    ]
                    &&& !done.mock && !superseded && !s.exited && !s.attached ==> a == seq![
                        ActionView::TerminateApp {
                            udid: done.app.udid,
                            bundle_id: done.app.bundle_id,
                        },
                    ]
                    &&& !done.mock && (superseded || s.exited) ==> a.len() == 0
                    &&& !done.mock && s.attached && !ends ==> a.len() == 0
                },
            }
        }),
{
}

/// An app that a pipeline launched while the session was being torn down is ended
/// too: it is suspended, and nobody will attach to it.
pub proof fn lemma_late_app_ended(s: ProxyView, done: DoneView)
    requires
        s.wf(),
        s.pipeline_running,
        !s.exited,
        !done.mock,
    ensures
        teardown_actions(s, Some(done), false) == seq![
            ActionView::TerminateApp { udid: done.app.udid, bundle_id: done.app.bundle_id },
        ],
        teardown_actions(s, Some(done), true).len() == 0,
{
}

/// The mock app is killed however the session ends.
pub proof fn lemma_mock_killed(s: ProxyView, done: DoneView, superseded: bool)
    requires
        done.mock,
    ensures
        s.pipeline_running ==> teardown_actions(s, Some(done), superseded) == seq![
            ActionView::KillMock,
        ],
        s.session == Some(done) ==> teardown_actions(s, None, superseded) == seq![
            ActionView::KillMock,
        ],
{
}

/// A disconnect during the launch cancels it; once the launch has wound down, an app
/// that it still started is ended under its own names, the disconnect is answered with
/// success, the client is told that the session is over, and the proxy leaves with 0.
pub proof fn lemma_cancelled_launch(
    s: ProxyView,
    raw: Seq<u8>,
    seq: i64,
    res: Result<DoneView, Seq<char>>,
)
    requires
        s.pipeline_running,
    ensures
        ({
            let (s1, a1) = client_step(s, raw, ClientKindView::Disconnect { seq });
            let (s2, a2) = pipeline_step(s1, res);
            let n = a2.len();
            &&& a1 == seq![ActionView::CancelPipeline]
            &&& s1.pipeline_running
            &&& n == if res is Ok {
                4int
            } else {
                3
            }
            &&& res matches Ok(done) ==> a2[0] == if done.mock {
                ActionView::KillMock
            } else {
                ActionView::TerminateApp { udid: done.app.udid, bundle_id: done.app.bundle_id }
            }
            &&& answers_client(a2[n - 3], seq, "disconnect"@, true, None)
            &&& ends_client(a2[n - 2])
            &&& a2[n - 1] == ActionView::Exit(0)
            &&& !s2.pipeline_running
            &&& s2.pending_disconnect is None
            &&& s2.session == s.session
        }),
{
    lemma_response_reads(seq, "disconnect"@, true, None);
    lemma_terminated_reads();
}

// ---------------------------------------------------------------------------
// launch and attach
// ---------------------------------------------------------------------------

/// The course of a session, from the client's launch to the attached debugger: the
/// launch is kept from the debugger; its arguments are read as the configuration and
/// the pipeline runs with that; the debugger then selects the simulator platform and
/// attaches to the process that was launched; and its answer is the answer to the
/// launch. The simulator is claimed, and the app's own capture files are tailed.
pub proof fn lemma_session_course(
    s: ProxyView,
    raw: Seq<u8>,
    seq: i64,
    args: JsonView,
    config: ConfigView,
    done: DoneView,
    reply: Seq<u8>,
    ms: Seq<(Seq<char>, JsonView)>,
)
    requires
        s.wf(),
        !s.mock_pipeline,
        !s.pipeline_running,
        s.session is None,
        !s.tailing,
        s.pending_disconnect is None,
        internal_seq(JsonView::Object(ms)) == Some((SEQ_BASE + 1) as i64),
        succeeded(JsonView::Object(ms)),
    ensures
        ({
            let (s1, a1) = client_step(s, raw, ClientKindView::Launch { seq, args });
            let (s2, a2) = config_step(s1, Ok(config));
            let (s3, a3) = pipeline_step(s2, Ok(done));
            let (s4, a4) = child_step(s3, reply, JsonView::Object(ms));
            &&& a1 == seq![ActionView::ReadConfig(args)]
            &&& a2 == seq![ActionView::StartPipeline(config)]
            &&& s2.pipeline_running
            &&& a3.len() == 3
            &&& a3[0] == ActionView::ClaimPidfile(done.app.udid)
            &&& evaluates(a3[1], "platform select ios-simulator"@, 1_000_000)
            &&& attaches_to(a3[2], done.app.pid, 1_000_001)
            &&& s3.session == Some(done)
            &&& !s3.attached
            &&& a4.len() == 3
            &&& a4[0] matches ActionView::ToClient(OutView::Msg(m)) && m.i64_at("request_seq"@)
                == Some(seq) && m.str_at("command"@) == Some("launch"@) && m.get("success"@)
                == Some(JsonView::Bool(true)) && m.str_at("type"@) == Some("response"@)
            &&& shows_client(a4[1], "console"@, "Debugger attached\n"@)
            &&& a4[2] matches ActionView::StartTailers(t) && t.stdout_file == done.app.stdout_file
                && t.stderr_file == done.app.stderr_file
            &&& s4.attached
            &&& s4.session == Some(done)
        }),
{
    lemma_evaluate_reads("platform select ios-simulator"@, 1_000_000);
    lemma_attach_reads(done.app.pid, 1_000_001);
    lemma_output_reads("console"@, "Debugger attached\n"@);
    reveal_strlit("type");
    reveal_strlit("success");
    reveal_strlit("command");
    reveal_strlit("request_seq");
    assert("type"@.len() != "command"@.len());
    assert("type"@.len() != "request_seq"@.len());
    assert("success"@[0] != "command"@[0]);
    assert("success"@.len() != "request_seq"@.len());
    lemma_rewritten_reads(ms, seq, "type"@);
    lemma_rewritten_reads(ms, seq, "success"@);
}

/// In mock mode a launch starts the mock app without a configuration, and the debugger
/// attaches to it without selecting a platform.
pub proof fn lemma_mock_course(
    s: ProxyView,
    raw: Seq<u8>,
    seq: i64,
    args: JsonView,
    done: DoneView,
)
    requires
        s.wf(),
        s.mock_pipeline,
        !s.pipeline_running,
        s.session is None,
        s.pending_disconnect is None,
    ensures
        ({
            let (s1, a1) = client_step(s, raw, ClientKindView::Launch { seq, args });
            let (s2, a2) = pipeline_step(s1, Ok(done));
            &&& a1 == seq![ActionView::StartMock]
            &&& s1.pipeline_running
            &&& a2.len() == 2
            &&& a2[0] == ActionView::ClaimPidfile(done.app.udid)
            &&& attaches_to(a2[1], done.app.pid, 1_000_000)
            &&& s2.session == Some(done)
            &&& s2.attach_seq == Some(1_000_000i64)
            &&& s2.launch_seq == Some(seq)
        }),
{
    lemma_attach_reads(done.app.pid, 1_000_000);
}

/// A launch that fails, in the pipeline or for its configuration, is answered with the
/// error, which is shown as well; the client is told that the session is over, and the
/// proxy leaves with 1.
pub proof fn lemma_failed_launch(
    s: ProxyView,
    raw: Seq<u8>,
    seq: i64,
    args: JsonView,
    config: ConfigView,
    e: Seq<char>,
)
    requires
        s.wf(),
        !s.mock_pipeline,
        !s.pipeline_running,
        s.session is None,
        s.pending_disconnect is None,
    ensures
        ({
            let s1 = client_step(s, raw, ClientKindView::Launch { seq, args }).0;
            let (s2, a2) = config_step(s1, Err(e));
            let (s3, a3) = pipeline_step(config_step(s1, Ok(config)).0, Err(e));
            let invalid = "invalid launch configuration: "@ + e;
            &&& a2.len() == 4 && a3.len() == 4
            &&& answers_client(a2[0], seq, "launch"@, false, Some(invalid))
            &&& shows_client(a2[1], "stderr"@, invalid + "\n"@)
            &&& answers_client(a3[0], seq, "launch"@, false, Some(e))
            &&& shows_client(a3[1], "stderr"@, e + "\n"@)
            &&& ends_client(a2[2]) && ends_client(a3[2])
            &&& a2[3] == ActionView::Exit(1) && a3[3] == ActionView::Exit(1)
            &&& s2.session is None && s3.session is None
            &&& !s2.pipeline_running && !s3.pipeline_running
        }),
{
    let invalid = "invalid launch configuration: "@ + e;
    lemma_response_reads(seq, "launch"@, false, Some(invalid));
    lemma_response_reads(seq, "launch"@, false, Some(e));
    lemma_output_reads("stderr"@, invalid + "\n"@);
    lemma_output_reads("stderr"@, e + "\n"@);
    lemma_terminated_reads();
}

/// Where the debugger cannot attach, its refusal is the answer to the launch, the
/// client is shown that the attach failed, and the app still counts as suspended.
pub proof fn lemma_failed_attach(
    s: ProxyView,
    seq: i64,
    q: i64,
    raw: Seq<u8>,
    ms: Seq<(Seq<char>, JsonView)>,
)
    requires
        s.launch_seq == Some(seq),
        s.attach_seq == Some(q),
        internal_seq(JsonView::Object(ms)) == Some(q),
        !succeeded(JsonView::Object(ms)),
    ensures
        ({
            let (s1, a) = child_step(s, raw, JsonView::Object(ms));
            &&& s1 == s
            &&& a.len() == 2
            &&& a[0] matches ActionView::ToClient(OutView::Msg(m)) && m.i64_at("request_seq"@)
                == Some(seq) && m.str_at("command"@) == Some("launch"@) && m.get("success"@)
                == JsonView::Object(ms).get("success"@)
            &&& shows_client(a[1], "stderr"@, "Debugger attach failed\n"@)
        }),
{
    lemma_output_reads("stderr"@, "Debugger attach failed\n"@);
    reveal_strlit("success");
    reveal_strlit("command");
    reveal_strlit("request_seq");
    assert("success"@[0] != "command"@[0]);
    assert("success"@.len() != "request_seq"@.len());
    lemma_rewritten_reads(ms, seq, "success"@);
}

/// A second launch in one session is refused under its own seq, and the running one
/// goes on untouched.
pub proof fn lemma_one_launch(s: ProxyView, raw: Seq<u8>, seq: i64, args: JsonView)
    requires
        s.pipeline_running || s.session is Some,
    ensures
        ({
            let (s1, a) = client_step(s, raw, ClientKindView::Launch { seq, args });
            &&& s1 == s
            &&& a.len() == 1
            &&& answers_client(
                a[0],
                seq,
                "launch"@,
                false,
                Some("a launch is already in progress in this session"@),
            )
        }),
{
    lemma_response_reads(
        seq,
        "launch"@,
        false,
        Some("a launch is already in progress in this session"@),
    );
}

/// Once the debugger has said that the session is over, a disconnect is answered with
/// success and the proxy leaves with 0; before that the debugger gets it as it came.
pub proof fn lemma_disconnect_answered(s: ProxyView, raw: Seq<u8>, seq: i64)
    requires
        !s.pipeline_running,
    ensures
        ({
            let (s1, a) = client_step(s, raw, ClientKindView::Disconnect { seq });
            &&& s1 == s
            &&& s.ended ==> a.len() == 2 && answers_client(a[0], seq, "disconnect"@, true, None)
                && a[1] == ActionView::Exit(0)
            &&& !s.ended ==> a == seq![ActionView::ToChild(OutView::Raw(raw))]
        }),
{
    lemma_response_reads(seq, "disconnect"@, true, None);
}

/// What the debugger says reaches the client as it came, and is remembered: an
/// `exited` process is gone, and a `terminated` session is over while its process may
/// live on.
pub proof fn lemma_end_noticed(s: ProxyView, raw: Seq<u8>, v: JsonView)
    requires
        v.str_at("type"@) == Some("event"@),
    ensures
        ({
            let (s1, a) = child_step(s, raw, v);
            let event = v.str_at("event"@);
            &&& a == seq![ActionView::ToClient(OutView::Raw(raw))]
            &&& s1.exited == (s.exited || event == Some("exited"@))
            &&& s1.ended == (s.ended || event == Some("exited"@) || event == Some("terminated"@))
            &&& s1.session == s.session
            &&& s1.attached == s.attached
            &&& s1.launch_seq == s.launch_seq
            &&& s1.attach_seq == s.attach_seq
        }),
{
    reveal_strlit("event");
    reveal_strlit("response");
    assert("event"@.len() != "response"@.len());
    lemma_terminal_kinds(v);
}

// ---------------------------------------------------------------------------
// consoles
// ---------------------------------------------------------------------------

/// The console shows the app's own output, and the system log of its simulator only
/// where the configuration asks for it: by the predicate that the configuration gives,
/// else by one that names the app's bundle id and its bundle.
pub proof fn lemma_tail_plan(done: DoneView)
    ensures
        ({
            let t = tail_view(done);
            let name = stem_of(done.app.app_path);
            let wanted = done.config matches Some(c) && c.oslog && name is Some && name->0.len()
                > 0;
            &&& t.stdout_file == done.app.stdout_file
            &&& t.stderr_file == done.app.stderr_file
            &&& t.oslog is Some <==> wanted
            &&& t.oslog matches Some((udid, predicate)) ==> {
                &&& udid == done.app.udid
                &&& done.config->0.oslog_predicate matches Some(p) ==> predicate == p
                &&& done.config->0.oslog_predicate is None ==> predicate == "subsystem == \""@
                    + done.app.bundle_id + "\" OR senderImagePath CONTAINS \"/"@ + name->0
                    + ".app/\""@
            }
        }),
{
}

/// What the pipeline says of a build, of its preflight and of the system log is
/// console output; the app's own streams keep their names.
pub proof fn lemma_categories(category: Seq<char>)
    ensures
        dap_category_of("build"@) == "console"@,
        dap_category_of("oslog"@) == "console"@,
        dap_category_of("preflight"@) == "console"@,
        dap_category_of("stdout"@) == "stdout"@,
        dap_category_of("stderr"@) == "stderr"@,
        dap_category_of("console"@) == "console"@,
        dap_category_of(category) == category || dap_category_of(category) == "console"@,
{
    reveal_strlit("build");
    reveal_strlit("oslog");
    reveal_strlit("preflight");
    reveal_strlit("stdout");
    reveal_strlit("stderr");
    reveal_strlit("console");
    assert("stdout"@.len() == 6 && "stderr"@.len() == 6 && "build"@.len() == 5);
    assert("oslog"@.len() == 5 && "preflight"@.len() == 9);
}

/// The output of the app is followed from the first time the debugger is attached, once and
/// never again; a failed attach changes nothing.
pub proof fn lemma_tailers_started_once(s: ProxyView, raw: Seq<u8>, v: JsonView, q: i64)
    requires
        internal_seq(v) == Some(q),
        s.attach_seq == Some(q),
    ensures
        ({
            let (after, acts) = child_step(s, raw, v);
            let starts = succeeded(v) && !s.tailing && s.session is Some;
            &&& starts ==> acts.len() == 3 && acts[2] is StartTailers
            &&& !starts ==> acts.len() == 2 && !(acts[0] is StartTailers) && !(acts[1] is StartTailers)
            &&& succeeded(v) ==> after.attached && (after.tailing <==> s.tailing || s.session is Some)
            &&& succeeded(v) && s.session is Some ==> after.tailing
            &&& !succeeded(v) ==> after == s
            &&& after.session == s.session && after.ended == s.ended && after.exited == s.exited
        }),
{
}

} // verus!
