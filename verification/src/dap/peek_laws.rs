//! What the messages that the proxy writes say to the one who reads them, member by
//! member, and what the proxy reads in the messages that come to it.

use crate::dap::peek::attach_view;
use crate::dap::peek::client_kind;
use crate::dap::peek::evaluate_view;
use crate::dap::peek::internal_seq;
use crate::dap::peek::output_event_view;
use crate::dap::peek::response_view;
use crate::dap::peek::rewritten;
use crate::dap::peek::succeeded;
use crate::dap::peek::terminal_kind;
use crate::dap::peek::terminated_view;
use crate::dap::peek::ClientKindView;
use crate::json::lemma_member_absent;
use crate::json::lemma_member_at;
use crate::json::lemma_with_member;
use crate::json::number_view;
use crate::json::with_member;
use crate::json::JsonView;
use vstd::prelude::*;

verus! {

/// A response answers the request `request_seq` by its command: it says whether it
/// succeeded, and carries a message exactly where one was given.
pub proof fn lemma_response_reads(
    request_seq: i64,
    command: Seq<char>,
    success: bool,
    message: Option<Seq<char>>,
)
    ensures
        ({
            let m = response_view(request_seq, command, success, message);
            &&& m.str_at("type"@) == Some("response"@)
            &&& m.i64_at("request_seq"@) == Some(request_seq)
            &&& m.i64_at("seq"@) == Some(0i64)
            &&& m.str_at("command"@) == Some(command)
            &&& m.get("success"@) == Some(JsonView::Bool(success))
            &&& m.str_at("message"@) == message
        }),
{
    reveal_strlit("type");
    reveal_strlit("seq");
    reveal_strlit("request_seq");
    reveal_strlit("command");
    reveal_strlit("success");
    reveal_strlit("message");
    assert("type"@.len() != "seq"@.len());
    assert("type"@.len() != "request_seq"@.len());
    assert("type"@.len() != "command"@.len());
    assert("type"@.len() != "success"@.len());
    assert("type"@.len() != "message"@.len());
    assert("seq"@.len() != "request_seq"@.len());
    assert("seq"@.len() != "command"@.len());
    assert("seq"@.len() != "success"@.len());
    assert("seq"@.len() != "message"@.len());
    assert("request_seq"@.len() != "command"@.len());
    assert("request_seq"@.len() != "success"@.len());
    assert("request_seq"@.len() != "message"@.len());
    assert("command"@[0] != "success"@[0]);
    assert("command"@[0] != "message"@[0]);
    assert("success"@[0] != "message"@[0]);
    let ms = response_view(request_seq, command, success, message)->Object_0;
    lemma_member_at(ms, 0, "type"@);
    lemma_member_at(ms, 1, "seq"@);
    lemma_member_at(ms, 2, "request_seq"@);
    lemma_member_at(ms, 3, "command"@);
    lemma_member_at(ms, 4, "success"@);
    if message is Some {
        lemma_member_at(ms, 5, "message"@);
    } else {
        lemma_member_absent(ms, "message"@);
    }
}

/// An `output` event shows a text in a category.
pub proof fn lemma_output_reads(category: Seq<char>, text: Seq<char>)
    ensures
        ({
            let m = output_event_view(category, text);
            &&& m.str_at("type"@) == Some("event"@)
            &&& m.str_at("event"@) == Some("output"@)
            &&& m.i64_at("seq"@) == Some(0i64)
            &&& m.get("body"@) matches Some(b) && b.str_at("category"@) == Some(category)
                && b.str_at("output"@) == Some(text)
        }),
{
    reveal_strlit("type");
    reveal_strlit("seq");
    reveal_strlit("event");
    reveal_strlit("body");
    reveal_strlit("category");
    reveal_strlit("output");
    assert("type"@.len() != "seq"@.len());
    assert("type"@.len() != "event"@.len());
    assert("type"@[0] != "body"@[0]);
    assert("seq"@.len() != "event"@.len());
    assert("seq"@.len() != "body"@.len());
    assert("event"@.len() != "body"@.len());
    assert("category"@.len() != "output"@.len());
    let ms = output_event_view(category, text)->Object_0;
    lemma_member_at(ms, 0, "type"@);
    lemma_member_at(ms, 1, "seq"@);
    lemma_member_at(ms, 2, "event"@);
    lemma_member_at(ms, 3, "body"@);
    let body = ms[3].1->Object_0;
    lemma_member_at(body, 0, "category"@);
    lemma_member_at(body, 1, "output"@);
}

/// The `terminated` event tells the client that the session is over.
pub proof fn lemma_terminated_reads()
    ensures
        terminated_view().str_at("type"@) == Some("event"@),
        terminated_view().str_at("event"@) == Some("terminated"@),
        terminated_view().i64_at("seq"@) == Some(0i64),
        terminal_kind(terminated_view()) == Some(false),
{
    reveal_strlit("type");
    reveal_strlit("seq");
    reveal_strlit("event");
    assert("type"@.len() != "seq"@.len());
    assert("type"@.len() != "event"@.len());
    assert("seq"@.len() != "event"@.len());
    reveal_strlit("exited");
    reveal_strlit("terminated");
    assert("exited"@.len() != "terminated"@.len());
    let ms = terminated_view()->Object_0;
    lemma_member_at(ms, 0, "type"@);
    lemma_member_at(ms, 1, "seq"@);
    lemma_member_at(ms, 2, "event"@);
}

/// An `evaluate` request hands a command to the debugger's command line.
pub proof fn lemma_evaluate_reads(expr: Seq<char>, seq: i64)
    ensures
        ({
            let m = evaluate_view(expr, seq);
            &&& m.str_at("type"@) == Some("request"@)
            &&& m.str_at("command"@) == Some("evaluate"@)
            &&& m.i64_at("seq"@) == Some(seq)
            &&& m.get("arguments"@) matches Some(a) && a.str_at("expression"@) == Some(expr)
                && a.str_at("context"@) == Some("repl"@)
        }),
{
    reveal_strlit("type");
    reveal_strlit("seq");
    reveal_strlit("command");
    reveal_strlit("arguments");
    reveal_strlit("expression");
    reveal_strlit("context");
    assert("type"@.len() != "seq"@.len());
    assert("type"@.len() != "command"@.len());
    assert("type"@.len() != "arguments"@.len());
    assert("seq"@.len() != "command"@.len());
    assert("seq"@.len() != "arguments"@.len());
    assert("command"@.len() != "arguments"@.len());
    assert("expression"@.len() != "context"@.len());
    let ms = evaluate_view(expr, seq)->Object_0;
    lemma_member_at(ms, 0, "type"@);
    lemma_member_at(ms, 1, "seq"@);
    lemma_member_at(ms, 2, "command"@);
    lemma_member_at(ms, 3, "arguments"@);
    let args = ms[3].1->Object_0;
    lemma_member_at(args, 0, "expression"@);
    lemma_member_at(args, 1, "context"@);
}

/// An `attach` request names the process to attach to.
pub proof fn lemma_attach_reads(pid: i64, seq: i64)
    ensures
        ({
            let m = attach_view(pid, seq);
            &&& m.str_at("type"@) == Some("request"@)
            &&& m.str_at("command"@) == Some("attach"@)
            &&& m.i64_at("seq"@) == Some(seq)
            &&& m.get("arguments"@) matches Some(a) && a.i64_at("pid"@) == Some(pid)
        }),
{
    reveal_strlit("type");
    reveal_strlit("seq");
    reveal_strlit("command");
    reveal_strlit("arguments");
    assert("type"@.len() != "seq"@.len());
    assert("type"@.len() != "command"@.len());
    assert("type"@.len() != "arguments"@.len());
    assert("seq"@.len() != "command"@.len());
    assert("seq"@.len() != "arguments"@.len());
    assert("command"@.len() != "arguments"@.len());
    let ms = attach_view(pid, seq)->Object_0;
    lemma_member_at(ms, 0, "type"@);
    lemma_member_at(ms, 1, "seq"@);
    lemma_member_at(ms, 2, "command"@);
    lemma_member_at(ms, 3, "arguments"@);
    lemma_member_at(ms[3].1->Object_0, 0, "pid"@);
}

/// The launch response made of an attach response answers the launch, and says all
/// else that the attach response says.
pub proof fn lemma_rewritten_reads(
    ms: Seq<(Seq<char>, JsonView)>,
    launch_seq: i64,
    key: Seq<char>,
)
    ensures
        ({
            let v = JsonView::Object(ms);
            let m = rewritten(v, launch_seq);
            &&& m.i64_at("request_seq"@) == Some(launch_seq)
            &&& m.str_at("command"@) == Some("launch"@)
            &&& key != "request_seq"@ && key != "command"@ ==> m.get(key) == v.get(key)
        }),
{
    reveal_strlit("request_seq");
    reveal_strlit("command");
    assert("request_seq"@.len() != "command"@.len());
    let one = with_member(ms, "request_seq"@, number_view(launch_seq));
    lemma_with_member(one, "command"@, JsonView::Str("launch"@), "request_seq"@);
    lemma_with_member(one, "command"@, JsonView::Str("launch"@), "command"@);
    lemma_with_member(one, "command"@, JsonView::Str("launch"@), key);
    lemma_with_member(ms, "request_seq"@, number_view(launch_seq), "request_seq"@);
    lemma_with_member(ms, "request_seq"@, number_view(launch_seq), key);
}

/// A client message is taken as a launch, a disconnect or an initialization exactly
/// where it is a request of that name, with the seq and the arguments that it
/// carries; anything else is passed on.
pub proof fn lemma_client_kinds(v: JsonView)
    ensures
        ({
            let request = v.str_at("type"@) == Some("request"@);
            let command = v.str_at("command"@);
            let k = client_kind(v);
            &&& k is Launch <==> request && command == Some("launch"@)
            &&& k is Disconnect <==> request && command == Some("disconnect"@)
            &&& k is Initialize <==> request && command == Some("initialize"@)
            &&& k matches ClientKindView::Launch { seq, args } ==> {
                &&& v.i64_at("seq"@) matches Some(n) ==> seq == n
                &&& v.get("arguments"@) matches Some(a) ==> args == a
                &&& v.i64_at("seq"@) is None ==> seq == 0
                &&& v.get("arguments"@) is None ==> args is Null
            }
            &&& k matches ClientKindView::Disconnect { seq } ==> {
                &&& v.i64_at("seq"@) matches Some(n) ==> seq == n
                &&& v.i64_at("seq"@) is None ==> seq == 0
            }
        }),
{
    reveal_strlit("launch");
    reveal_strlit("disconnect");
    reveal_strlit("initialize");
    assert("launch"@.len() != "disconnect"@.len());
    assert("initialize"@[0] != "disconnect"@[0]);
}

/// A debugger message belongs to the proxy exactly where it answers a request whose
/// seq lies in the proxy's own range, from a million on.
pub proof fn lemma_internal_seqs(v: JsonView, q: i64)
    ensures
        internal_seq(v) == Some(q) <==> v.str_at("type"@) == Some("response"@) && v.i64_at(
            "request_seq"@,
        ) == Some(q) && q >= 1_000_000,
{
}

/// The proxy's own requests and the client's are told apart by their seqs: what
/// answers a client request is never kept back.
pub proof fn lemma_client_answers_pass(v: JsonView)
    requires
        v.i64_at("request_seq"@) matches Some(n) && n < 1_000_000,
    ensures
        internal_seq(v) is None,
{
}

/// The session has ended where the debugger says `terminated` or `exited`, and the
/// process is gone only where it says `exited`.
pub proof fn lemma_terminal_kinds(v: JsonView)
    ensures
        terminal_kind(v) == Some(true) <==> v.str_at("type"@) == Some("event"@) && v.str_at(
            "event"@,
        ) == Some("exited"@),
        terminal_kind(v) == Some(false) <==> v.str_at("type"@) == Some("event"@) && v.str_at(
            "event"@,
        ) == Some("terminated"@),
{
    reveal_strlit("exited");
    reveal_strlit("terminated");
    assert("exited"@.len() != "terminated"@.len());
}

/// An attach has succeeded exactly where its response says so.
pub proof fn lemma_success_reads(v: JsonView)
    ensures
        succeeded(v) <==> v.get("success"@) == Some(JsonView::Bool(true)),
{
}

} // verus!
