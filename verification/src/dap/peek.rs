//! Minimal "look but don't re-encode" message inspection.
//!
//! Passthrough is byte-transparent: a frame is parsed only to inspect it, and
//! the original bytes are forwarded.

use crate::json::member;
use crate::json::members_view;
use crate::json::number_view;
use crate::json::object;
use crate::json::parse;
use crate::json::serde_parse;
use crate::json::set_member;
use crate::json::with_member;
use crate::json::Json;
use crate::json::JsonView;
use crate::number::decimal;
use crate::number::decimal_i64;
use crate::number::decimal_int;
use crate::number::decimal_u64;
use crate::setup::jsonc::parse_strict;
use crate::text::in_context;
use crate::text::owned;
use crate::text::str_eq;
use crate::text::with_context;
use vstd::prelude::*;
use vstd::utf8::encode_utf8;

verus! {

/// Proxy-generated requests use a private seq namespace starting here.
///
/// Client seqs stay below this; responses from the debugger with
/// `request_seq >= SEQ_BASE` answer proxy-internal requests.
pub const SEQ_BASE: i64 = 1_000_000;

// ---------------------------------------------------------------------------
// classification
// ---------------------------------------------------------------------------

/// What kind of message a client document is.
#[derive(Debug)]
pub enum ClientKind {
    Initialize,
    Launch { seq: i64, args: Json },
    Disconnect { seq: i64 },
    Other,
}

/// The mathematical value of a [`ClientKind`].
pub enum ClientKindView {
    Initialize,
    Launch { seq: i64, args: JsonView },
    Disconnect { seq: i64 },
    Other,
}

impl View for ClientKind {
    type V = ClientKindView;

    open spec fn view(&self) -> ClientKindView {
        match self {
            ClientKind::Initialize => ClientKindView::Initialize,
            ClientKind::Launch { seq, args } => ClientKindView::Launch { seq: *seq, args: args@ },
            ClientKind::Disconnect { seq } => ClientKindView::Disconnect { seq: *seq },
            ClientKind::Other => ClientKindView::Other,
        }
    }
}

/// The `seq` of a message, 0 where it has none.
pub open spec fn seq_of(v: JsonView) -> i64 {
    match v.i64_at("seq"@) {
        Some(n) => n,
        None => 0,
    }
}

/// The `arguments` of a request, `null` where it has none.
pub open spec fn arguments_of(v: JsonView) -> JsonView {
    match v.get("arguments"@) {
        Some(a) => a,
        None => JsonView::Null,
    }
}

/// What kind of message a client document is: only a request is looked at, by
/// its command.
pub open spec fn client_kind(v: JsonView) -> ClientKindView {
    if v.str_at("type"@) != Some("request"@) {
        ClientKindView::Other
    } else if v.str_at("command"@) == Some("initialize"@) {
        ClientKindView::Initialize
    } else if v.str_at("command"@) == Some("launch"@) {
        ClientKindView::Launch { seq: seq_of(v), args: arguments_of(v) }
    } else if v.str_at("command"@) == Some("disconnect"@) {
        ClientKindView::Disconnect { seq: seq_of(v) }
    } else {
        ClientKindView::Other
    }
}

/// The seq of the proxy-internal request that a debugger document answers.
pub open spec fn internal_seq(v: JsonView) -> Option<i64> {
    if v.str_at("type"@) == Some("response"@) {
        match v.i64_at("request_seq"@) {
            Some(n) => if n >= SEQ_BASE {
                Some(n)
            } else {
                None
            },
            None => None,
        }
    } else {
        None
    }
}

/// Whether the member `key` of `v` is the string `text`.
fn field_is(v: &Json, key: &str, text: &str) -> (r: bool)
    ensures
        r == (v@.str_at(key@) == Some(text@)),
{
    match v.str_at(key) {
        Some(s) => str_eq(s, text),
        None => false,
    }
}

/// The `seq` of a message, 0 where it has none.
fn seq_number(v: &Json) -> (r: i64)
    ensures
        r == seq_of(v@),
{
    match v.i64_at("seq") {
        Some(n) => n,
        None => 0,
    }
}

/// What kind of message a client document is.
pub fn client_kind_of(v: &Json) -> (r: ClientKind)
    ensures
        r@ == client_kind(v@),
{
    if !field_is(v, "type", "request") {
        return ClientKind::Other;
    }
    if field_is(v, "command", "initialize") {
        ClientKind::Initialize
    } else if field_is(v, "command", "launch") {
        let args = match v.get("arguments") {
            Some(a) => a.copy(),
            None => Json::Null,
        };
        ClientKind::Launch { seq: seq_number(v), args }
    } else if field_is(v, "command", "disconnect") {
        ClientKind::Disconnect { seq: seq_number(v) }
    } else {
        ClientKind::Other
    }
}

/// The seq of the proxy-internal request that a debugger document answers.
pub fn internal_seq_of(v: &Json) -> (r: Option<i64>)
    ensures
        r == internal_seq(v@),
{
    if field_is(v, "type", "response") {
        match v.i64_at("request_seq") {
            Some(n) => if n >= SEQ_BASE {
                Some(n)
            } else {
                None
            },
            None => None,
        }
    } else {
        None
    }
}

/// Classification of a message arriving from the client.
#[derive(Debug)]
pub enum ClientMsg<'a> {
    Initialize { raw: &'a [u8] },
    /// `launch` is intercepted: its `arguments` is our scenario config, and the
    /// raw frame is never forwarded.
    Launch { seq: i64, args: Json },
    /// `seq` is kept so that the proxy can answer the disconnect itself.
    Disconnect { seq: i64, raw: &'a [u8] },
    Other { raw: &'a [u8] },
}

/// Classification of a message arriving from the debugger.
#[derive(Debug)]
pub enum ChildMsg<'a> {
    /// Response to a proxy-internal request. The attach response is rewritten
    /// onto the client's launch seq; all others are dropped.
    InternalResponse { request_seq: i64, raw: &'a [u8] },
    Other { raw: &'a [u8] },
}

impl<'a> ClientMsg<'a> {
    /// Whether this is the frame `raw` of kind `k`, its bytes untouched.
    pub open spec fn is_frame(self, raw: Seq<u8>, k: ClientKindView) -> bool {
        match self {
            ClientMsg::Initialize { raw: r } => k == ClientKindView::Initialize && r@ == raw,
            ClientMsg::Launch { seq, args } => k == (ClientKindView::Launch { seq, args: args@ }),
            ClientMsg::Disconnect { seq, raw: r } => k == (ClientKindView::Disconnect { seq }) && r@
                == raw,
            ClientMsg::Other { raw: r } => k == ClientKindView::Other && r@ == raw,
        }
    }
}

/// Classify one raw client frame.
pub fn classify_client<'a>(raw: &'a [u8]) -> (r: Result<ClientMsg<'a>, String>)
    ensures
        match (r, serde_parse(raw@)) {
            (Ok(m), Ok(v)) => m.is_frame(raw@, client_kind(v)),
            (Err(t), Err(e)) => t@ == in_context("client frame is not valid JSON"@, e),
            _ => false,
        },
{
    match parse(raw) {
        Ok(v) => Ok(
            match client_kind_of(&v) {
                ClientKind::Initialize => ClientMsg::Initialize { raw },
                ClientKind::Launch { seq, args } => ClientMsg::Launch { seq, args },
                ClientKind::Disconnect { seq } => ClientMsg::Disconnect { seq, raw },
                ClientKind::Other => ClientMsg::Other { raw },
            },
        ),
        Err(e) => Err(with_context("client frame is not valid JSON", e.as_str())),
    }
}

/// Classify one raw debugger frame.
pub fn classify_child<'a>(raw: &'a [u8]) -> (r: Result<ChildMsg<'a>, String>)
    ensures
        match (r, serde_parse(raw@)) {
            (Ok(ChildMsg::InternalResponse { request_seq, raw: b }), Ok(v)) => internal_seq(v)
                == Some(request_seq) && b@ == raw@,
            (Ok(ChildMsg::Other { raw: b }), Ok(v)) => internal_seq(v) is None && b@ == raw@,
            (Err(t), Err(e)) => t@ == in_context("child frame is not valid JSON"@, e),
            _ => false,
        },
{
    match parse(raw) {
        Ok(v) => Ok(
            match internal_seq_of(&v) {
                Some(request_seq) => ChildMsg::InternalResponse { request_seq, raw },
                None => ChildMsg::Other { raw },
            },
        ),
        Err(e) => Err(with_context("child frame is not valid JSON", e.as_str())),
    }
}

// ---------------------------------------------------------------------------
// summaries
// ---------------------------------------------------------------------------

/// ` <name>=<number>` for a number that is there.
pub open spec fn numbered(name: Seq<char>, n: Option<i64>) -> Seq<char> {
    match n {
        Some(n) => seq![' '] + name + seq!['='] + decimal_int(n as int),
        None => Seq::empty(),
    }
}

/// Type, command or event, seq, request_seq and success of a message.
pub open spec fn summary(v: JsonView) -> Seq<char> {
    let kind = match v.str_at("type"@) {
        Some(t) => t,
        None => "?"@,
    };
    let name = match v.str_at("command"@) {
        Some(c) => Some(c),
        None => v.str_at("event"@),
    };
    let named = match name {
        Some(n) => seq![' '] + n,
        None => Seq::empty(),
    };
    let success = match v.get("success"@) {
        Some(s) => s.as_bool(),
        None => None,
    };
    kind + named + numbered("seq"@, v.i64_at("seq"@)) + numbered(
        "request_seq"@,
        v.i64_at("request_seq"@),
    ) + match success {
        Some(true) => " success=true"@,
        Some(false) => " success=false"@,
        None => Seq::empty(),
    }
}

/// Append ` <name>=<number>` for a number that is there.
fn append_number(s: &mut String, name: &str, n: Option<i64>)
    ensures
        final(s)@ == old(s)@ + numbered(name@, n),
{
    let ghost before = s@;
    if let Some(n) = n {
        s.push(' ');
        s.append(name);
        s.push('=');
        s.append(decimal_i64(n).as_str());
        assert(s@ =~= before + numbered(name@, Some(n)));
    } else {
        assert(s@ =~= before + numbered(name@, None));
    }
}

/// Type, command or event, seq, request_seq and success of a message.
pub fn summary_of(v: &Json) -> (r: String)
    ensures
        r@ == summary(v@),
{
    let mut s = match v.str_at("type") {
        Some(t) => owned(t),
        None => owned("?"),
    };
    let ghost kind = s@;
    let name = match v.str_at("command") {
        Some(c) => Some(c),
        None => v.str_at("event"),
    };
    if let Some(n) = name {
        s.push(' ');
        s.append(n);
        assert(s@ =~= kind + (seq![' '] + n@));
    } else {
        assert(s@ =~= kind + Seq::empty());
    }
    append_number(&mut s, "seq", v.i64_at("seq"));
    append_number(&mut s, "request_seq", v.i64_at("request_seq"));
    let ghost head = s@;
    let success = match v.get("success") {
        Some(b) => b.as_bool(),
        None => None,
    };
    match success {
        Some(b) => if b {
            s.append(" success=true");
        } else {
            s.append(" success=false");
        },
        None => {
            assert(s@ =~= head + Seq::empty());
        },
    }
    s
}

/// Compact one-line summary of a frame for debug logging. Never includes the
/// body.
pub fn summarize(raw: &str) -> (r: String)
    ensures
        r@ == match serde_parse(encode_utf8(raw@)) {
            Ok(v) => summary(v),
            Err(_) => "unparseable frame ("@ + decimal(encode_utf8(raw@).len()) + " bytes)"@,
        },
{
    match parse_strict(raw) {
        Ok(v) => summary_of(&v),
        Err(_) => {
            let bytes = raw.as_bytes();
            let mut s = owned("unparseable frame (");
            s.append(decimal_u64(bytes.len() as u64).as_str());
            s.append(" bytes)");
            s
        },
    }
}

// ---------------------------------------------------------------------------
// proxy-built messages
// ---------------------------------------------------------------------------

/// The `output` event for a text in a category.
pub open spec fn output_event_view(category: Seq<char>, text: Seq<char>) -> JsonView {
    JsonView::Object(
        seq![
            ("type"@, JsonView::Str("event"@)),
            ("seq"@, number_view(0)),
            ("event"@, JsonView::Str("output"@)),
            (
                "body"@,
                JsonView::Object(
                    seq![
                        ("category"@, JsonView::Str(category)),
                        ("output"@, JsonView::Str(text)),
                    ],
                ),
            ),
        ],
    )
}

/// `output` event with `seq: 0`.
pub fn output_event(category: &str, text: &str) -> (r: Json)
    ensures
        r@ == output_event_view(category@, text@),
{
    let body = object(
        vec![member("category", Json::string(category)), member("output", Json::string(text))],
    );
    let r = object(
        vec![
            member("type", Json::string("event")),
            member("seq", Json::number(0)),
            member("event", Json::string("output")),
            member("body", body),
        ],
    );
    proof {
        let inner = output_event_view(category@, text@)->Object_0[3].1;
        assert(body@->Object_0 =~= inner->Object_0);
        assert(r@->Object_0 =~= output_event_view(category@, text@)->Object_0);
    }
    r
}

/// A request with its arguments.
pub open spec fn request_view(command: Seq<char>, seq: i64, arguments: JsonView) -> JsonView {
    JsonView::Object(
        seq![
            ("type"@, JsonView::Str("request"@)),
            ("seq"@, number_view(seq)),
            ("command"@, JsonView::Str(command)),
            ("arguments"@, arguments),
        ],
    )
}

/// A request with its arguments.
fn request(command: &str, seq: i64, arguments: Json) -> (r: Json)
    ensures
        r@ == request_view(command@, seq, arguments@),
{
    let r = object(
        vec![
            member("type", Json::string("request")),
            member("seq", Json::number(seq)),
            member("command", Json::string(command)),
            member("arguments", arguments),
        ],
    );
    assert(r@->Object_0 =~= request_view(command@, seq, arguments@)->Object_0);
    r
}

/// The `evaluate` request for a debugger command.
pub open spec fn evaluate_view(expr: Seq<char>, seq: i64) -> JsonView {
    request_view(
        "evaluate"@,
        seq,
        JsonView::Object(
            seq![("expression"@, JsonView::Str(expr)), ("context"@, JsonView::Str("repl"@))],
        ),
    )
}

/// `evaluate` request with `context: "repl"`.
pub fn evaluate_repl(expr: &str, seq: i64) -> (r: Json)
    ensures
        r@ == evaluate_view(expr@, seq),
{
    let args = object(
        vec![member("expression", Json::string(expr)), member("context", Json::string("repl"))],
    );
    assert(args@->Object_0 =~= seq![
        ("expression"@, JsonView::Str(expr@)),
        ("context"@, JsonView::Str("repl"@)),
    ]);
    request("evaluate", seq, args)
}

/// The `attach` request for a process.
pub open spec fn attach_view(pid: i64, seq: i64) -> JsonView {
    request_view("attach"@, seq, JsonView::Object(seq![("pid"@, number_view(pid))]))
}

/// Simulator attach is a plain `{"pid": N}` attach request.
pub fn attach_pid(pid: i64, seq: i64) -> (r: Json)
    ensures
        r@ == attach_view(pid, seq),
{
    let args = object(vec![member("pid", Json::number(pid))]);
    assert(args@->Object_0 =~= seq![("pid"@, number_view(pid))]);
    request("attach", seq, args)
}

/// The members every response starts with.
pub open spec fn response_view(
    request_seq: i64,
    command: Seq<char>,
    success: bool,
    message: Option<Seq<char>>,
) -> JsonView {
    let head = seq![
        ("type"@, JsonView::Str("response"@)),
        ("seq"@, number_view(0)),
        ("request_seq"@, number_view(request_seq)),
        ("command"@, JsonView::Str(command)),
        ("success"@, JsonView::Bool(success)),
    ];
    JsonView::Object(
        match message {
            Some(m) => head.push(("message"@, JsonView::Str(m))),
            None => head,
        },
    )
}

/// Failure response for an intercepted request.
pub fn error_response(request_seq: i64, command: &str, msg: &str) -> (r: Json)
    ensures
        r@ == response_view(request_seq, command@, false, Some(msg@)),
{
    let r = object(
        vec![
            member("type", Json::string("response")),
            member("seq", Json::number(0)),
            member("request_seq", Json::number(request_seq)),
            member("command", Json::string(command)),
            member("success", Json::Bool(false)),
            member("message", Json::string(msg)),
        ],
    );
    assert(r@->Object_0 =~= response_view(request_seq, command@, false, Some(msg@))->Object_0);
    r
}

/// Bare success response for an intercepted request.
pub fn success_response(request_seq: i64, command: &str) -> (r: Json)
    ensures
        r@ == response_view(request_seq, command@, true, None),
{
    let r = object(
        vec![
            member("type", Json::string("response")),
            member("seq", Json::number(0)),
            member("request_seq", Json::number(request_seq)),
            member("command", Json::string(command)),
            member("success", Json::Bool(true)),
        ],
    );
    assert(r@->Object_0 =~= response_view(request_seq, command@, true, None)->Object_0);
    r
}

/// The `terminated` event.
pub open spec fn terminated_view() -> JsonView {
    JsonView::Object(
        seq![
            ("type"@, JsonView::Str("event"@)),
            ("seq"@, number_view(0)),
            ("event"@, JsonView::Str("terminated"@)),
        ],
    )
}

/// `terminated` event.
pub fn terminated_event() -> (r: Json)
    ensures
        r@ == terminated_view(),
{
    let r = object(
        vec![
            member("type", Json::string("event")),
            member("seq", Json::number(0)),
            member("event", Json::string("terminated")),
        ],
    );
    assert(r@->Object_0 =~= terminated_view()->Object_0);
    r
}

// ---------------------------------------------------------------------------
// debugger events and the attach response
// ---------------------------------------------------------------------------

/// Whether a document is an end-of-session event: `Some(true)` for `exited`,
/// `Some(false)` for `terminated`.
pub open spec fn terminal_kind(v: JsonView) -> Option<bool> {
    if v.str_at("type"@) != Some("event"@) {
        None
    } else if v.str_at("event"@) == Some("exited"@) {
        Some(true)
    } else if v.str_at("event"@) == Some("terminated"@) {
        Some(false)
    } else {
        None
    }
}

/// Whether a document is an end-of-session event.
pub fn terminal_kind_of(v: &Json) -> (r: Option<bool>)
    ensures
        r == terminal_kind(v@),
{
    if !field_is(v, "type", "event") {
        None
    } else if field_is(v, "event", "exited") {
        Some(true)
    } else if field_is(v, "event", "terminated") {
        Some(false)
    } else {
        None
    }
}

/// Classify an end-of-session event from the debugger:
/// - `Some(true)`: `exited`, the debuggee process has gone.
/// - `Some(false)`: `terminated`, the debug session ended, but the process may
///   still be alive.
/// - `None`: any other frame.
pub fn terminal_event(raw: &[u8]) -> (r: Option<bool>)
    ensures
        r == match serde_parse(raw@) {
            Ok(v) => terminal_kind(v),
            Err(_) => None,
        },
{
    match parse(raw) {
        Ok(v) => terminal_kind_of(&v),
        Err(_) => None,
    }
}

/// The launch response made of an attach response: `request_seq` and `command`
/// are set, everything else is kept.
pub open spec fn rewritten(v: JsonView, launch_seq: i64) -> JsonView {
    let ms = match v {
        JsonView::Object(ms) => ms,
        _ => Seq::empty(),
    };
    JsonView::Object(
        with_member(
            with_member(ms, "request_seq"@, number_view(launch_seq)),
            "command"@,
            JsonView::Str("launch"@),
        ),
    )
}

/// Whether a response reports success.
pub open spec fn succeeded(v: JsonView) -> bool {
    match v.get("success"@) {
        Some(s) => s.as_bool() == Some(true),
        None => false,
    }
}

/// Rewrite an attach response onto the client's launch seq. Only an object (or
/// `null`, which becomes one) has members to set.
pub fn rewrite_attach(v: Json, launch_seq: i64) -> (r: (Json, bool))
    requires
        v@ is Object || v@ is Null,
    ensures
        r.0@ == rewritten(v@, launch_seq),
        r.1 == succeeded(v@),
{
    let success = match v.get("success") {
        Some(s) => match s.as_bool() {
            Some(b) => b,
            None => false,
        },
        None => false,
    };
    let mut ms = match v {
        Json::Object(ms) => ms,
        _ => Vec::new(),
    };
    proof {
        match v@ {
            JsonView::Object(mv) => {
                assert(members_view(ms@) =~= mv);
            },
            _ => {
                assert(members_view(ms@) =~= Seq::empty());
            },
        }
    }
    set_member(&mut ms, "request_seq", Json::number(launch_seq));
    set_member(&mut ms, "command", Json::string("launch"));
    (object(ms), success)
}

/// Rewrite the debugger's attach response into the client's launch response,
/// and tell whether the attach succeeded. Every other field passes through
/// untouched.
pub fn rewrite_attach_response(raw: &[u8], launch_seq: i64) -> (r: Result<(Json, bool), String>)
    requires
        match serde_parse(raw@) {
            Ok(v) => v is Object || v is Null,
            Err(_) => true,
        },
    ensures
        match (r, serde_parse(raw@)) {
            (Ok((m, ok)), Ok(v)) => m@ == rewritten(v, launch_seq) && ok == succeeded(v),
            (Err(t), Err(e)) => t@ == in_context("attach response is not valid JSON"@, e),
            _ => false,
        },
{
    match parse(raw) {
        Ok(v) => Ok(rewrite_attach(v, launch_seq)),
        Err(e) => Err(with_context("attach response is not valid JSON", e.as_str())),
    }
}

} // verus!
