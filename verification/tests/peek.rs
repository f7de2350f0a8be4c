use xcode_dap::dap::peek::attach_pid;
use xcode_dap::dap::peek::classify_child;
use xcode_dap::dap::peek::classify_client;
use xcode_dap::dap::peek::error_response;
use xcode_dap::dap::peek::evaluate_repl;
use xcode_dap::dap::peek::output_event;
use xcode_dap::dap::peek::rewrite_attach_response;
use xcode_dap::dap::peek::success_response;
use xcode_dap::dap::peek::summarize;
use xcode_dap::dap::peek::terminal_event;
use xcode_dap::dap::peek::terminated_event;
use xcode_dap::dap::peek::ChildMsg;
use xcode_dap::dap::peek::ClientMsg;
use xcode_dap::dap::peek::SEQ_BASE;
use xcode_dap::json::Json;

fn text<'a>(v: &'a Json, key: &str) -> &'a str {
    v.get(key).unwrap().as_str().unwrap()
}

fn number(v: &Json, key: &str) -> i64 {
    v.get(key).unwrap().as_i64().unwrap()
}

fn flag(v: &Json, key: &str) -> bool {
    v.get(key).unwrap().as_bool().unwrap()
}

#[test]
fn classifies_initialize() {
    let raw = br#"{"seq":1,"type":"request","command":"initialize","arguments":{"adapterID":"xcode"}}"#;
    match classify_client(raw).unwrap() {
        ClientMsg::Initialize { raw: r } => assert_eq!(r, raw, "raw must be byte-identical"),
        _ => panic!("expected Initialize"),
    }
}

#[test]
fn classifies_launch_with_seq_and_args() {
    let raw =
        br#"{"seq":3,"type":"request","command":"launch","arguments":{"scheme":"MyApp (staging)"}}"#;
    match classify_client(raw).unwrap() {
        ClientMsg::Launch { seq, args } => {
            assert_eq!(seq, 3);
            assert_eq!(text(&args, "scheme"), "MyApp (staging)");
        }
        _ => panic!("expected Launch"),
    }
}

#[test]
fn classifies_disconnect() {
    let raw = br#"{"seq":9,"type":"request","command":"disconnect","arguments":{}}"#;
    match classify_client(raw).unwrap() {
        ClientMsg::Disconnect { seq, raw: r } => {
            assert_eq!(seq, 9);
            assert_eq!(r, raw);
        }
        _ => panic!("expected Disconnect"),
    }
}

#[test]
fn other_request_and_non_request_are_other() {
    let bp = br#"{"seq":4,"type":"request","command":"setBreakpoints","arguments":{}}"#;
    assert!(matches!(classify_client(bp).unwrap(), ClientMsg::Other { .. }));
    // An event named "launch" must NOT classify as Launch.
    let ev = br#"{"seq":0,"type":"event","command":"launch","event":"output"}"#;
    assert!(matches!(classify_client(ev).unwrap(), ClientMsg::Other { .. }));
}

#[test]
fn invalid_json_is_error() {
    assert!(classify_client(b"not json").is_err());
    assert!(classify_child(b"not json").is_err());
}

#[test]
fn child_response_below_seq_base_passes_through() {
    // Boundary: 999_999 is still client traffic.
    let raw =
        br#"{"seq":2,"type":"response","request_seq":999999,"command":"next","success":true}"#;
    assert!(matches!(classify_child(raw).unwrap(), ChildMsg::Other { .. }));
}

#[test]
fn child_response_at_seq_base_is_internal() {
    let raw = br#"{"seq":2,"type":"response","request_seq":1000000,"command":"attach","success":true}"#;
    match classify_child(raw).unwrap() {
        ChildMsg::InternalResponse { request_seq, raw: r } => {
            assert_eq!(request_seq, SEQ_BASE);
            assert_eq!(r, raw);
        }
        _ => panic!("expected InternalResponse"),
    }
}

#[test]
fn child_event_with_big_seq_is_not_internal() {
    // Only *responses* with request_seq >= SEQ_BASE are internal.
    let raw = br#"{"seq":1000005,"type":"event","event":"output","body":{}}"#;
    assert!(matches!(classify_child(raw).unwrap(), ChildMsg::Other { .. }));
}

#[test]
fn builders_shape() {
    let out = output_event("stdout", "hello\n");
    assert_eq!(number(&out, "seq"), 0);
    assert_eq!(text(&out, "event"), "output");
    assert_eq!(text(out.get("body").unwrap(), "category"), "stdout");
    assert_eq!(text(out.get("body").unwrap(), "output"), "hello\n");

    let ev = evaluate_repl("platform select ios-simulator", SEQ_BASE);
    assert_eq!(text(&ev, "command"), "evaluate");
    assert_eq!(number(&ev, "seq"), SEQ_BASE);
    assert_eq!(text(ev.get("arguments").unwrap(), "context"), "repl");

    let at = attach_pid(4242, SEQ_BASE + 1);
    assert_eq!(text(&at, "command"), "attach");
    assert_eq!(number(at.get("arguments").unwrap(), "pid"), 4242);
    assert_eq!(number(&at, "seq"), SEQ_BASE + 1);

    let err = error_response(7, "launch", "build failed");
    assert_eq!(text(&err, "type"), "response");
    assert_eq!(number(&err, "request_seq"), 7);
    assert_eq!(text(&err, "command"), "launch");
    assert_eq!(flag(&err, "success"), false);
    assert_eq!(text(&err, "message"), "build failed");

    let ok = success_response(11, "disconnect");
    assert_eq!(text(&ok, "type"), "response");
    assert_eq!(number(&ok, "request_seq"), 11);
    assert_eq!(text(&ok, "command"), "disconnect");
    assert_eq!(flag(&ok, "success"), true);

    let term = terminated_event();
    assert_eq!(text(&term, "event"), "terminated");
}

#[test]
fn summarize_extracts_routing_fields_only() {
    assert_eq!(
        summarize(r#"{"seq":3,"type":"request","command":"launch","arguments":{"scheme":"S"}}"#),
        "request launch seq=3"
    );
    assert_eq!(
        summarize(
            r#"{"seq":9,"type":"response","request_seq":3,"command":"launch","success":true,"body":{"x":1}}"#
        ),
        "response launch seq=9 request_seq=3 success=true"
    );
    assert_eq!(
        summarize(r#"{"seq":0,"type":"event","event":"output","body":{}}"#),
        "event output seq=0"
    );
    assert_eq!(summarize("not json"), "unparseable frame (8 bytes)");
}

#[test]
fn terminal_event_distinguishes_exited_from_terminated() {
    // `exited` => process gone (Some(true)); `terminated` => session ended but
    // the process may be alive (Some(false)).
    assert_eq!(
        terminal_event(br#"{"seq":5,"type":"event","event":"exited","body":{"exitCode":0}}"#),
        Some(true)
    );
    assert_eq!(
        terminal_event(br#"{"seq":6,"type":"event","event":"terminated"}"#),
        Some(false)
    );
}

#[test]
fn terminal_event_rejects_other_frames() {
    assert_eq!(
        terminal_event(br#"{"seq":1,"type":"event","event":"stopped","body":{"reason":"signal"}}"#),
        None
    );
    assert_eq!(
        terminal_event(br#"{"seq":0,"type":"event","event":"output","body":{}}"#),
        None
    );
    // A *response* named terminate is not an event.
    assert_eq!(
        terminal_event(
            br#"{"seq":2,"type":"response","request_seq":1,"command":"terminate","success":true}"#
        ),
        None
    );
    // A request that merely mentions the word is not an event either.
    assert_eq!(
        terminal_event(br#"{"seq":3,"type":"request","command":"terminate"}"#),
        None
    );
    assert_eq!(terminal_event(b"not json"), None);
}

#[test]
fn rewrites_attach_response_onto_launch_seq() {
    let raw = br#"{"seq":42,"type":"response","request_seq":1000001,"command":"attach","success":true,"body":{"extra":"kept"}}"#;
    let (msg, success) = rewrite_attach_response(raw, 3).unwrap();
    assert!(success);
    assert_eq!(number(&msg, "request_seq"), 3);
    assert_eq!(text(&msg, "command"), "launch");
    // Everything else is untouched.
    assert_eq!(number(&msg, "seq"), 42);
    assert_eq!(text(&msg, "type"), "response");
    assert_eq!(flag(&msg, "success"), true);
    assert_eq!(text(msg.get("body").unwrap(), "extra"), "kept");
}

#[test]
fn rewrites_failed_attach_response() {
    let raw = br#"{"seq":42,"type":"response","request_seq":1000001,"command":"attach","success":false,"message":"attach failed"}"#;
    let (msg, success) = rewrite_attach_response(raw, 7).unwrap();
    assert!(!success);
    assert_eq!(number(&msg, "request_seq"), 7);
    assert_eq!(text(&msg, "command"), "launch");
    assert_eq!(text(&msg, "message"), "attach failed");
}
