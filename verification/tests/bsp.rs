//! The build server: addresses, messages, the session and its polling.

use xcode_dap::bsp::ingest::logs_after_watermark;
use xcode_dap::bsp::ingest::project_root;
use xcode_dap::bsp::ingest::Bootstrap;
use xcode_dap::bsp::ingest::Session;
use xcode_dap::bsp::server::build_target_sources;
use xcode_dap::bsp::server::build_targets;
use xcode_dap::bsp::server::did_change;
use xcode_dap::bsp::server::error_message;
use xcode_dap::bsp::server::handle_message;
use xcode_dap::bsp::server::index_database_path;
use xcode_dap::bsp::server::index_store_path;
use xcode_dap::bsp::server::initialize_result;
use xcode_dap::bsp::server::read_build_server;
use xcode_dap::bsp::server::result_message;
use xcode_dap::bsp::server::source_kit_options;
use xcode_dap::bsp::server::Action;
use xcode_dap::bsp::server::BsConfig;
use xcode_dap::bsp::server::METHOD_NOT_FOUND;
use xcode_dap::bsp::uri::hex_val;
use xcode_dap::bsp::uri::path_to_file_uri;
use xcode_dap::bsp::uri::percent_decode;
use xcode_dap::bsp::uri::uri_to_path;
use xcode_dap::dap::framing::frame_value;
use xcode_dap::engine::compile_store::CompileStore;
use xcode_dap::engine::compile_store::Watermark;
use xcode_dap::engine::disk::Disk;
use xcode_dap::engine::xcactivitylog::ParsedModule;
use xcode_dap::json::Json;

fn logs(names: &[&str]) -> Vec<String> {
    names.iter().map(|n| format!("/logs/{n}")).collect()
}

fn text(v: &Json) -> String {
    let frame = String::from_utf8(frame_value(v)).unwrap();
    frame.split("\r\n\r\n").nth(1).unwrap().to_string()
}

#[test]
fn logs_after_watermark_returns_only_newer_logs() {
    let all = logs(&["1.xcactivitylog", "2.xcactivitylog", "3.xcactivitylog"]);

    // Watermark mid-history: only strictly-newer logs are pending.
    assert_eq!(logs_after_watermark(&all, Some("2.xcactivitylog")), &all[2..]);
    // Newest already ingested -> nothing pending.
    assert!(logs_after_watermark(&all, Some("3.xcactivitylog")).is_empty());
    // Never ingested -> replay every log.
    assert_eq!(logs_after_watermark(&all, None), &all[..]);
    // Watermark no longer in the manifest -> newest only (self-heal).
    assert_eq!(logs_after_watermark(&all, Some("gone.xcactivitylog")), &all[2..]);
    // Empty manifest -> nothing, no panic.
    assert!(logs_after_watermark(&vec![], Some("2.xcactivitylog")).is_empty());
    assert!(logs_after_watermark(&vec![], None).is_empty());
}

#[test]
fn uri_to_path_percent_decodes_and_handles_host() {
    assert_eq!(uri_to_path("file:///Users/x/App"), "/Users/x/App");
    // spaces + Cyrillic (U+0420 'Р' = D0 A0)
    assert_eq!(uri_to_path("file:///Users/x/My%20%D0%A0/A.swift"), "/Users/x/My Р/A.swift");
    // a host authority is dropped
    assert_eq!(uri_to_path("file://localhost/Users/x"), "/Users/x");
    // truncated / stray percent passes through
    assert_eq!(uri_to_path("file:///a%2"), "/a%2");
}

#[test]
fn path_to_file_uri_encodes_reserved_bytes() {
    assert_eq!(path_to_file_uri("/Users/x/App"), "file:///Users/x/App");
    assert_eq!(path_to_file_uri("/Users/x/My App"), "file:///Users/x/My%20App");
}

#[test]
fn addresses_round_trip() {
    for path in ["/a b/Р.swift", "/100%", "/é/ü(1).swift", "/"] {
        assert_eq!(uri_to_path(&path_to_file_uri(path)), path);
    }
    assert_eq!(hex_val(b'f'), Some(15));
    assert_eq!(hex_val(b'F'), Some(15));
    assert_eq!(hex_val(b'g'), None);
    // What is no text after decoding is replaced.
    assert_eq!(percent_decode("a%FFb"), "a\u{FFFD}b");
}

#[test]
fn messages_are_routed_by_method() {
    let init = handle_message(br#"{"id": 1, "method": "build/initialize", "params": {"rootUri": "file:///p"}}"#);
    match init {
        Action::Initialize { id, root_uri } => {
            assert_eq!(text(&id), "1");
            assert_eq!(root_uri.as_deref(), Some("file:///p"));
        }
        _ => panic!("not an initialize"),
    }
    assert!(matches!(handle_message(b"nonsense"), Action::Invalid(_)));
    assert!(matches!(handle_message(br#"{"method": "build/initialized"}"#), Action::StartIngest));
    assert!(matches!(handle_message(br#"{"method": "build/exit"}"#), Action::Exit));
    assert!(matches!(
        handle_message(br#"{"id": 2, "method": "buildTarget/sources"}"#),
        Action::Sources { .. }
    ));
    match handle_message(
        br#"{"id": 3, "method": "textDocument/sourceKitOptions", "params": {"textDocument": {"uri": "file:///a.swift"}}}"#,
    ) {
        Action::Options { uri, .. } => assert_eq!(uri.as_deref(), Some("file:///a.swift")),
        _ => panic!("not an options request"),
    }
    match handle_message(br#"{"id": 4, "method": "build/shutdown"}"#) {
        Action::Reply(v) => assert_eq!(text(&v), r#"{"id":4,"jsonrpc":"2.0","result":null}"#),
        _ => panic!("no reply"),
    }
    // A request nothing knows is answered with an error; such a note is not.
    match handle_message(br#"{"id": "x", "method": "what/ever"}"#) {
        Action::Reply(v) => {
            let e = v.get("error").unwrap();
            assert_eq!(text(e.get("code").unwrap()), "-32601");
            assert_eq!(v.str_at("id"), Some("x"));
        }
        _ => panic!("no reply"),
    }
    assert!(matches!(handle_message(br#"{"method": "what/ever"}"#), Action::Ignore));
}

#[test]
fn replies_have_their_shape() {
    assert_eq!(
        text(&result_message(Json::Null, Json::Null)),
        r#"{"id":null,"jsonrpc":"2.0","result":null}"#
    );
    assert_eq!(
        text(&error_message(Json::Null, METHOD_NOT_FOUND, "m")),
        r#"{"error":{"code":-32601,"message":"m"},"id":null,"jsonrpc":"2.0"}"#
    );
    assert_eq!(did_change().str_at("method"), Some("buildTarget/didChange"));
    assert!(build_targets().get("targets").is_some());
    assert!(text(&build_target_sources(None, "/My App")).contains("file:///My%20App"));
    assert!(text(&build_target_sources(Some("file:///given"), "/My App")).contains("file:///given"));
    let options = source_kit_options(Some((vec!["-O".to_string()], "/wd".to_string())));
    assert_eq!(options.str_at("workingDirectory"), Some("/wd"));
    assert_eq!(text(options.get("compilerArguments").unwrap()), r#"["-O"]"#);
    assert_eq!(text(&source_kit_options(None)), "null");
}

#[test]
fn index_locations() {
    assert_eq!(index_store_path(Some("/dd")), "/dd/Index.noindex/DataStore");
    assert_eq!(index_store_path(None), "");
    let db = index_database_path(Some("/h"), "/dd/Index.noindex/DataStore");
    assert!(db.starts_with("/h/"));
    assert_ne!(db, index_database_path(Some("/h"), "/other"));
    let r = initialize_result("0.1.0", Some("file:///p"), "/store", "/db");
    assert_eq!(r.str_at("version"), Some("0.1.0"));
    assert_eq!(r.get("data").unwrap().str_at("indexStorePath"), Some("/store"));
}

#[test]
fn the_file_gives_root_scheme_and_workspace() {
    let cfg = read_build_server(Some(br#"{"build_root": "/dd", "scheme": "S", "workspace": "/w"}"#));
    assert_eq!(cfg.build_root.as_deref(), Some("/dd"));
    assert_eq!(cfg.scheme.as_deref(), Some("S"));
    assert_eq!(cfg.workspace.as_deref(), Some("/w"));
    assert_eq!(read_build_server(None).build_root, None);
    assert_eq!(read_build_server(Some(b"{")).scheme, None);
}

#[test]
fn roots() {
    assert_eq!(project_root(Some("file:///a%20b"), "/cwd"), "/a b");
    assert_eq!(project_root(None, "/cwd"), "/cwd");
}

fn config(root: &str, scheme: &str) -> BsConfig {
    BsConfig {
        build_root: Some(root.to_string()),
        scheme: Some(scheme.to_string()),
        workspace: Some("/p/App.xcworkspace".to_string()),
    }
}

fn parsed(name: &str, file: &str) -> ParsedModule {
    ParsedModule {
        module_name: name.to_string(),
        working_dir: "/wd".to_string(),
        index_store_path: None,
        files: vec![file.to_string()],
        file_lists: vec![],
        args: vec!["-module-name".to_string(), name.to_string(), file.to_string()],
    }
}

#[test]
fn a_session_ingests_once_per_log() {
    let disk = Disk::new();
    let mut s = Session::new("/p");
    assert_eq!(s.build_server_path, "/p/buildServer.json");
    assert!(matches!(s.bootstrap(), Bootstrap::Skip));
    s.initialize(
        None,
        "/p".to_string(),
        config("/dd", "S"),
        Some(1),
        Some(CompileStore::new("/dd", "S")),
    );
    assert!(matches!(s.bootstrap(), Bootstrap::Cold));
    assert_eq!(text(&s.options(Some("file:///p/A.swift"), &disk)), "null");

    assert!(s.needs_ingest(Some("1.xcactivitylog")));
    assert!(!s.needs_ingest(None));
    let merged = CompileStore::merge_save_locked(
        "/dd",
        "S",
        None,
        &vec![vec![parsed("M", "/p/A.swift")]],
        Watermark::Advance(Some("1.xcactivitylog".to_string())),
        &disk,
    );
    assert!(s.adopt("/dd", "S", merged, Some("1.xcactivitylog".to_string())));
    assert!(!s.needs_ingest(Some("1.xcactivitylog")));
    assert!(s.needs_ingest(Some("2.xcactivitylog")));
    let options = s.options(Some("file:///p/A.swift"), &disk);
    assert_eq!(options.str_at("workingDirectory"), Some("/wd"));
    assert_eq!(text(&s.options(None, &disk)), "null");
}

#[test]
fn a_new_configuration_switches_the_store() {
    let mut s = Session::new("/p");
    s.initialize(
        None,
        "/p".to_string(),
        config("/dd", "S"),
        Some(1),
        Some(CompileStore::new("/dd", "S")),
    );
    assert!(!s.config_changed(Some(1)));
    assert!(s.config_changed(Some(2)));
    assert!(!s.switches(&config("/dd", "S")));
    assert!(s.switches(&config("/dd", "T")));
    assert!(s.apply_config(config("/dd", "T"), Some(2), Some(CompileStore::new("/dd", "T")), Some(7)));
    assert_eq!(s.scheme.as_deref(), Some("T"));
    assert_eq!(s.watermark, None);
    // The same file again changes nothing that is served.
    assert!(!s.apply_config(config("/dd", "T"), Some(3), None, None));
    assert!(!s.config_changed(Some(3)));
    // Another process wrote the store.
    s.note_store_mtime(Some(7));
    assert!(!s.store_changed(Some(7)));
    assert!(s.store_changed(Some(8)));
    assert!(s.adopt_external("/dd", "T", CompileStore::new("/dd", "T"), Some(8)));
    assert!(!s.adopt_external("/dd", "S", CompileStore::new("/dd", "S"), Some(9)));
}

#[test]
fn a_build_root_spelled_otherwise_is_no_switch() {
    let mut s = Session::new("/p");
    s.initialize(
        None,
        "/p".to_string(),
        config("/dd", "S"),
        Some(1),
        Some(CompileStore::new("/dd", "S")),
    );
    for root in ["/dd/", "//dd", "/./dd", "/dd/."] {
        assert!(!s.switches(&config(root, "S")));
    }
    for root in ["dd", "/dd/..", "/d", "/dd/x"] {
        assert!(s.switches(&config(root, "S")));
    }
    s.watermark = Some("1.xcactivitylog".to_string());
    assert!(!s.apply_config(config("/dd/", "S"), Some(2), None, None));
    assert_eq!(s.watermark.as_deref(), Some("1.xcactivitylog"));
    assert!(s.adopt_external("/dd/", "S", CompileStore::new("/dd/", "S"), Some(9)));
}
