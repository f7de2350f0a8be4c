use xcode_dap::engine::pipeline::restart_line;
use xcode_dap::json::Json;
use xcode_dap::setup::build_server::is_foreign_build_server;
use xcode_dap::setup::build_server::render;
use xcode_dap::setup::build_server::restart_hint_needed;
use xcode_dap::setup::build_server::write_build_server_json;
use xcode_dap::setup::build_server::Change;
use xcode_dap::setup::build_server::ServerWrite;
use xcode_dap::setup::jsonc::parse_jsonc;

const EXE: &str = "/opt/bin/xcode-dap";

fn text<'a>(v: &'a Json, key: &str) -> Option<&'a str> {
    v.get(key).and_then(|x| x.as_str())
}

fn texts<'a>(v: &'a Json, key: &str) -> Vec<&'a str> {
    v.get(key).unwrap().as_array().unwrap().iter().map(|a| a.as_str().unwrap()).collect()
}

#[test]
fn render_has_required_and_private_fields() {
    let rendered = render(EXE, "0.1.0", "/Users/x/MyApp.xcworkspace", "MyApp (staging)", "/Users/x/dd");
    let v = parse_jsonc(&rendered).unwrap();
    // sourcekit-lsp's required fields
    assert_eq!(text(&v, "name"), Some("xcode-dap"));
    assert_eq!(text(&v, "version"), Some("0.1.0"));
    assert_eq!(text(&v, "bspVersion"), Some("2.2.0"));
    assert_eq!(texts(&v, "languages"), vec!["c", "cpp", "objective-c", "objective-cpp", "swift"]);
    // argv = [<current exe>, "bsp"]
    let argv = texts(&v, "argv");
    assert_eq!(argv.len(), 2);
    assert_eq!(argv[0], EXE);
    assert_eq!(argv[1], "bsp");
    // our private fields
    assert_eq!(text(&v, "workspace"), Some("/Users/x/MyApp.xcworkspace"));
    assert_eq!(text(&v, "build_root"), Some("/Users/x/dd"));
    assert_eq!(text(&v, "scheme"), Some("MyApp (staging)"));
    assert_eq!(text(&v, "kind"), Some("xcode"));
}

fn write(previous: Option<&str>, scheme: &str, root: &str) -> ServerWrite {
    let ws = "/Users/x/MyApp.xcworkspace";
    write_build_server_json(previous.map(|p| p.as_bytes()), EXE, "0.1.0", ws, scheme, root)
}

#[test]
fn write_reports_created_then_unchanged_then_changed() {
    // first write -> Created, restart hint (navigation came online)
    let w = write(None, "MyApp", "/dd");
    assert_eq!(w.outcome.change, Change::Created);
    assert!(w.outcome.first_create());
    assert!(w.outcome.restart_hint);
    assert!(restart_line(&w.outcome).unwrap().contains("restart language server"));

    // identical -> Unchanged, no hint
    let w2 = write(Some(&w.content), "MyApp", "/dd");
    assert_eq!(w2.outcome.change, Change::Unchanged);
    assert!(!w2.outcome.restart_hint);
    assert_eq!(restart_line(&w2.outcome), None);

    // scheme-only change -> Changed but NO hint
    let w3 = write(Some(&w2.content), "Other", "/dd");
    assert_eq!(w3.outcome.change, Change::Changed);
    assert!(!w3.outcome.restart_hint, "scheme-only change must not prompt a restart");

    // build_root change -> Changed AND hint
    let w4 = write(Some(&w3.content), "Other", "/dd2");
    assert_eq!(w4.outcome.change, Change::Changed);
    assert!(w4.outcome.restart_hint, "build_root change must prompt a restart");

    // the file always parses as JSON
    parse_jsonc(&w4.content).unwrap();
}

#[test]
fn foreign_build_server_is_backed_up_before_overwrite() {
    // A different build server's config (e.g. xcode-build-server).
    let foreign = r#"{"name":"xcode-build-server","argv":["xcode-build-server"]}"#;
    let w = write(Some(foreign), "MyApp", "/dd");
    assert_eq!(w.outcome.change, Change::Changed);
    assert!(w.backup, "foreign file must be backed up");
    // The new file is ours.
    assert_eq!(text(&parse_jsonc(&w.content).unwrap(), "name"), Some("xcode-dap"));
    // Rewriting over our own file makes no further backup.
    let w2 = write(Some(&w.content), "Other", "/dd");
    assert!(!w2.backup, "our own overwrite must not back up");
}

#[test]
fn is_foreign_build_server_classifies_provenance() {
    assert!(is_foreign_build_server(br#"{"name":"xcode-build-server"}"#));
    // ours by name or by kind -> not foreign
    assert!(!is_foreign_build_server(br#"{"name":"xcode-dap"}"#));
    assert!(!is_foreign_build_server(br#"{"name":"whatever","kind":"xcode"}"#));
    // bare stub / unparseable -> nothing to preserve
    assert!(!is_foreign_build_server(b"{}"));
    assert!(!is_foreign_build_server(b"not json"));
}

#[test]
fn restart_hint_only_when_argv_or_build_root_change() {
    let base = render(EXE, "0.1.0", "/w.xcworkspace", "A", "/dd");
    let scheme_only = render(EXE, "0.1.0", "/w.xcworkspace", "B", "/dd");
    let build_root_changed = render(EXE, "0.1.0", "/w.xcworkspace", "A", "/dd2");

    // first-create / unreadable -> hint
    assert!(restart_hint_needed(None, Some(base.as_bytes())));
    assert!(restart_hint_needed(Some(base.as_bytes()), None));
    // byte-identical -> no hint
    assert!(!restart_hint_needed(Some(base.as_bytes()), Some(base.as_bytes())));
    // scheme-only diff -> no hint
    assert!(!restart_hint_needed(Some(base.as_bytes()), Some(scheme_only.as_bytes())));
    // build_root diff -> hint
    assert!(restart_hint_needed(Some(base.as_bytes()), Some(build_root_changed.as_bytes())));
    // argv diff (different binary) -> hint
    let argv_changed = base.replace("\"bsp\"", "\"bsp\",\"--x\"");
    assert!(restart_hint_needed(Some(base.as_bytes()), Some(argv_changed.as_bytes())));
}
