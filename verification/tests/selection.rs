//! The saved scheme and device selection.

use xcode_dap::engine::config::BuildOutput;
use xcode_dap::engine::config::LaunchConfig;
use xcode_dap::engine::consoles::default_oslog_predicate;
use xcode_dap::engine::selection::apply;
use xcode_dap::engine::selection::describe;
use xcode_dap::engine::selection::find_project_dir;
use xcode_dap::engine::selection::overlaid;
use xcode_dap::engine::selection::project_candidates;
use xcode_dap::engine::selection::selection_path;
use xcode_dap::engine::selection::Selection;

fn base_cfg() -> LaunchConfig {
    LaunchConfig {
        workspace: "MyApp.xcworkspace".into(),
        scheme: "MyApp (staging)".into(),
        device: Some("iPhone 15 Pro Max".into()),
        os: Some("26.3".into()),
        configuration: None,
        preflight: None,
        oslog: false,
        oslog_predicate: None,
        terminate_on_stop: true,
        build_output: BuildOutput::default(),
        verbose_logging: false,
        derived_data: None,
    }
}

#[test]
fn empty_selection_is_a_noop() {
    let mut cfg = base_cfg();
    apply(&mut cfg, &Selection::default());
    assert_eq!(cfg.scheme, "MyApp (staging)");
    assert_eq!(cfg.device.as_deref(), Some("iPhone 15 Pro Max"));
    assert_eq!(cfg.os.as_deref(), Some("26.3"));
}

#[test]
fn scheme_only_overrides_scheme_and_keeps_destination() {
    let mut cfg = base_cfg();
    apply(
        &mut cfg,
        &Selection { scheme: Some("MyApp (production)".into()), ..Default::default() },
    );
    assert_eq!(cfg.scheme, "MyApp (production)");
    assert_eq!(cfg.device.as_deref(), Some("iPhone 15 Pro Max"));
    assert_eq!(cfg.os.as_deref(), Some("26.3"));
}

#[test]
fn device_with_os_overrides_both() {
    let mut cfg = base_cfg();
    apply(
        &mut cfg,
        &Selection {
            device: Some("iPhone 16 Pro".into()),
            os: Some("18.2".into()),
            ..Default::default()
        },
    );
    assert_eq!(cfg.scheme, "MyApp (staging)");
    assert_eq!(cfg.device.as_deref(), Some("iPhone 16 Pro"));
    assert_eq!(cfg.os.as_deref(), Some("18.2"));
}

#[test]
fn device_without_os_clears_stale_config_os() {
    // A picked device must not be constrained by the old config's os.
    let mut cfg = base_cfg();
    apply(
        &mut cfg,
        &Selection { device: Some("iPhone 16 Pro".into()), ..Default::default() },
    );
    assert_eq!(cfg.device.as_deref(), Some("iPhone 16 Pro"));
    assert_eq!(cfg.os, None);
}

#[test]
fn os_only_narrows_os() {
    let mut cfg = base_cfg();
    apply(&mut cfg, &Selection { os: Some("18.2".into()), ..Default::default() });
    assert_eq!(cfg.device.as_deref(), Some("iPhone 15 Pro Max"));
    assert_eq!(cfg.os.as_deref(), Some("18.2"));
}

#[test]
fn describe_lines() {
    let mut cfg = base_cfg();
    assert_eq!(
        describe(&cfg, false),
        "Scheme: MyApp (staging) | Destination: iPhone 15 Pro Max (iOS 26.3)"
    );
    assert_eq!(
        describe(&cfg, true),
        "Scheme: MyApp (staging) | Destination: iPhone 15 Pro Max (iOS 26.3) (from selection)"
    );
    cfg.os = None;
    assert_eq!(
        describe(&cfg, false),
        "Scheme: MyApp (staging) | Destination: iPhone 15 Pro Max"
    );
    cfg.device = None;
    assert_eq!(
        describe(&cfg, false),
        "Scheme: MyApp (staging) | Destination: auto (booted iPhone, else newest)"
    );
}

#[test]
fn overlay_keeps_the_given_configuration() {
    let cfg = base_cfg();
    let sel = Selection { scheme: Some("Other".into()), ..Default::default() };
    assert!(!sel.is_empty());
    assert!(Selection::default().is_empty());
    let (over, line) = overlaid(&cfg, &sel);
    assert_eq!(over.scheme, "Other");
    assert_eq!(cfg.scheme, "MyApp (staging)");
    assert_eq!(
        line,
        "Scheme: Other | Destination: iPhone 15 Pro Max (iOS 26.3) (from selection)"
    );
    // Overlaying twice changes nothing more.
    let (again, _) = overlaid(&over, &sel);
    assert_eq!(again.scheme, over.scheme);
    assert_eq!(again.device, over.device);
    assert_eq!(selection_path("/p"), "/p/.zed/.zedx/selection.json");
}

#[test]
fn default_oslog_predicate_scopes_to_app_subsystem_and_bundle() {
    assert_eq!(
        default_oslog_predicate("com.example.myapp", "MyApp"),
        "subsystem == \"com.example.myapp\" \
         OR senderImagePath CONTAINS \"/MyApp.app/\""
    );
}

#[test]
fn find_project_dir_walks_up() {
    let dir = "/tmp/project".to_string();
    let with_zed = vec![dir.clone()];
    assert_eq!(find_project_dir("/tmp/project/a/b/c", &with_zed), Some(dir.clone()));
    assert_eq!(find_project_dir("/tmp/project", &with_zed), Some(dir));
    // No .zed anywhere up from a bare directory.
    assert_eq!(find_project_dir("/tmp/bare", &with_zed), None);
    // The directories asked about, the nearest first.
    assert_eq!(
        project_candidates("/tmp/project/a"),
        vec!["/tmp/project/a", "/tmp/project", "/tmp", "/"]
    );
}
