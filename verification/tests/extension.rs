//! The decisions of the editor extension.

use xcode_dap::extension::asset_name;
use xcode_dap::extension::cached_or_downloaded_proxy;
use xcode_dap::extension::check_adapter;
use xcode_dap::extension::dap_config_to_scenario;
use xcode_dap::extension::dap_request_kind;
use xcode_dap::extension::find_asset;
use xcode_dap::extension::newest_cached_proxy;
use xcode_dap::extension::pinned_binary;
use xcode_dap::extension::purge_stale_versions;
use xcode_dap::extension::resolve_proxy_command;
use xcode_dap::extension::resolved_from;
use xcode_dap::extension::start_fetch;
use xcode_dap::extension::version_dir;
use xcode_dap::extension::FetchEvent;
use xcode_dap::extension::FetchStep;
use xcode_dap::extension::Platform;
use xcode_dap::extension::SessionRequest;
use xcode_dap::setup::jsonc::parse_jsonc;

#[test]
fn a_setting_wins_over_the_path() {
    assert_eq!(
        resolve_proxy_command(Some("bin/x"), "/w", Some("/opt/x")),
        Some(("/w/bin/x".to_string(), "user-setting"))
    );
    assert_eq!(
        resolve_proxy_command(Some("/bin/x"), "/w", None),
        Some(("/bin/x".to_string(), "user-setting"))
    );
    assert_eq!(
        resolve_proxy_command(None, "/w", Some("/opt/x")),
        Some(("/opt/x".to_string(), "worktree-path"))
    );
    assert_eq!(resolve_proxy_command(None, "/w", None), None);
}

#[test]
fn assets_and_places() {
    let name = asset_name(Platform::MacAarch64).unwrap();
    assert_eq!(name, "xcode-dap-v0.1.0-aarch64-apple-darwin.tar.gz");
    assert_eq!(
        asset_name(Platform::MacX8664).unwrap(),
        "xcode-dap-v0.1.0-x86_64-apple-darwin.tar.gz"
    );
    assert_eq!(asset_name(Platform::Unsupported).unwrap_err(), "the Xcode debug adapter is macOS-only");
    assert_eq!(version_dir(), "xcode-dap/xcode-dap-v0.1.0");
    assert_eq!(pinned_binary(), "xcode-dap/xcode-dap-v0.1.0/xcode-dap");
    let names = vec!["a".to_string(), name.clone()];
    assert_eq!(find_asset(&names, &name), Ok(1));
    assert!(find_asset(&names, "zip").unwrap_err().ends_with("has no asset zip"));
}

#[test]
fn a_cached_binary_serves_where_a_download_fails() {
    let asset = || "xcode-dap-v0.1.0-aarch64-apple-darwin.tar.gz".to_string();
    let failed = || {
        cached_or_downloaded_proxy(
            FetchStep::LookUp { asset: asset() },
            FetchEvent::Release(Err("offline".to_string())),
        )
    };
    let found = FetchEvent::Cached(vec!["xcode-dap/v1/xcode-dap".to_string()]);
    assert!(matches!(
        cached_or_downloaded_proxy(failed(), found),
        FetchStep::Use { command, source: "cached-release" } if command == "xcode-dap/v1/xcode-dap"
    ));
    assert!(matches!(
        cached_or_downloaded_proxy(failed(), FetchEvent::Cached(vec![])),
        FetchStep::Refuse { message } if message.starts_with(
            "failed to fetch GitHub release xcode-dap-v0.1.0 from Leonkh/ZedXcode (offline)"
        )
    ));
    let broken = cached_or_downloaded_proxy(
        FetchStep::Download { asset: "a.tar.gz".to_string(), index: 0 },
        FetchEvent::Done(Err("offline".to_string())),
    );
    assert!(matches!(
        cached_or_downloaded_proxy(broken, FetchEvent::Cached(vec![])),
        FetchStep::Refuse { message } if message == "failed to download a.tar.gz: offline"
    ));
    let cached = vec!["v0.1.0".to_string(), "v0.2.0".to_string(), "v0.1.9".to_string()];
    assert_eq!(newest_cached_proxy(&cached).as_deref(), Some("v0.2.0"));
    assert_eq!(newest_cached_proxy(&vec![]), None);
    assert_eq!(resolved_from("user-setting", "/x", "1.0"), "user-setting:/x ext-v1.0");
}

#[test]
fn only_launches_of_xcode() {
    assert!(check_adapter("Xcode").is_ok());
    assert_eq!(check_adapter("Other").unwrap_err(), "unexpected debug adapter name: Other");
    assert!(dap_request_kind(&parse_jsonc("{}").unwrap()).is_ok());
    assert!(dap_request_kind(&parse_jsonc(r#"{"request": "launch"}"#).unwrap()).is_ok());
    assert!(dap_request_kind(&parse_jsonc(r#"{"request": "attach"}"#).unwrap())
        .unwrap_err()
        .contains("does not support attaching"));
    assert_eq!(
        dap_request_kind(&parse_jsonc(r#"{"request": [1,  "x"]}"#).unwrap()).unwrap_err(),
        "unsupported \"request\" value in Xcode scenario config: [1,\"x\"]"
    );
}

#[test]
fn a_session_becomes_a_scenario() {
    let text = dap_config_to_scenario(SessionRequest::Launch("App"), Some(true)).unwrap();
    let v = parse_jsonc(&text).unwrap();
    assert_eq!(v.str_at("scheme"), Some("App"));
    assert_eq!(v.get("stopOnEntry").and_then(|b| b.as_bool()), Some(true));
    assert!(dap_config_to_scenario(SessionRequest::Attach, None).is_err());
}

#[test]
fn a_release_is_fetched_step_by_step() {
    let asset = "xcode-dap-v0.1.0-aarch64-apple-darwin.tar.gz";
    let step = start_fetch(Platform::MacAarch64);
    assert!(matches!(&step, FetchStep::Probe { asset: a } if a == asset));
    // not there: look the release up, download, mark, purge, use
    let step = cached_or_downloaded_proxy(step, FetchEvent::Present(false));
    assert!(matches!(&step, FetchStep::LookUp { asset: a } if a == asset));
    let names = vec!["other".to_string(), asset.to_string()];
    let step = cached_or_downloaded_proxy(step, FetchEvent::Release(Ok(names)));
    assert!(matches!(&step, FetchStep::Download { index: 1, .. }));
    let step = cached_or_downloaded_proxy(step, FetchEvent::Done(Ok(())));
    assert!(matches!(&step, FetchStep::MarkExecutable));
    let step = cached_or_downloaded_proxy(step, FetchEvent::Done(Ok(())));
    assert!(matches!(&step, FetchStep::Purge));
    let step = cached_or_downloaded_proxy(step, FetchEvent::Done(Ok(())));
    assert!(matches!(
        &step,
        FetchStep::Use { command, source: "github-release" } if *command == pinned_binary()
    ));
    // there already
    let step = cached_or_downloaded_proxy(
        start_fetch(Platform::MacX8664),
        FetchEvent::Present(true),
    );
    assert!(matches!(
        &step,
        FetchStep::Use { command, source: "cached-release" } if *command == pinned_binary()
    ));
    // no such asset, not executable, no such platform
    let step = cached_or_downloaded_proxy(
        FetchStep::LookUp { asset: asset.to_string() },
        FetchEvent::Release(Ok(vec![])),
    );
    assert!(matches!(&step, FetchStep::Refuse { message } if message.ends_with(asset)));
    let step = cached_or_downloaded_proxy(
        FetchStep::MarkExecutable,
        FetchEvent::Done(Err("no".to_string())),
    );
    assert!(matches!(
        &step,
        FetchStep::Refuse { message }
            if message == "failed to mark xcode-dap/xcode-dap-v0.1.0/xcode-dap executable: no"
    ));
    assert!(matches!(start_fetch(Platform::Unsupported), FetchStep::Refuse { .. }));
    let dirs = vec!["xcode-dap-v0.0.9".to_string(), "xcode-dap-v0.1.0".to_string()];
    assert_eq!(purge_stale_versions(&dirs), ["xcode-dap/xcode-dap-v0.0.9"]);
}
