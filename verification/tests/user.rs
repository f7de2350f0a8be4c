use xcode_dap::json::Json;
use xcode_dap::setup::jsonc::check_written;
use xcode_dap::setup::jsonc::parse_jsonc;
use xcode_dap::setup::jsonc::MergeOutcome;
use xcode_dap::setup::user::remove_block;
use xcode_dap::setup::user::report;
use xcode_dap::setup::user::setup_keymap;
use xcode_dap::setup::user::setup_settings;
use xcode_dap::setup::user::zed_config_dir;
use xcode_dap::setup::user::FileStep;
use xcode_dap::setup::user::KEYMAP_BLOCK;
use xcode_dap::setup::user::KEYMAP_MARKER_ID;
use xcode_dap::setup::user::SETTINGS_MARKER_ID;

const KEYMAP_FIXTURE: &str = r#"// Zed keymap
//
// For information on binding keys, see the Zed
// documentation: https://zed.dev/docs/key-bindings
//
// To see the default key bindings run `zed: open default keymap`
// from the command palette.
[
  {
    "context": "Workspace",
    "bindings": {
      // "shift shift": "file_finder::Toggle"
    },
  },
  {
    "context": "Editor && vim_mode == insert",
    "bindings": {
      // "j k": "vim::NormalBefore"
    },
  },
]
"#;

const KEYMAP_EXPECTED: &str = r#"// Zed keymap
//
// For information on binding keys, see the Zed
// documentation: https://zed.dev/docs/key-bindings
//
// To see the default key bindings run `zed: open default keymap`
// from the command palette.
[
  {
    "context": "Workspace",
    "bindings": {
      // "shift shift": "file_finder::Toggle"
    },
  },
  {
    "context": "Editor && vim_mode == insert",
    "bindings": {
      // "j k": "vim::NormalBefore"
    },
  },
  // >>> zedxcode:keymap >>>
  {
    "context": "Workspace",
    "bindings": {
      "cmd-r": "debugger::Rerun",
      "cmd-b": ["task::Spawn", { "task_name": "Xcode: Build", "reveal_target": "dock" }],
      "cmd-shift-k": ["task::Spawn", { "task_name": "Xcode: Clean", "reveal_target": "dock" }],
      "cmd-shift-o": "project_symbols::Toggle"
    }
  },
  {
    "context": "Editor && mode == full",
    "bindings": {
      "cmd-shift-k": ["task::Spawn", { "task_name": "Xcode: Clean", "reveal_target": "dock" }],
      "cmd-shift-o": "project_symbols::Toggle"
    }
  },
  // <<< zedxcode:keymap <<<
]
"#;

const SETTINGS_FIXTURE: &str = r#"// Zed settings
//
// For information on how to configure Zed, see the Zed
// documentation: https://zed.dev/docs/configuring-zed
//
// To see all of Zed's default settings without changing your
// custom settings, run `zed: open default settings` from the
// command palette (cmd-shift-p / ctrl-shift-p)
{
  "autosave": {
    "after_delay": {
      "milliseconds": 0
    }
  },
  "format_on_save": "off",
  "terminal": {
    "shell": "system",
  },
  "agent_servers": {

  },
  "session": {
    "trust_all_worktrees": true,
  },
  "icon_theme": "Zed (Default)",
  "ui_font_size": 16,
  "buffer_font_size": 15,
  "theme": {
    "mode": "dark",
    "light": "One Light",
    "dark": "Xcode High Contrast Dark",
  },
}
"#;

const SETTINGS_EXPECTED: &str = r#"// Zed settings
//
// For information on how to configure Zed, see the Zed
// documentation: https://zed.dev/docs/configuring-zed
//
// To see all of Zed's default settings without changing your
// custom settings, run `zed: open default settings` from the
// command palette (cmd-shift-p / ctrl-shift-p)
{
  "autosave": {
    "after_delay": {
      "milliseconds": 0
    }
  },
  "format_on_save": "off",
  "terminal": {
    "shell": "system",
  },
  "agent_servers": {

  },
  "session": {
    "trust_all_worktrees": true,
  },
  "icon_theme": "Zed (Default)",
  "ui_font_size": 16,
  "buffer_font_size": 15,
  "theme": {
    "mode": "dark",
    "light": "One Light",
    "dark": "Xcode High Contrast Dark",
  },
  // >>> zedxcode:settings >>>
  "auto_install_extensions": {
    "swift": true
  },
  // <<< zedxcode:settings <<<
}
"#;

/// The two files of the editor's configuration directory.
struct Dir {
    keymap: Option<String>,
    settings: Option<String>,
    backups: usize,
}

impl Dir {
    fn with(keymap: &str, settings: &str) -> Dir {
        Dir { keymap: Some(keymap.to_string()), settings: Some(settings.to_string()), backups: 0 }
    }

    fn write(&mut self, step: FileStep, old: Option<String>, skeleton: &str) -> Option<String> {
        match step {
            FileStep::LeaveAlone => old,
            FileStep::Merge(text, outcome) => {
                if outcome != MergeOutcome::Unchanged {
                    self.backups += 1;
                    check_written("file", &text, "backup").unwrap();
                }
                let _ = skeleton;
                Some(text)
            }
        }
    }

    fn setup(&mut self) -> Result<(), String> {
        let keymap = self.keymap.clone();
        let step = setup_keymap(keymap.as_deref(), "keymap.json")?;
        self.keymap = self.write(step, keymap, "[]\n");
        let settings = self.settings.clone();
        let step = setup_settings(settings.as_deref(), "settings.json")?;
        self.settings = self.write(step, settings, "{}\n");
        Ok(())
    }

    fn remove(&mut self) -> Result<(), String> {
        if let (Some(t), _) = remove_block(self.keymap.as_deref(), "keymap.json", KEYMAP_MARKER_ID)? {
            self.keymap = Some(t);
        }
        if let (Some(t), _) =
            remove_block(self.settings.as_deref(), "settings.json", SETTINGS_MARKER_ID)?
        {
            self.settings = Some(t);
        }
        Ok(())
    }
}

fn at<'a>(v: &'a Json, path: &[&str]) -> &'a Json {
    let mut v = v;
    for key in path {
        v = v.get(key).unwrap();
    }
    v
}

#[test]
fn setup_user_produces_byte_expected_files() {
    let mut dir = Dir::with(KEYMAP_FIXTURE, SETTINGS_FIXTURE);
    dir.setup().unwrap();
    let keymap = dir.keymap.unwrap();
    let settings = dir.settings.unwrap();
    assert_eq!(keymap, KEYMAP_EXPECTED, "keymap.json bytes differ");
    assert_eq!(settings, SETTINGS_EXPECTED, "settings.json bytes differ");
    // both still parse as JSONC
    parse_jsonc(&keymap).unwrap();
    parse_jsonc(&settings).unwrap();
}

#[test]
fn setup_user_is_idempotent() {
    let mut dir = Dir::with(KEYMAP_FIXTURE, SETTINGS_FIXTURE);
    dir.setup().unwrap();
    let keymap1 = dir.keymap.clone();
    let settings1 = dir.settings.clone();
    dir.setup().unwrap();
    assert_eq!(keymap1, dir.keymap, "double-run keymap not byte-identical");
    assert_eq!(settings1, dir.settings, "double-run settings not byte-identical");
    // exactly one backup per file (second run was Unchanged)
    assert_eq!(dir.backups, 2, "expected 1 backup per file");
}

#[test]
fn remove_restores_original_bytes() {
    let mut dir = Dir::with(KEYMAP_FIXTURE, SETTINGS_FIXTURE);
    dir.setup().unwrap();
    dir.remove().unwrap();
    assert_eq!(dir.keymap.unwrap(), KEYMAP_FIXTURE);
    assert_eq!(dir.settings.unwrap(), SETTINGS_FIXTURE);
}

#[test]
fn setup_user_creates_missing_files() {
    let mut dir = Dir { keymap: None, settings: None, backups: 0 };
    dir.setup().unwrap();
    let v = parse_jsonc(&dir.keymap.unwrap()).unwrap();
    assert_eq!(v.as_array().unwrap().len(), 2);
    let v = parse_jsonc(&dir.settings.unwrap()).unwrap();
    assert_eq!(at(&v, &["auto_install_extensions", "swift"]).as_bool(), Some(true));
}

#[test]
fn pre_broken_keymap_fails_before_merging() {
    let broken = "[\n  { \"context\": \"Workspace\"\n]\n"; // missing `}`
    let mut dir = Dir::with(broken, SETTINGS_FIXTURE);
    let err = dir.setup().unwrap_err();
    assert!(err.contains("keymap.json does not parse as JSONC"), "unexpected error: {err}");
    // The broken file is left untouched (no half-applied merge).
    assert_eq!(dir.keymap.unwrap(), broken);
}

#[test]
fn pre_broken_settings_fails_before_merging() {
    // Our markers are present, but the file is broken *outside* the marker block
    // (no closing `}`).
    let broken = "{\n  // >>> zedxcode:settings >>>\n  \"auto_install_extensions\": {\n    \"swift\": true\n  },\n  // <<< zedxcode:settings <<<\n";
    let mut dir = Dir::with(KEYMAP_FIXTURE, broken);
    let err = dir.setup().unwrap_err();
    assert!(err.contains("settings.json does not parse as JSONC"), "unexpected error: {err}");
    // The broken file is left untouched (no half-applied merge).
    assert_eq!(dir.settings.unwrap(), broken);
}

#[test]
fn existing_auto_install_extensions_is_left_alone() {
    let pre = "{\n  \"auto_install_extensions\": {\n    \"html\": true\n  },\n}\n";
    let mut dir = Dir::with(KEYMAP_FIXTURE, pre);
    dir.setup().unwrap();
    let settings = dir.settings.unwrap();
    assert_eq!(settings, pre, "settings.json must not be edited");
    assert!(!settings.contains("zedxcode"));
}

#[test]
fn keymap_block_is_valid_jsonc_fragment() {
    let wrapped = format!("[\n{KEYMAP_BLOCK}\n]\n");
    let v = parse_jsonc(&wrapped).unwrap();
    let entries = v.as_array().unwrap();
    assert_eq!(entries.len(), 2);
    assert_eq!(at(&entries[0], &["context"]).as_str(), Some("Workspace"));
    assert_eq!(at(&entries[0], &["bindings", "cmd-r"]).as_str(), Some("debugger::Rerun"));
    let build = at(&entries[0], &["bindings", "cmd-b"]).as_array().unwrap();
    assert_eq!(at(&build[1], &["task_name"]).as_str(), Some("Xcode: Build"));
    let clean = at(&entries[0], &["bindings", "cmd-shift-k"]).as_array().unwrap();
    assert_eq!(at(&clean[1], &["reveal_target"]).as_str(), Some("dock"));
    assert_eq!(at(&entries[1], &["context"]).as_str(), Some("Editor && mode == full"));
    assert_eq!(
        at(&entries[1], &["bindings", "cmd-shift-o"]).as_str(),
        Some("project_symbols::Toggle")
    );
    // cmd-k must never be rebound (chords + terminal::Clear stay default)
    assert!(!KEYMAP_BLOCK.contains("\"cmd-k\""));
}

#[test]
fn configuration_directory() {
    assert_eq!(zed_config_dir(true, None, Some("/h")).unwrap(), "/h/.config/zed");
    assert_eq!(zed_config_dir(true, Some("/x"), Some("/h")).unwrap(), "/x");
    assert_eq!(zed_config_dir(true, None, None).unwrap_err(), "HOME is not set");
    assert_eq!(
        zed_config_dir(false, Some("/x"), None).unwrap_err(),
        "xcode-dap setup --user is macOS-only"
    );
}

#[test]
fn reports_of_setup_and_removal() {
    assert_eq!(report("k", MergeOutcome::Unchanged), "✓ k: already up to date");
    assert!(report("k", MergeOutcome::Inserted).contains("installed"));
    assert!(report("k", MergeOutcome::Replaced).contains("updated"));
    let (text, line) = remove_block(None, "k", "keymap").unwrap();
    assert_eq!((text, line.as_str()), (None, "– k: not present, nothing to remove"));
    let (text, line) = remove_block(Some("[]\n"), "k", "keymap").unwrap();
    assert_eq!((text, line.as_str()), (None, "– k: no zedxcode block found"));
    let err = remove_block(Some("// >>> zedxcode:keymap >>>\n"), "k", "keymap").unwrap_err();
    assert!(err.starts_with("corrupt zedxcode:keymap"));
}

#[test]
fn setup_refuses_whitespace_that_json_does_not_know() {
    for odd in ["\u{00a0}", "\u{2003}", "\u{3000}", "\u{000b}"] {
        let text = format!("[\n  1,\n{odd}]\n");
        let e = setup_keymap(Some(&text), "keymap.json").unwrap_err();
        assert!(
            e.starts_with("keymap.json does not parse as JSONC — fix it, then re-run setup: "),
            "{e}"
        );
        let text = format!("{{\n  \"a\": 1,\n{odd}}}\n");
        let e = setup_settings(Some(&text), "settings.json").unwrap_err();
        assert!(
            e.starts_with("settings.json does not parse as JSONC — fix it, then re-run setup: "),
            "{e}"
        );
    }
}

#[test]
fn setup_takes_the_same_whitespace_inside_a_string_or_a_comment() {
    for odd in ["\u{00a0}", "\u{2003}"] {
        let text = format!("{{\n  \"a\": \"{odd}\", //{odd}\n}}\n");
        match setup_settings(Some(&text), "settings.json").unwrap() {
            FileStep::Merge(new, MergeOutcome::Inserted) => {
                assert!(new.contains(&format!("\"a\": \"{odd}\", //{odd}\n")))
            }
            other => panic!("{other:?}"),
        }
    }
}
