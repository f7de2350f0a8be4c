use xcode_dap::json::Json;
use xcode_dap::setup::jsonc::backup_path;
use xcode_dap::setup::jsonc::check_written;
use xcode_dap::setup::jsonc::insertion_is_defined;
use xcode_dap::setup::jsonc::merge_marker_block;
use xcode_dap::setup::jsonc::parse_jsonc;
use xcode_dap::setup::jsonc::parse_strict;
use xcode_dap::setup::jsonc::remove_marker_block;
use xcode_dap::setup::jsonc::strip_jsonc;
use xcode_dap::setup::jsonc::tmp_path;
use xcode_dap::setup::jsonc::MarkerError;
use xcode_dap::setup::jsonc::MergeOutcome;

const KEYMAP_FIXTURE: &str = r#"// Zed keymap
//
// For information on binding keys, see the Zed
// documentation: https://zed.dev/docs/key-bindings
//
// To see the default key bindings run `zed: open default keymap`
// from the command palette.
[
  {
    "context": "Workspace",
    "bindings": {
      // "shift shift": "file_finder::Toggle"
    },
  },
  {
    "context": "Editor && vim_mode == insert",
    "bindings": {
      // "j k": "vim::NormalBefore"
    },
  },
]
"#;

const SETTINGS_FIXTURE: &str = r#"// Zed settings
//
// For information on how to configure Zed, see the Zed
// documentation: https://zed.dev/docs/configuring-zed
//
// To see all of Zed's default settings without changing your
// custom settings, run `zed: open default settings` from the
// command palette (cmd-shift-p / ctrl-shift-p)
{
  "autosave": {
    "after_delay": {
      "milliseconds": 0
    }
  },
  "format_on_save": "off",
  "terminal": {
    "shell": "system",
  },
  "agent_servers": {

  },
  "session": {
    "trust_all_worktrees": true,
  },
  "icon_theme": "Zed (Default)",
  "ui_font_size": 16,
  "buffer_font_size": 15,
  "theme": {
    "mode": "dark",
    "light": "One Light",
    "dark": "Xcode High Contrast Dark",
  },
}
"#;

const BLOCK: &str = r#"  {
    "context": "Workspace",
    "bindings": {
      "cmd-r": "debugger::Rerun"
    }
  },"#;

const OBJ_BLOCK: &str = r#"  "auto_install_extensions": {
    "swift": true
  },"#;

/// A file, its backups, and the write that follows an edit.
struct File {
    content: String,
    backups: Vec<String>,
}

impl File {
    fn new(content: &str) -> File {
        File { content: content.to_string(), backups: vec![] }
    }

    fn write(&mut self, new: String) -> Result<(), String> {
        self.backups.push(self.content.clone());
        check_written("keymap.json", &new, &backup_path("keymap.json", 7, 0))?;
        self.content = new;
        Ok(())
    }

    fn merge(&mut self, id: &str, block: &str) -> Result<MergeOutcome, String> {
        assert!(insertion_is_defined(&self.content));
        let (new, outcome) =
            merge_marker_block(&self.content, id, block).map_err(|e| e.message(id))?;
        if outcome != MergeOutcome::Unchanged {
            self.write(new)?;
        }
        Ok(outcome)
    }

    fn remove(&mut self, id: &str) -> Result<bool, String> {
        match remove_marker_block(&self.content, id).map_err(|e| e.message(id))? {
            Some(new) => {
                self.write(new)?;
                Ok(true)
            }
            None => Ok(false),
        }
    }
}

fn at<'a>(v: &'a Json, path: &[&str]) -> &'a Json {
    let mut v = v;
    for key in path {
        v = v.get(key).unwrap();
    }
    v
}

#[test]
fn insert_into_real_keymap_fixture() {
    let mut f = File::new(KEYMAP_FIXTURE);
    let outcome = f.merge("keymap", BLOCK).unwrap();
    assert_eq!(outcome, MergeOutcome::Inserted);
    let text = &f.content;
    // fixture has a trailing comma after the last element -> no comma added
    assert!(!text.contains(",,"), "double comma introduced:\n{text}");
    // markers present, block before the final ]
    let m_start = text.find("// >>> zedxcode:keymap >>>").unwrap();
    let m_end = text.find("// <<< zedxcode:keymap <<<").unwrap();
    assert!(m_start < m_end);
    assert!(m_end < text.rfind(']').unwrap());
    // still valid JSONC, now with 3 elements
    let v = parse_jsonc(text).unwrap();
    assert_eq!(v.as_array().unwrap().len(), 3);
    // user content untouched
    assert!(text.starts_with("// Zed keymap\n"));
    assert!(text.contains(r#"// "j k": "vim::NormalBefore""#));
    // backup created
    assert_eq!(f.backups.len(), 1);
}

#[test]
fn insert_into_real_settings_fixture() {
    let mut f = File::new(SETTINGS_FIXTURE);
    let outcome = f.merge("settings", OBJ_BLOCK).unwrap();
    assert_eq!(outcome, MergeOutcome::Inserted);
    let text = &f.content;
    assert!(!text.contains(",,"));
    let v = parse_jsonc(text).unwrap();
    assert_eq!(at(&v, &["auto_install_extensions", "swift"]).as_bool(), Some(true));
    assert_eq!(at(&v, &["theme", "dark"]).as_str(), Some("Xcode High Contrast Dark"));
    assert!(text.starts_with("// Zed settings\n"));
}

#[test]
fn double_run_is_byte_identical_and_makes_no_new_backup() {
    let mut f = File::new(KEYMAP_FIXTURE);
    f.merge("keymap", BLOCK).unwrap();
    let first = f.content.clone();
    let outcome = f.merge("keymap", BLOCK).unwrap();
    assert_eq!(outcome, MergeOutcome::Unchanged);
    let second = f.content.clone();
    assert_eq!(first, second, "double-run not byte-identical");
    assert_eq!(f.backups.len(), 1, "Unchanged run must not back up");
}

#[test]
fn replace_updates_existing_block() {
    let mut f = File::new(KEYMAP_FIXTURE);
    f.merge("keymap", BLOCK).unwrap();
    let new_block = BLOCK.replace("cmd-r", "cmd-e");
    let outcome = f.merge("keymap", &new_block).unwrap();
    assert_eq!(outcome, MergeOutcome::Replaced);
    let text = &f.content;
    assert!(text.contains("cmd-e"));
    assert!(!text.contains("cmd-r"));
    assert_eq!(text.matches("// >>> zedxcode:keymap >>>").count(), 1);
    parse_jsonc(text).unwrap();
}

#[test]
fn remove_restores_trailing_comma_fixture_byte_identical() {
    let mut f = File::new(KEYMAP_FIXTURE);
    f.merge("keymap", BLOCK).unwrap();
    let removed = f.remove("keymap").unwrap();
    assert!(removed);
    assert_eq!(f.content, KEYMAP_FIXTURE, "remove must restore the original bytes");
    parse_jsonc(&f.content).unwrap();
    // second removal is a no-op
    assert!(!f.remove("keymap").unwrap());
}

#[test]
fn remove_keeps_file_parseable_when_comma_was_added() {
    let mut f = File::new("[\n  {\"a\": 1}\n]\n");
    f.merge("keymap", BLOCK).unwrap();
    let with_block = f.content.clone();
    assert!(with_block.contains("{\"a\": 1},"), "comma must be added:\n{with_block}");
    parse_jsonc(&with_block).unwrap();
    assert!(f.remove("keymap").unwrap());
    // leftover trailing comma is valid JSONC
    parse_jsonc(&f.content).unwrap();
    assert!(!f.content.contains("zedxcode"));
}

#[test]
fn comma_added_only_when_needed() {
    // no trailing comma -> comma added
    let mut f = File::new("[\n  {\"a\": 1}\n]\n");
    f.merge("x", BLOCK).unwrap();
    assert!(f.content.contains("{\"a\": 1},"));
    parse_jsonc(&f.content).unwrap();

    // trailing comma -> no extra comma
    let mut f = File::new("[\n  {\"a\": 1},\n]\n");
    f.merge("x", BLOCK).unwrap();
    assert!(!f.content.contains(",,"));
    parse_jsonc(&f.content).unwrap();
}

#[test]
fn insert_into_empty_array_and_object() {
    let mut f = File::new("[]\n");
    f.merge("x", BLOCK).unwrap();
    let v = parse_jsonc(&f.content).unwrap();
    assert_eq!(v.as_array().unwrap().len(), 1);

    let mut f = File::new("{}\n");
    f.merge("x", OBJ_BLOCK).unwrap();
    let v = parse_jsonc(&f.content).unwrap();
    assert_eq!(at(&v, &["auto_install_extensions", "swift"]).as_bool(), Some(true));
}

#[test]
fn closer_inside_string_or_comment_is_ignored() {
    let src = "[\n  {\"note\": \"contains ] and } in string\"}\n]\n// trailing comment with ] bracket\n";
    let mut f = File::new(src);
    f.merge("x", BLOCK).unwrap();
    let text = &f.content;
    let v = parse_jsonc(text).unwrap();
    assert_eq!(v.as_array().unwrap().len(), 2);
    // block must land before the real closer, not inside the comment
    assert!(
        text.find("// <<< zedxcode:x <<<").unwrap() < text.find("// trailing comment").unwrap()
    );
}

#[test]
fn validation_failure_restores_original_and_keeps_backup() {
    let mut f = File::new(KEYMAP_FIXTURE);
    let err = f.merge("keymap", "  {{{ not json").unwrap_err();
    assert!(err.contains("validation"), "unexpected error: {err}");
    assert!(err.starts_with("post-merge validation of keymap.json failed (invalid JSON(C): "));
    assert!(err.ends_with("); original restored, backup kept at keymap.json.zedxcode-backup-7"));
    assert_eq!(f.content, KEYMAP_FIXTURE, "original must be restored");
    assert_eq!(f.backups.len(), 1, "backup must be kept");
}

#[test]
fn corrupt_single_marker_errors() {
    let src = "[\n  // >>> zedxcode:x >>>\n  {\"a\": 1}\n]\n";
    let mut f = File::new(src);
    let err = f.merge("x", BLOCK).unwrap_err();
    assert!(err.contains("corrupt"), "unexpected error: {err}");
    // file untouched
    assert_eq!(f.content, src);
}

#[test]
fn strip_jsonc_is_string_aware() {
    // // inside a string is not a comment
    let v = parse_jsonc(r#"{"url": "https://zed.dev", "x": 1,}"#).unwrap();
    assert_eq!(at(&v, &["url"]).as_str(), Some("https://zed.dev"));
    assert_eq!(at(&v, &["x"]).as_i64(), Some(1));
    // block comments and line comments stripped
    let v = parse_jsonc("/* head */\n{\n  // c\n  \"a\": [1, 2,],\n}\n").unwrap();
    assert_eq!(at(&v, &["a"]).as_array().unwrap().len(), 2);
    // escaped quote inside string
    let v = parse_jsonc(r#"{"s": "a\"//b"}"#).unwrap();
    assert_eq!(at(&v, &["s"]).as_str(), Some("a\"//b"));
    // invalid stays invalid
    assert!(parse_jsonc(r#"{"a"}"#).is_err());
    assert!(parse_jsonc("[1 2]").is_err());
}

#[test]
fn stripping_gives_exact_text() {
    assert_eq!(strip_jsonc("[1, /* x */ 2, // y\n]"), "[1,  2 \n]");
    assert_eq!(strip_jsonc("{\"a,]\": \"//\"}"), "{\"a,]\": \"//\"}");
}

#[test]
fn edits_that_cannot_be_made() {
    assert_eq!(merge_marker_block("no brackets", "x", BLOCK).unwrap_err(), MarkerError::NoCloser);
    let swapped = "[\n// <<< zedxcode:x <<<\n// >>> zedxcode:x >>>\n]\n";
    assert_eq!(merge_marker_block(swapped, "x", BLOCK).unwrap_err(), MarkerError::Corrupt);
    assert_eq!(remove_marker_block(swapped, "x").unwrap_err(), MarkerError::Corrupt);
    assert!(MarkerError::NoCloser.message("x").contains("no top-level"));
}

#[test]
fn names_beside_a_file() {
    assert_eq!(backup_path("/z/keymap.json", 1700, 0), "/z/keymap.json.zedxcode-backup-1700");
    assert_eq!(backup_path("/z/keymap.json", 1700, 2), "/z/keymap.json.zedxcode-backup-1700-2");
    assert_eq!(tmp_path("/z/keymap.json", 42), "/z/keymap.json.zedxcode-tmp-42");
}

#[test]
fn plain_json_is_left_as_it_is() {
    let plain = "{\"url\": \"https://x/*y*/\", \"t\": \"a, ]\", \"l\": [1, 2]}\n";
    assert_eq!(strip_jsonc(plain), plain);
}

#[test]
fn stripping_twice_is_stripping_once() {
    for text in [
        "{\"a\": 1, // b\n \"c\": [1, 2, /* d */ ], }",
        "[\"/* no */ , ]\", {},\n]",
        "// only\n[]",
    ] {
        assert!(parse_jsonc(text).is_ok());
        let once = strip_jsonc(text);
        assert_eq!(strip_jsonc(&once), once);
    }
    // of two commas in a row only the second goes, and the rest does not parse
    assert_eq!(strip_jsonc("[1,,]"), "[1,]");
    assert_eq!(strip_jsonc("[1,]"), "[1]");
    assert!(parse_jsonc("[1,,]").is_err());
}

#[test]
fn an_id_with_a_comma_settles_and_is_removed() {
    for id in ["keymap", "a,b", ",", "x, y"] {
        for original in ["[\n  1,\n]\n", "{\n}\n", "[1]\n"] {
            let block = if original.starts_with('[') { "  2\n" } else { "  \"k\": 2\n" };
            let (once, outcome) = merge_marker_block(original, id, block).unwrap();
            assert_eq!(outcome, MergeOutcome::Inserted);
            let (twice, outcome) = merge_marker_block(&once, id, block).unwrap();
            assert_eq!((twice.as_str(), outcome), (once.as_str(), MergeOutcome::Unchanged));
            let back = remove_marker_block(&once, id).unwrap().unwrap();
            if original != "[1]\n" {
                assert_eq!(back, original);
            }
            assert_eq!(remove_marker_block(&back, id).unwrap(), None);
        }
    }
}

#[test]
fn strict_json_is_left_as_it_is() {
    for text in [
        "{}",
        "[1, 2]",
        "{\"a\": \"// no comment\", \"b\": \"/* nor, ] this */\"}",
        "\"\\\" // ,}\"",
        " {\"url\":\r\n\t\"http://x\"} ",
    ] {
        let v = parse_strict(text).unwrap();
        assert_eq!(strip_jsonc(text), text);
        let w = parse_jsonc(text).unwrap();
        assert_eq!(v, w);
    }
    for text in ["[1,]", "[1] // x", "/* x */ 1", "[1]\u{00a0}", "", "{"] {
        assert!(parse_strict(text).is_err(), "{text}");
    }
    assert!(parse_jsonc("[1,] // x").is_ok());
}
