//! User-level setup: marker blocks in `~/.config/zed/keymap.json` and
//! `settings.json`.

use crate::setup::jsonc::alone_on_line;
use crate::setup::jsonc::comma_on_blank_line;
use crate::setup::jsonc::edit_error;
use crate::setup::jsonc::edit_failed;
use crate::setup::jsonc::end_text;
use crate::setup::jsonc::first_line;
use crate::setup::jsonc::insertion_defined;
use crate::setup::jsonc::jsonc_parsed;
use crate::setup::jsonc::last_closer;
use crate::setup::jsonc::lemma_line_end;
use crate::setup::jsonc::line_at;
use crate::setup::jsonc::line_end;
use crate::setup::jsonc::marker_region;
use crate::setup::jsonc::merge_marker_block;
use crate::setup::jsonc::merged;
use crate::setup::jsonc::parse_jsonc;
use crate::setup::jsonc::remove_marker_block;
use crate::setup::jsonc::removed;
use crate::setup::jsonc::start_marker;
use crate::setup::jsonc::start_text;
use crate::setup::jsonc::wanted_comma;
use crate::setup::jsonc::MergeOutcome;
use crate::setup::merge_laws::block_lines;
use crate::setup::merge_laws::comma_free;
use crate::setup::merge_laws::free_of_markers;
use crate::setup::merge_laws::lemma_comma_makes_none;
use crate::setup::merge_laws::lemma_merge_settles;
use crate::setup::merge_laws::lemma_remove_undoes_insert;
use crate::setup::merge_laws::one_line;
use crate::setup::strip_laws::lemma_insertion_defined;
use crate::text::chars_of;
use crate::text::contains;
use crate::text::has_infix;
use crate::text::in_context;
use crate::text::lemma_trim_end_bound;
use crate::text::lemma_trim_end_exact;
use crate::text::lemma_trim_piece;
use crate::text::occurs_at;
use crate::text::opt_str_view;
use crate::text::opt_view;
use crate::text::owned;
use crate::text::text_result;
use crate::text::trimmed;
use crate::text::with_context;
use crate::util::paths::join;
use crate::util::paths::joined;
use vstd::prelude::*;

verus! {

pub const KEYMAP_MARKER_ID: &'static str = "keymap";

pub const SETTINGS_MARKER_ID: &'static str = "settings";

/// Keymap entries merged into `keymap.json`.
///
/// `cmd-r` reruns the debug scenario, `cmd-b` and `cmd-shift-k` spawn the build
/// and clean tasks in the dock, `cmd-shift-o` opens the project symbols. The
/// second entry shadows the editor's own bindings for the last two, so that they
/// also work with editor focus.
pub const KEYMAP_BLOCK: &'static str = r#"  {
    "context": "Workspace",
    "bindings": {
      "cmd-r": "debugger::Rerun",
      "cmd-b": ["task::Spawn", { "task_name": "Xcode: Build", "reveal_target": "dock" }],
      "cmd-shift-k": ["task::Spawn", { "task_name": "Xcode: Clean", "reveal_target": "dock" }],
      "cmd-shift-o": "project_symbols::Toggle"
    }
  },
  {
    "context": "Editor && mode == full",
    "bindings": {
      "cmd-shift-k": ["task::Spawn", { "task_name": "Xcode: Clean", "reveal_target": "dock" }],
      "cmd-shift-o": "project_symbols::Toggle"
    }
  },"#;

/// Settings merged into `settings.json`: install the Swift extension.
pub const SETTINGS_BLOCK: &'static str = r#"  "auto_install_extensions": {
    "swift": true
  },"#;

/// The directory of the editor's user configuration: the override where there is
/// one, else `~/.config/zed`.
pub open spec fn config_dir(macos: bool, given: Option<Seq<char>>, home: Option<Seq<char>>) -> Result<
    Seq<char>,
    Seq<char>,
> {
    if !macos {
        Err("xcode-dap setup --user is macOS-only"@)
    } else {
        match (given, home) {
            (Some(d), _) => Ok(d),
            (None, Some(h)) => Ok(joined(joined(h, ".config"@), "zed"@)),
            (None, None) => Err("HOME is not set"@),
        }
    }
}

/// The directory of the editor's user configuration, from the values of
/// `ZEDXCODE_ZED_CONFIG_DIR` and `HOME`.
pub fn zed_config_dir(macos: bool, given: Option<&str>, home: Option<&str>) -> (r: Result<
    String,
    String,
>)
    ensures
        text_result(r) == config_dir(macos, opt_str_view(given), opt_str_view(home)),
{
    if !macos {
        return Err(owned("xcode-dap setup --user is macOS-only"));
    }
    match given {
        Some(d) => Ok(owned(d)),
        None => match home {
            Some(h) => Ok(join(join(h, ".config").as_str(), "zed")),
            None => Err(owned("HOME is not set")),
        },
    }
}

// ---------------------------------------------------------------------------
// installing
// ---------------------------------------------------------------------------

/// What to do about one file of the user configuration.
#[derive(Debug, PartialEq, Eq)]
pub enum FileStep {
    /// The user has settings of the same name: leave the file alone.
    LeaveAlone,
    /// Write this text where the outcome is not `Unchanged`.
    Merge(String, MergeOutcome),
}

/// The mathematical value of a [`FileStep`].
pub enum StepView {
    LeaveAlone,
    Merge(Seq<char>, MergeOutcome),
}

impl View for FileStep {
    type V = StepView;

    open spec fn view(&self) -> StepView {
        match self {
            FileStep::LeaveAlone => StepView::LeaveAlone,
            FileStep::Merge(t, o) => StepView::Merge(t@, *o),
        }
    }
}

/// What a file of the user configuration holds before the merge: a missing file
/// starts from a skeleton.
pub open spec fn file_text(existing: Option<Seq<char>>, skeleton: Seq<char>) -> Seq<char> {
    match existing {
        Some(t) => t,
        None => skeleton,
    }
}

/// The merge of `block` into the file at `path`.
pub open spec fn merge_step(text: Seq<char>, path: Seq<char>, id: Seq<char>, block: Seq<char>) -> Result<
    StepView,
    Seq<char>,
> {
    match merged(text, id, block) {
        Ok((t, o)) => Ok(StepView::Merge(t, o)),
        Err(e) => Err(edit_error(e, path, id)),
    }
}

/// What is done with `keymap.json`. A file that does not parse is not touched.
pub open spec fn keymap_step(text: Seq<char>, path: Seq<char>) -> Result<StepView, Seq<char>> {
    match jsonc_parsed(text) {
        Err(e) => Err(
            in_context(
                "keymap.json does not parse as JSONC \u{2014} fix it, then re-run setup"@,
                e,
            ),
        ),
        Ok(_) => merge_step(text, path, KEYMAP_MARKER_ID@, KEYMAP_BLOCK@),
    }
}

/// What is done with `settings.json`. A file that does not parse is not touched,
/// and neither is one that has `auto_install_extensions` of the user's own.
pub open spec fn settings_step(text: Seq<char>, path: Seq<char>) -> Result<StepView, Seq<char>> {
    match jsonc_parsed(text) {
        Err(e) => Err(
            in_context(
                "settings.json does not parse as JSONC \u{2014} fix it, then re-run setup"@,
                e,
            ),
        ),
        Ok(v) => if !has_infix(text, start_text(SETTINGS_MARKER_ID@)) && v.get(
            "auto_install_extensions"@,
        ) is Some {
            Ok(StepView::LeaveAlone)
        } else {
            merge_step(text, path, SETTINGS_MARKER_ID@, SETTINGS_BLOCK@)
        },
    }
}

/// The value of a step or of its error.
pub open spec fn step_result(r: Result<FileStep, String>) -> Result<StepView, Seq<char>> {
    match r {
        Ok(s) => Ok(s@),
        Err(e) => Err(e@),
    }
}

/// Merge `block` into the text of the file at `path`.
fn merge_into(text: &str, path: &str, id: &str, block: &str) -> (r: Result<FileStep, String>)
    requires
        marker_region(text@, id@) == Ok::<Option<(int, int)>, ()>(None) ==> insertion_defined(
            text@,
        ),
    ensures
        step_result(r) == merge_step(text@, path@, id@, block@),
{
    match merge_marker_block(text, id, block) {
        Ok((t, o)) => Ok(FileStep::Merge(t, o)),
        Err(e) => Err(edit_failed(e, path, id)),
    }
}

/// What to do with `keymap.json`, given what it holds.
pub fn setup_keymap(existing: Option<&str>, path: &str) -> (r: Result<FileStep, String>)
    ensures
        step_result(r) == keymap_step(file_text(opt_str_view(existing), "[]\n"@), path@),
{
    let text: &str = match existing {
        Some(t) => t,
        None => "[]\n",
    };
    match parse_jsonc(text) {
        Err(e) => Err(
            with_context(
                "keymap.json does not parse as JSONC \u{2014} fix it, then re-run setup",
                e.as_str(),
            ),
        ),
        Ok(_) => {
            proof {
                lemma_insertion_defined(text@);
            }
            merge_into(text, path, KEYMAP_MARKER_ID, KEYMAP_BLOCK)
        },
    }
}

/// What to do with `settings.json`, given what it holds.
pub fn setup_settings(existing: Option<&str>, path: &str) -> (r: Result<FileStep, String>)
    ensures
        step_result(r) == settings_step(file_text(opt_str_view(existing), "{}\n"@), path@),
{
    let text: &str = match existing {
        Some(t) => t,
        None => "{}\n",
    };
    let parsed = match parse_jsonc(text) {
        Err(e) => return Err(
            with_context(
                "settings.json does not parse as JSONC \u{2014} fix it, then re-run setup",
                e.as_str(),
            ),
        ),
        Ok(v) => v,
    };
    let marker = start_marker(SETTINGS_MARKER_ID);
    let cs = chars_of(text);
    if !contains(cs.as_slice(), marker.as_str()) && parsed.get("auto_install_extensions").is_some() {
        return Ok(FileStep::LeaveAlone);
    }
    proof {
        lemma_insertion_defined(text@);
    }
    merge_into(text, path, SETTINGS_MARKER_ID, SETTINGS_BLOCK)
}

/// The line printed after a merge.
pub open spec fn report_text(path: Seq<char>, outcome: MergeOutcome) -> Seq<char> {
    "\u{2713} "@ + path + match outcome {
        MergeOutcome::Inserted => ": zedxcode block installed (backup written alongside)"@,
        MergeOutcome::Replaced => ": zedxcode block updated (backup written alongside)"@,
        MergeOutcome::Unchanged => ": already up to date"@,
    }
}

/// The line printed after a merge.
pub fn report(path: &str, outcome: MergeOutcome) -> (r: String)
    ensures
        r@ == report_text(path@, outcome),
{
    let mut r = owned("\u{2713} ");
    r.append(path);
    match outcome {
        MergeOutcome::Inserted => r.append(
            ": zedxcode block installed (backup written alongside)",
        ),
        MergeOutcome::Replaced => r.append(": zedxcode block updated (backup written alongside)"),
        MergeOutcome::Unchanged => r.append(": already up to date"),
    }
    r
}

// ---------------------------------------------------------------------------
// removing
// ---------------------------------------------------------------------------

/// What to write and to print when the block of `id` is removed from the file at
/// `path`.
pub open spec fn removal(existing: Option<Seq<char>>, path: Seq<char>, id: Seq<char>) -> Result<
    (Option<Seq<char>>, Seq<char>),
    Seq<char>,
> {
    match existing {
        None => Ok((None, "\u{2013} "@ + path + ": not present, nothing to remove"@)),
        Some(t) => match removed(t, id) {
            Ok(Some(n)) => Ok((Some(n), "\u{2713} "@ + path + ": zedxcode block removed"@)),
            Ok(None) => Ok((None, "\u{2013} "@ + path + ": no zedxcode block found"@)),
            Err(e) => Err(e.text(id)),
        },
    }
}

/// What to write, where something is to be written, and the line to print when
/// the block of `marker_id` is removed from the file at `path`.
pub fn remove_block(existing: Option<&str>, path: &str, marker_id: &str) -> (r: Result<
    (Option<String>, String),
    String,
>)
    ensures
        match r {
            Ok((n, line)) => removal(opt_str_view(existing), path@, marker_id@) == Ok::<
                (Option<Seq<char>>, Seq<char>),
                Seq<char>,
            >((opt_view(n), line@)),
            Err(e) => removal(opt_str_view(existing), path@, marker_id@) == Err::<
                (Option<Seq<char>>, Seq<char>),
                Seq<char>,
            >(e@),
        },
{
    let (text, sign, what): (Option<String>, &str, &str) = match existing {
        None => (None, "\u{2013} ", ": not present, nothing to remove"),
        Some(t) => match remove_marker_block(t, marker_id) {
            Ok(Some(n)) => (Some(n), "\u{2713} ", ": zedxcode block removed"),
            Ok(None) => (None, "\u{2013} ", ": no zedxcode block found"),
            Err(e) => return Err(e.message(marker_id)),
        },
    };
    let mut line = owned(sign);
    line.append(path);
    line.append(what);
    Ok((text, line))
}

// ---------------------------------------------------------------------------
// laws
// ---------------------------------------------------------------------------

/// Whether a text holds no slash.
spec fn slash_free(s: Seq<char>) -> bool {
    forall|i: int| 0 <= i < s.len() ==> #[trigger] s[i] != '/'
}

/// Without a slash there is no marker.
proof fn lemma_no_marker(s: Seq<char>, m: Seq<char>, from: int)
    requires
        slash_free(s),
        m.len() > 0,
        m[0] == '/',
    ensures
        first_line(s, m, from) is None,
    decreases s.len() - from,
{
    if 0 <= from < s.len() {
        lemma_line_end(s, from);
        let l = line_at(s, from);
        let (a, b) = lemma_trim_piece(l);
        if trimmed(l) == m {
            assert(l.subrange(a, b)[0] == l[a]);
            assert(l[a] == s[from + a]);
        }
        lemma_no_marker(s, m, line_end(s, from));
    }
}

/// A block without a slash has no line that is a marker.
proof fn lemma_block_free(block: Seq<char>, id: Seq<char>)
    requires
        slash_free(block),
    ensures
        free_of_markers(block_lines(block), id),
{
    reveal_strlit("// >>> zedxcode:");
    reveal_strlit("// <<< zedxcode:");
    let p = |c: char| c == '\n';
    let n = lemma_trim_end_bound(block, p);
    lemma_trim_end_exact(block, n, p);
    let lines = block_lines(block);
    assert forall|i: int| 0 <= i < lines.len() implies #[trigger] lines[i] != '/' by {
        if i < n {
            assert(lines[i] == block[i]);
        }
    }
    assert(start_text(id)[0] == '/');
    assert(end_text(id)[0] == '/');
    lemma_no_marker(lines, start_text(id), 0);
    lemma_no_marker(lines, end_text(id), 0);
}

/// Neither block holds a slash.
proof fn lemma_blocks_slash_free()
    ensures
        slash_free(KEYMAP_BLOCK@),
        slash_free(SETTINGS_BLOCK@),
{
    reveal_strlit(
        r#"  {
    "context": "Workspace",
    "bindings": {
      "cmd-r": "debugger::Rerun",
      "cmd-b": ["task::Spawn", { "task_name": "Xcode: Build", "reveal_target": "dock" }],
      "cmd-shift-k": ["task::Spawn", { "task_name": "Xcode: Clean", "reveal_target": "dock" }],
      "cmd-shift-o": "project_symbols::Toggle"
    }
  },
  {
    "context": "Editor && mode == full",
    "bindings": {
      "cmd-shift-k": ["task::Spawn", { "task_name": "Xcode: Clean", "reveal_target": "dock" }],
      "cmd-shift-o": "project_symbols::Toggle"
    }
  },"#,
    );
    reveal_strlit(
        r#"  "auto_install_extensions": {
    "swift": true
  },"#,
    );
}

/// The ids of both blocks are one line without a comma.
proof fn lemma_ids_plain()
    ensures
        one_line(KEYMAP_MARKER_ID@) && comma_free(KEYMAP_MARKER_ID@),
        one_line(SETTINGS_MARKER_ID@) && comma_free(SETTINGS_MARKER_ID@),
{
    reveal_strlit("keymap");
    reveal_strlit("settings");
}

/// A line that the markers were found on holds the marker.
proof fn lemma_line_holds(s: Seq<char>, m: Seq<char>, from: int)
    requires
        first_line(s, m, from) is Some,
    ensures
        has_infix(s, m),
    decreases s.len() - from,
{
    lemma_line_end(s, from);
    let l = line_at(s, from);
    let (a, b) = lemma_trim_piece(l);
    if trimmed(l) == m {
        assert(s.subrange(from + a, from + b) =~= l.subrange(a, b));
        assert(occurs_at(s, m, from + a));
    } else {
        lemma_line_holds(s, m, line_end(s, from));
    }
}

/// Setting up the keymap again changes nothing, given that what the first run
/// wrote still parses.
pub proof fn lemma_keymap_settles(text: Seq<char>, path: Seq<char>)
    requires
        marker_region(text, KEYMAP_MARKER_ID@) == Ok::<Option<(int, int)>, ()>(None)
            ==> !comma_on_blank_line(text),
    ensures
        match keymap_step(text, path) {
            Ok(StepView::Merge(n, _)) => jsonc_parsed(n) is Ok ==> keymap_step(n, path) == Ok::<
                StepView,
                Seq<char>,
            >(StepView::Merge(n, MergeOutcome::Unchanged)),
            _ => true,
        },
{
    lemma_ids_plain();
    lemma_blocks_slash_free();
    lemma_block_free(KEYMAP_BLOCK@, KEYMAP_MARKER_ID@);
    if marker_region(text, KEYMAP_MARKER_ID@) == Ok::<Option<(int, int)>, ()>(None) {
        lemma_comma_makes_none(text, KEYMAP_MARKER_ID@);
    }
    lemma_merge_settles(text, KEYMAP_MARKER_ID@, KEYMAP_BLOCK@);
}

/// Setting up the settings again changes nothing, given that what the first run
/// wrote still parses.
pub proof fn lemma_settings_settle(text: Seq<char>, path: Seq<char>)
    requires
        marker_region(text, SETTINGS_MARKER_ID@) == Ok::<Option<(int, int)>, ()>(None)
            ==> !comma_on_blank_line(text),
    ensures
        match settings_step(text, path) {
            Ok(StepView::Merge(n, _)) => jsonc_parsed(n) is Ok ==> settings_step(n, path) == Ok::<
                StepView,
                Seq<char>,
            >(StepView::Merge(n, MergeOutcome::Unchanged)),
            _ => true,
        },
{
    lemma_ids_plain();
    lemma_blocks_slash_free();
    lemma_block_free(SETTINGS_BLOCK@, SETTINGS_MARKER_ID@);
    if marker_region(text, SETTINGS_MARKER_ID@) == Ok::<Option<(int, int)>, ()>(None) {
        lemma_comma_makes_none(text, SETTINGS_MARKER_ID@);
    }
    lemma_merge_settles(text, SETTINGS_MARKER_ID@, SETTINGS_BLOCK@);
    if let Ok(StepView::Merge(n, _)) = settings_step(text, path) {
        if marker_region(n, SETTINGS_MARKER_ID@) is Ok && marker_region(
            n,
            SETTINGS_MARKER_ID@,
        )->Ok_0 is Some {
            lemma_line_holds(n, start_text(SETTINGS_MARKER_ID@), 0);
        }
    }
}

/// Removing the block that setup put into a file gives the file back, where its
/// closer stands on a line of its own and the last entry has its comma.
pub proof fn lemma_setup_undone(text: Seq<char>, path: Seq<char>, id: Seq<char>, block: Seq<char>)
    requires
        (id == KEYMAP_MARKER_ID@ && block == KEYMAP_BLOCK@) || (id == SETTINGS_MARKER_ID@ && block
            == SETTINGS_BLOCK@),
        merged(text, id, block) matches Ok((_, o)) && o == MergeOutcome::Inserted,
        alone_on_line(text, last_closer(text, text.len() as int)->0),
        wanted_comma(text, last_closer(text, text.len() as int)->0) is None,
    ensures
        removal(Some(merged(text, id, block)->Ok_0.0), path, id) == Ok::<
            (Option<Seq<char>>, Seq<char>),
            Seq<char>,
        >((Some(text), "\u{2713} "@ + path + ": zedxcode block removed"@)),
{
    lemma_ids_plain();
    lemma_blocks_slash_free();
    lemma_block_free(block, id);
    lemma_remove_undoes_insert(text, id, block);
}

} // verus!
