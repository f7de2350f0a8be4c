//! What is put into the user's keymap and settings, and what is told of it.

use crate::json::JsonView;
use crate::setup::jsonc::jsonc_parsed;
use crate::setup::jsonc::merged;
use crate::setup::jsonc::removed;
use crate::setup::jsonc::start_text;
use crate::setup::jsonc::MergeOutcome;
use crate::setup::user::config_dir;
use crate::setup::user::file_text;
use crate::setup::user::keymap_step;
use crate::setup::user::removal;
use crate::setup::user::report_text;
use crate::setup::user::settings_step;
use crate::setup::user::KEYMAP_BLOCK;
use crate::setup::user::SETTINGS_BLOCK;
use crate::setup::user::StepView;
use crate::text::has_infix;
use crate::text::has_prefix;
use crate::text::has_suffix;
use crate::text::occurs_at;
use crate::util::paths::joined;
use vstd::prelude::*;

verus! {

/// The keys run what they say: building and cleaning spawn the tasks of those names, and
/// running again reruns the debug session.
pub proof fn lemma_key_bindings()
    ensures
        has_infix(KEYMAP_BLOCK@, "\"cmd-r\": \"debugger::Rerun\""@),
        has_infix(
            KEYMAP_BLOCK@,
            "\"cmd-b\": [\"task::Spawn\", { \"task_name\": \"Xcode: Build\""@,
        ),
        has_infix(
            KEYMAP_BLOCK@,
            "\"cmd-shift-k\": [\"task::Spawn\", { \"task_name\": \"Xcode: Clean\""@,
        ),
        has_infix(KEYMAP_BLOCK@, "\"cmd-shift-o\": \"project_symbols::Toggle\""@),
        has_infix(SETTINGS_BLOCK@, "\"auto_install_extensions\": {\n    \"swift\": true\n  }"@),
{
    reveal_strlit(
        r#"  {
    "context": "Workspace",
    "bindings": {
      "cmd-r": "debugger::Rerun",
      "cmd-b": ["task::Spawn", { "task_name": "Xcode: Build", "reveal_target": "dock" }],
      "cmd-shift-k": ["task::Spawn", { "task_name": "Xcode: Clean", "reveal_target": "dock" }],
      "cmd-shift-o": "project_symbols::Toggle"
    }
  },
  {
    "context": "Editor && mode == full",
    "bindings": {
      "cmd-shift-k": ["task::Spawn", { "task_name": "Xcode: Clean", "reveal_target": "dock" }],
      "cmd-shift-o": "project_symbols::Toggle"
    }
  },"#,
    );
    reveal_strlit(
        r#"  "auto_install_extensions": {
    "swift": true
  },"#,
    );
    reveal_strlit("\"cmd-r\": \"debugger::Rerun\"");
    reveal_strlit("\"cmd-b\": [\"task::Spawn\", { \"task_name\": \"Xcode: Build\"");
    reveal_strlit("\"cmd-shift-k\": [\"task::Spawn\", { \"task_name\": \"Xcode: Clean\"");
    reveal_strlit("\"cmd-shift-o\": \"project_symbols::Toggle\"");
    reveal_strlit("\"auto_install_extensions\": {\n    \"swift\": true\n  }");
    let k = KEYMAP_BLOCK@;
    assert(k.subrange(56, 82) =~= "\"cmd-r\": \"debugger::Rerun\""@);
    assert(occurs_at(k, "\"cmd-r\": \"debugger::Rerun\""@, 56));
    assert(k.subrange(90, 144)
        =~= "\"cmd-b\": [\"task::Spawn\", { \"task_name\": \"Xcode: Build\""@);
    assert(occurs_at(
        k,
        "\"cmd-b\": [\"task::Spawn\", { \"task_name\": \"Xcode: Build\""@,
        90,
    ));
    assert(k.subrange(180, 240)
        =~= "\"cmd-shift-k\": [\"task::Spawn\", { \"task_name\": \"Xcode: Clean\""@);
    assert(occurs_at(
        k,
        "\"cmd-shift-k\": [\"task::Spawn\", { \"task_name\": \"Xcode: Clean\""@,
        180,
    ));
    assert(k.subrange(276, 316) =~= "\"cmd-shift-o\": \"project_symbols::Toggle\""@);
    assert(occurs_at(k, "\"cmd-shift-o\": \"project_symbols::Toggle\""@, 276));
    let s = SETTINGS_BLOCK@;
    let e = "\"auto_install_extensions\": {\n    \"swift\": true\n  }"@;
    assert(s.subrange(2, 52) =~= e);
    assert(occurs_at(s, e, 2));
}

/// The directory of Zed's configuration is the given one, else that of the home directory,
/// and on another system than macOS there is none.
pub proof fn lemma_config_directory(given: Seq<char>, home: Option<Seq<char>>, h: Seq<char>)
    ensures
        config_dir(true, Some(given), home) == Ok::<Seq<char>, Seq<char>>(given),
        config_dir(true, None, Some(h)) == Ok::<Seq<char>, Seq<char>>(
            joined(joined(h, ".config"@), "zed"@),
        ),
        config_dir(true, None, None) is Err,
        config_dir(false, Some(given), home) is Err,
        config_dir(false, None, home) is Err,
{
}

/// A keymap or settings file that cannot be read is left as it is, with an error that says
/// what is wrong with it.
pub proof fn lemma_unreadable_left(text: Seq<char>, path: Seq<char>)
    ensures
        jsonc_parsed(text) matches Err(e) ==> {
            &&& keymap_step(text, path) matches Err(t) && has_suffix(t, e) && has_prefix(
                t,
                "keymap.json"@,
            )
            &&& settings_step(text, path) matches Err(t) && has_suffix(t, e) && has_prefix(
                t,
                "settings.json"@,
            )
        },
{
    reveal_strlit("keymap.json");
    reveal_strlit("settings.json");
    reveal_strlit("keymap.json does not parse as JSONC \u{2014} fix it, then re-run setup");
    reveal_strlit("settings.json does not parse as JSONC \u{2014} fix it, then re-run setup");
    if let Err(e) = jsonc_parsed(text) {
        let k = keymap_step(text, path)->Err_0;
        let s = settings_step(text, path)->Err_0;
        assert(k.subrange(k.len() - e.len(), k.len() as int) =~= e);
        assert(s.subrange(s.len() - e.len(), s.len() as int) =~= e);
        assert(k.subrange(0, 11) =~= "keymap.json"@);
        assert(s.subrange(0, 13) =~= "settings.json"@);
    }
}

/// Settings that already say which extensions to install are not touched, unless the entry
/// is this program's own.
pub proof fn lemma_own_choice_kept(text: Seq<char>, path: Seq<char>, v: JsonView)
    requires
        jsonc_parsed(text) == Ok::<JsonView, Seq<char>>(v),
    ensures
        v.get("auto_install_extensions"@) is Some && !has_infix(text, start_text("settings"@))
            ==> settings_step(text, path) == Ok::<StepView, Seq<char>>(StepView::LeaveAlone),
        v.get("auto_install_extensions"@) is None || has_infix(text, start_text("settings"@))
            ==> settings_step(text, path) != Ok::<StepView, Seq<char>>(StepView::LeaveAlone),
        v.get("auto_install_extensions"@) is None || has_infix(text, start_text("settings"@)) ==> (
        merged(text, "settings"@, SETTINGS_BLOCK@) matches Ok((t, o)) ==> settings_step(text, path)
            == Ok::<StepView, Seq<char>>(StepView::Merge(t, o))),
        merged(text, "keymap"@, KEYMAP_BLOCK@) matches Ok((t, o)) ==> keymap_step(text, path)
            == Ok::<StepView, Seq<char>>(StepView::Merge(t, o)),
{
}

/// A file that is there is worked on as it is.
pub proof fn lemma_existing_kept(existing: Seq<char>, skeleton: Seq<char>)
    ensures
        file_text(Some(existing), skeleton) == existing,
        file_text(None, skeleton) == skeleton,
{
}

/// The report names the file, and tells apart what was done to it.
pub proof fn lemma_outcome_told(path: Seq<char>)
    ensures
        report_text(path, MergeOutcome::Inserted) == "\u{2713} "@ + path
            + ": zedxcode block installed (backup written alongside)"@,
        report_text(path, MergeOutcome::Replaced) == "\u{2713} "@ + path
            + ": zedxcode block updated (backup written alongside)"@,
        report_text(path, MergeOutcome::Unchanged) == "\u{2713} "@ + path
            + ": already up to date"@,
{
}

/// Removing from a file that is not there, or that holds no block, changes nothing and is no
/// error.
pub proof fn lemma_nothing_to_remove(path: Seq<char>, id: Seq<char>, text: Seq<char>)
    ensures
        removal(None, path, id) matches Ok((n, line)) && n is None && has_infix(line, path),
        removed(text, id) matches Ok(None) ==> (removal(Some(text), path, id) matches Ok((n, line))
            && n is None && has_infix(line, path)),
        removed(text, id) matches Ok(Some(t)) ==> (removal(Some(text), path, id) matches Ok((n, line))
            && n == Some(t) && has_infix(line, path)),
        removed(text, id) is Err ==> removal(Some(text), path, id) is Err,
{
    reveal_strlit("\u{2013} ");
    reveal_strlit("\u{2713} ");
    let a = "\u{2013} "@ + path + ": not present, nothing to remove"@;
    assert(a.subrange(2, 2 + path.len() as int) =~= path);
    assert(occurs_at(a, path, 2));
    let b = "\u{2013} "@ + path + ": no zedxcode block found"@;
    assert(b.subrange(2, 2 + path.len() as int) =~= path);
    assert(occurs_at(b, path, 2));
    let c = "\u{2713} "@ + path + ": zedxcode block removed"@;
    assert(c.subrange(2, 2 + path.len() as int) =~= path);
    assert(occurs_at(c, path, 2));
}

} // verus!
