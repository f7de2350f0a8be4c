//! Runtime selection overlay: `.zed/.zedx/selection.json`.
//!
//! Re-read on every build, run, clean and launch, so that a new selection
//! applies to the very next one without touching the scenario.

use crate::engine::config::ConfigView;
use crate::engine::config::LaunchConfig;
use crate::text::copy_opt;
use crate::text::opt_view;
use crate::text::owned;
use crate::text::push_text;
use crate::text::str_eq;
use crate::text::texts;
use crate::util::paths::join;
use crate::util::paths::joined;
use crate::util::paths::lemma_parent_shorter;
use crate::util::paths::parent;
use crate::util::paths::parent_of;
use vstd::prelude::*;

verus! {

/// The persisted selection. Absent fields fall through to the scenario.
#[derive(Debug, PartialEq, Eq)]
pub struct Selection {
    pub scheme: Option<String>,
    /// Simulator device name or UDID.
    pub device: Option<String>,
    /// Simulator OS version, written alongside `device`.
    pub os: Option<String>,
}

/// The mathematical value of a [`Selection`].
pub struct SelectionView {
    pub scheme: Option<Seq<char>>,
    pub device: Option<Seq<char>>,
    pub os: Option<Seq<char>>,
}

impl View for Selection {
    type V = SelectionView;

    open spec fn view(&self) -> SelectionView {
        SelectionView {
            scheme: opt_view(self.scheme),
            device: opt_view(self.device),
            os: opt_view(self.os),
        }
    }
}

impl Default for Selection {
    /// The empty selection.
    fn default() -> (r: Selection)
        ensures
            r@ == no_selection(),
    {
        Selection { scheme: None, device: None, os: None }
    }
}

/// The empty selection.
pub open spec fn no_selection() -> SelectionView {
    SelectionView { scheme: None, device: None, os: None }
}

impl Selection {
    /// Whether nothing is selected.
    pub fn is_empty(&self) -> (r: bool)
        ensures
            r == (self@ == no_selection()),
    {
        self.scheme.is_none() && self.device.is_none() && self.os.is_none()
    }
}

/// `<project>/.zed/.zedx/selection.json`.
pub fn selection_path(project_dir: &str) -> (r: String)
    ensures
        r@ == joined(joined(joined(project_dir@, ".zed"@), ".zedx"@), "selection.json"@),
{
    let zed = join(project_dir, ".zed");
    let zedx = join(zed.as_str(), ".zedx");
    join(zedx.as_str(), "selection.json")
}

/// The config with a selection laid over it. Picking a device replaces the
/// whole destination: `os` is taken from the selection too, even when absent.
/// A selection with only `os` narrows just the OS.
pub open spec fn overlaid_config(cfg: ConfigView, sel: SelectionView) -> ConfigView {
    ConfigView {
        scheme: match sel.scheme {
            Some(s) => s,
            None => cfg.scheme,
        },
        device: if sel.device is Some {
            sel.device
        } else {
            cfg.device
        },
        os: if sel.device is Some || sel.os is Some {
            sel.os
        } else {
            cfg.os
        },
        ..cfg
    }
}

/// Lay a selection over a config.
pub fn apply(cfg: &mut LaunchConfig, sel: &Selection)
    ensures
        final(cfg)@ == overlaid_config(old(cfg)@, sel@),
{
    if let Some(s) = &sel.scheme {
        cfg.scheme = owned(s.as_str());
    }
    if sel.device.is_some() {
        cfg.device = copy_opt(&sel.device);
        cfg.os = copy_opt(&sel.os);
    } else if sel.os.is_some() {
        cfg.os = copy_opt(&sel.os);
    }
}

/// Where a config runs, in words.
pub open spec fn destination_text(device: Option<Seq<char>>, os: Option<Seq<char>>) -> Seq<char> {
    match (device, os) {
        (Some(d), Some(o)) => d + " (iOS "@ + o + ")"@,
        (Some(d), None) => d,
        (None, Some(o)) => "auto (iOS "@ + o + ")"@,
        (None, None) => "auto (booted iPhone, else newest)"@,
    }
}

/// The one-line summary of what runs.
pub open spec fn description(cfg: ConfigView, from_selection: bool) -> Seq<char> {
    "Scheme: "@ + cfg.scheme + " | Destination: "@ + destination_text(cfg.device, cfg.os)
        + if from_selection {
        " (from selection)"@
    } else {
        ""@
    }
}

/// The one-line `Scheme: ... | Destination: ...` summary.
pub fn describe(cfg: &LaunchConfig, from_selection: bool) -> (r: String)
    ensures
        r@ == description(cfg@, from_selection),
{
    let mut destination = String::new();
    match (&cfg.device, &cfg.os) {
        (Some(d), Some(o)) => {
            destination.append(d.as_str());
            destination.append(" (iOS ");
            destination.append(o.as_str());
            destination.append(")");
        },
        (Some(d), None) => {
            destination.append(d.as_str());
        },
        (None, Some(o)) => {
            destination.append("auto (iOS ");
            destination.append(o.as_str());
            destination.append(")");
        },
        (None, None) => {
            destination.append("auto (booted iPhone, else newest)");
        },
    }
    assert(destination@ =~= destination_text(opt_view(cfg.device), opt_view(cfg.os)));
    let mut r = owned("Scheme: ");
    r.append(cfg.scheme.as_str());
    r.append(" | Destination: ");
    r.append(destination.as_str());
    r.append(
        if from_selection {
            " (from selection)"
        } else {
            ""
        },
    );
    r
}

/// Effective config for one run, with the line that tells the user what runs.
pub fn overlaid(cfg: &LaunchConfig, sel: &Selection) -> (r: (LaunchConfig, String))
    ensures
        r.0@ == overlaid_config(cfg@, sel@),
        r.1@ == description(overlaid_config(cfg@, sel@), sel@ != no_selection()),
{
    let mut eff = cfg.copy();
    apply(&mut eff, sel);
    let line = describe(&eff, !sel.is_empty());
    (eff, line)
}

/// The empty selection changes nothing.
pub proof fn lemma_empty_selection(cfg: ConfigView)
    ensures
        overlaid_config(cfg, no_selection()) == cfg,
{
}

/// Laying the same selection over twice is laying it over once.
pub proof fn lemma_overlay_idempotent(cfg: ConfigView, sel: SelectionView)
    ensures
        overlaid_config(overlaid_config(cfg, sel), sel) == overlaid_config(cfg, sel),
{
}

/// A picked device is never constrained by the OS of the config.
pub proof fn lemma_device_replaces_destination(a: ConfigView, b: ConfigView, sel: SelectionView)
    requires
        sel.device is Some,
    ensures
        overlaid_config(a, sel).device == overlaid_config(b, sel).device,
        overlaid_config(a, sel).os == overlaid_config(b, sel).os,
{
}

// ---------------------------------------------------------------------------
// the project directory
// ---------------------------------------------------------------------------

/// A directory and those above it, nearest first.
pub open spec fn upward(dir: Seq<char>) -> Seq<Seq<char>>
    decreases dir.len(),
{
    match parent_of(dir) {
        Some(p) => {
            proof {
                lemma_parent_shorter(dir);
            }
            seq![dir] + upward(p)
        },
        None => seq![dir],
    }
}

/// A directory and those above it, nearest first: where a `.zed` is looked for.
pub fn project_candidates(start: &str) -> (r: Vec<String>)
    ensures
        texts(r@) == upward(start@),
{
    let mut r: Vec<String> = Vec::new();
    let mut dir = owned(start);
    assert(texts(r@) + upward(start@) =~= upward(start@));
    loop
        invariant
            texts(r@) + upward(dir@) == upward(start@),
        decreases dir@.len(),
    {
        proof {
            lemma_parent_shorter(dir@);
        }
        let ghost done = texts(r@);
        push_text(&mut r, dir.as_str());
        match parent(dir.as_str()) {
            Some(p) => {
                assert(texts(r@) + upward(p@) =~= done + upward(dir@));
                dir = p;
            },
            None => {
                assert(texts(r@) =~= upward(start@));
                return r;
            },
        }
    }
}

/// The first of some directories that stands in a list.
pub open spec fn first_among(dirs: Seq<Seq<char>>, list: Seq<Seq<char>>, i: int) -> Option<Seq<char>>
    decreases dirs.len() - i,
{
    if i < 0 || i >= dirs.len() {
        None
    } else if list.contains(dirs[i]) {
        Some(dirs[i])
    } else {
        first_among(dirs, list, i + 1)
    }
}

/// Whether a text stands in a list.
fn among(list: &Vec<String>, s: &str) -> (r: bool)
    ensures
        r == texts(list@).contains(s@),
{
    let ghost lv = texts(list@);
    let mut i: usize = 0;
    while i < list.len()
        invariant
            i <= list.len(),
            lv == texts(list@),
            forall|k: int| 0 <= k < i ==> #[trigger] lv[k] != s@,
        decreases list.len() - i,
    {
        assert(lv[i as int] == list@[i as int]@);
        if str_eq(list[i].as_str(), s) {
            return true;
        }
        i = i + 1;
    }
    false
}

/// Walk up from `start` to the first directory that holds a `.zed`, given the
/// directories that do.
pub fn find_project_dir(start: &str, with_zed: &Vec<String>) -> (r: Option<String>)
    ensures
        opt_view(r) == first_among(upward(start@), texts(with_zed@), 0),
{
    let dirs = project_candidates(start);
    let ghost dv = upward(start@);
    let ghost zv = texts(with_zed@);
    let mut i: usize = 0;
    while i < dirs.len()
        invariant
            i <= dirs.len(),
            dv == texts(dirs@),
            dv == upward(start@),
            zv == texts(with_zed@),
            first_among(dv, zv, 0) == first_among(dv, zv, i as int),
        decreases dirs.len() - i,
    {
        assert(dv[i as int] == dirs@[i as int]@);
        if among(with_zed, dirs[i].as_str()) {
            return Some(owned(dirs[i].as_str()));
        }
        i = i + 1;
    }
    None
}

} // verus!
