//! `xcode-dap console`: the capture files of the current or latest run.

use crate::text::lines;
use crate::text::lines_of;
use crate::text::lossy_text;
use crate::text::owned;
use crate::text::str_eq;
use crate::text::texts;
use crate::text::utf8_lossy;
use crate::util::paths::join;
use crate::util::paths::joined;
use vstd::prelude::*;

verus! {

/// The arguments of `console`.
#[derive(Debug)]
pub struct ConsoleArgs {
    /// Simulator UDID; without it, the latest run.
    pub udid: Option<String>,
    /// Keep following the logs.
    pub follow: bool,
}

/// What stands in front of a line of a category.
pub fn prefix(category: &str) -> (r: &'static str)
    ensures
        r@ == if category@ == "stderr"@ {
            "[err]"@
        } else {
            "[out]"@
        },
{
    if str_eq(category, "stderr") {
        "[err]"
    } else {
        "[out]"
    }
}

/// A run directory, with the times of its two capture files.
pub struct RunDir {
    pub path: String,
    pub stdout_mtime: Option<i128>,
    pub stderr_mtime: Option<i128>,
}

/// When a run was written to last; never where it has no capture file.
pub open spec fn last_written(d: RunDir) -> Option<i128> {
    match (d.stdout_mtime, d.stderr_mtime) {
        (Some(a), Some(b)) => Some(
            if b >= a {
                b
            } else {
                a
            },
        ),
        (Some(a), None) => Some(a),
        (None, b) => b,
    }
}

/// Whether a run is the first of those that were written to last.
pub open spec fn is_latest(dirs: Seq<RunDir>, n: int, k: int) -> bool {
    &&& 0 <= k < n
    &&& last_written(dirs[k]) is Some
    &&& forall|i: int|
        0 <= i < n && last_written(#[trigger] dirs[i]) is Some ==> last_written(dirs[i])->0
            <= last_written(dirs[k])->0 && (i < k ==> last_written(dirs[i])->0 < last_written(
            dirs[k],
        )->0)
}

/// Whether no run has a capture file.
pub open spec fn none_written(dirs: Seq<RunDir>, n: int) -> bool {
    forall|i: int| 0 <= i < n ==> last_written(#[trigger] dirs[i]) is None
}

/// What is said where nothing has run yet.
pub open spec fn no_runs_text() -> Seq<char> {
    "no run logs found under ~/.zedxcode/run \u{2014} launch the app first (CMD+R in Zed, or `xcode-dap run`)"@
}

/// When a run was written to last.
fn written(d: &RunDir) -> (r: Option<i128>)
    ensures
        r == last_written(*d),
{
    match (d.stdout_mtime, d.stderr_mtime) {
        (Some(a), Some(b)) => if b >= a {
            Some(b)
        } else {
            Some(a)
        },
        (Some(a), None) => Some(a),
        (None, b) => b,
    }
}

/// The run directory whose capture files were written to last. Without a run root
/// there are no run directories.
pub fn newest_run_dir(dirs: &Vec<RunDir>) -> (r: Result<String, String>)
    ensures
        match r {
            Ok(p) => exists|k: int| #[trigger]
                is_latest(dirs@, dirs@.len() as int, k) && p@ == dirs@[k].path@,
            Err(e) => none_written(dirs@, dirs@.len() as int) && e@ == no_runs_text(),
        },
{
    let mut best: Option<(i128, usize)> = None;
    let mut i: usize = 0;
    while i < dirs.len()
        invariant
            i <= dirs.len(),
            match best {
                Some((t, k)) => is_latest(dirs@, i as int, k as int) && last_written(
                    dirs@[k as int],
                ) == Some(t),
                None => none_written(dirs@, i as int),
            },
        decreases dirs.len() - i,
    {
        if let Some(t) = written(&dirs[i]) {
            let newer = match best {
                Some((b, _)) => t > b,
                None => true,
            };
            if newer {
                best = Some((t, i));
            }
        }
        i = i + 1;
    }
    match best {
        Some((_, k)) => {
            assert(is_latest(dirs@, dirs@.len() as int, k as int));
            Ok(owned(dirs[k].path.as_str()))
        },
        None => Err(
            owned(
                "no run logs found under ~/.zedxcode/run \u{2014} launch the app first (CMD+R in Zed, or `xcode-dap run`)",
            ),
        ),
    }
}

/// The run directory of a simulator, where it exists.
pub fn run_dir_for(run_root: &str, udid: &str, is_dir: bool) -> (r: Result<String, String>)
    ensures
        match r {
            Ok(p) => is_dir && p@ == joined(run_root@, udid@),
            Err(e) => !is_dir && e@ == "no run logs for simulator "@ + udid@ + " ("@ + joined(
                run_root@,
                udid@,
            )
                + " does not exist) \u{2014} launch the app first (CMD+R in Zed, or `xcode-dap run`)"@,
        },
{
    let dir = join(run_root, udid);
    if is_dir {
        return Ok(dir);
    }
    let mut m = owned("no run logs for simulator ");
    m.append(udid);
    m.append(" (");
    m.append(dir.as_str());
    m.append(" does not exist) \u{2014} launch the app first (CMD+R in Zed, or `xcode-dap run`)");
    Err(m)
}

/// The lines of a capture file, each behind a prefix.
pub fn dump(bytes: &[u8], prefix: &str) -> (r: Vec<String>)
    ensures
        r@.len() == lines_of(lossy_text(bytes@)).len(),
        forall|i: int|
            0 <= i < r@.len() ==> #[trigger] r@[i]@ == prefix@ + " "@ + lines_of(
                lossy_text(bytes@),
            )[i],
{
    let text = utf8_lossy(bytes);
    let ls = lines(text.as_str());
    let ghost lv = lines_of(text@);
    let mut r: Vec<String> = Vec::new();
    let mut i: usize = 0;
    while i < ls.len()
        invariant
            i <= ls.len(),
            lv == texts(ls@),
            r@.len() == i,
            forall|k: int| 0 <= k < i ==> #[trigger] r@[k]@ == prefix@ + " "@ + lv[k],
        decreases ls.len() - i,
    {
        assert(lv[i as int] == ls@[i as int]@);
        let mut l = owned(prefix);
        l.append(" ");
        l.append(ls[i].as_str());
        r.push(l);
        i = i + 1;
    }
    r
}

} // verus!
