//! `xcode-dap setup`: the arguments, and the questions asked.

use crate::setup::project::FlagsView;
use crate::setup::project::ProjectFlags;
use crate::text::copy_opt;
use crate::text::opt_view;
use crate::text::owned;
use crate::text::str_eq;
use crate::text::trim;
use crate::text::trimmed;
use vstd::prelude::*;

verus! {

/// The arguments of `setup`.
#[derive(Debug)]
pub struct SetupArgs {
    /// Set up a project directory.
    pub project: Option<String>,
    /// Set up the user-level blocks.
    pub user: bool,
    /// Assume yes for all questions.
    pub yes: bool,
    /// Remove the user-level blocks.
    pub remove: bool,
    /// Workspace or project file.
    pub workspace: Option<String>,
    /// Xcode scheme.
    pub scheme: Option<String>,
    /// Simulator device name or UDID.
    pub device: Option<String>,
    /// Simulator OS version.
    pub os: Option<String>,
    /// Command for a missing workspace.
    pub preflight: Option<String>,
    /// Pump logs into the console.
    pub oslog: bool,
    /// DerivedData directory.
    pub derived_data: Option<String>,
}

/// Whether one of the arguments that need a project is given.
pub open spec fn has_project_flag(a: SetupArgs) -> bool {
    a.workspace is Some || a.scheme is Some || a.device is Some || a.os is Some || a.preflight is Some
        || a.oslog || a.derived_data is Some
}

/// What is wrong with the arguments, or the warning about those that are ignored.
pub open spec fn checked_args(a: SetupArgs) -> Result<Option<Seq<char>>, Seq<char>> {
    if !a.user && a.project is None {
        Err(
            "nothing to do: pass --user and/or --project <dir> (see `xcode-dap setup --help`)"@,
        )
    } else if a.remove && a.project is Some {
        Err(
            "--remove only applies to --user marker blocks; delete the project's .zed/ files manually"@,
        )
    } else if a.project is None && has_project_flag(a) {
        Ok(
            Some(
                "warning: --workspace/--scheme/--device/--os/--preflight/--oslog/--derived-data apply only together with --project <dir>; ignoring them"@,
            ),
        )
    } else {
        Ok(None)
    }
}

/// What is wrong with the arguments, or the warning about those that are ignored.
pub fn check_args(args: &SetupArgs) -> (r: Result<Option<String>, String>)
    ensures
        match r {
            Ok(w) => checked_args(*args) == Ok::<Option<Seq<char>>, Seq<char>>(opt_view(w)),
            Err(e) => checked_args(*args) == Err::<Option<Seq<char>>, Seq<char>>(e@),
        },
{
    if !args.user && args.project.is_none() {
        return Err(
            owned(
                "nothing to do: pass --user and/or --project <dir> (see `xcode-dap setup --help`)",
            ),
        );
    }
    if args.remove && args.project.is_some() {
        return Err(
            owned(
                "--remove only applies to --user marker blocks; delete the project's .zed/ files manually",
            ),
        );
    }
    let project_flags = args.workspace.is_some() || args.scheme.is_some() || args.device.is_some()
        || args.os.is_some() || args.preflight.is_some() || args.oslog
        || args.derived_data.is_some();
    if args.project.is_none() && project_flags {
        return Ok(
            Some(
                owned(
                    "warning: --workspace/--scheme/--device/--os/--preflight/--oslog/--derived-data apply only together with --project <dir>; ignoring them",
                ),
            ),
        );
    }
    Ok(None)
}

/// Whether an answer agrees.
pub open spec fn agrees(answer: Seq<char>) -> bool {
    let a = trimmed(answer);
    a == "y"@ || a == "Y"@ || a == "yes"@ || a == "YES"@
}

/// Whether to go on: without asking, or where the answer agrees.
pub fn confirm(yes: bool, answer: &str) -> (r: bool)
    ensures
        r == (yes || agrees(answer@)),
{
    if yes {
        return true;
    }
    let a = trim(answer);
    let s = a.as_str();
    str_eq(s, "y") || str_eq(s, "Y") || str_eq(s, "yes") || str_eq(s, "YES")
}

/// The flags for the project setup.
pub fn project_flags(args: &SetupArgs) -> (r: ProjectFlags)
    ensures
        r@ == (FlagsView {
            workspace: opt_view(args.workspace),
            scheme: opt_view(args.scheme),
            device: opt_view(args.device),
            os: opt_view(args.os),
            preflight: opt_view(args.preflight),
            oslog: args.oslog,
            derived_data: opt_view(args.derived_data),
        }),
{
    ProjectFlags {
        workspace: copy_opt(&args.workspace),
        scheme: copy_opt(&args.scheme),
        device: copy_opt(&args.device),
        os: copy_opt(&args.os),
        preflight: copy_opt(&args.preflight),
        oslog: args.oslog,
        derived_data: copy_opt(&args.derived_data),
    }
}

} // verus!
