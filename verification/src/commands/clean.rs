//! `xcode-dap clean`.

use crate::engine::config::BuildOutput;
use crate::engine::config::ConfigView;
use crate::engine::config::LaunchConfig;
use crate::engine::xcodebuild::BuildFailed;
use crate::text::copy_opt;
use crate::text::opt_view;
use crate::text::owned;
use vstd::prelude::*;

verus! {

/// The arguments of `clean`.
#[derive(Debug)]
pub struct CleanArgs {
    /// Path to `.xcworkspace` / `.xcodeproj`.
    pub workspace: String,
    /// Xcode scheme.
    pub scheme: String,
    /// Build configuration.
    pub configuration: Option<String>,
    /// DerivedData directory.
    pub derived_data: Option<String>,
}

/// The configuration that the arguments stand for.
pub open spec fn config_of_clean(args: CleanArgs) -> ConfigView {
    ConfigView {
        workspace: args.workspace@,
        scheme: args.scheme@,
        device: None,
        os: None,
        configuration: opt_view(args.configuration),
        preflight: None,
        oslog: false,
        oslog_predicate: None,
        terminate_on_stop: true,
        build_output: BuildOutput::Filtered,
        verbose_logging: false,
        derived_data: opt_view(args.derived_data),
    }
}

/// The configuration that the arguments stand for; a workspace that does not
/// exist cannot be cleaned.
pub fn clean_config(args: &CleanArgs, workspace_exists: bool) -> (r: Result<LaunchConfig, String>)
    ensures
        match r {
            Ok(c) => workspace_exists && c@ == config_of_clean(*args),
            Err(e) => !workspace_exists && e@ == "workspace "@ + args.workspace@
                + " not found \u{2014} nothing to clean\nhint: check --workspace, or regenerate the project (`xcode-dap refresh`)"@,
        },
{
    if !workspace_exists {
        let mut m = owned("workspace ");
        m.append(args.workspace.as_str());
        m.append(
            " not found \u{2014} nothing to clean\nhint: check --workspace, or regenerate the project (`xcode-dap refresh`)",
        );
        return Err(m);
    }
    Ok(
        LaunchConfig {
            workspace: owned(args.workspace.as_str()),
            scheme: owned(args.scheme.as_str()),
            device: None,
            os: None,
            configuration: copy_opt(&args.configuration),
            preflight: None,
            oslog: false,
            oslog_predicate: None,
            terminate_on_stop: true,
            build_output: BuildOutput::Filtered,
            verbose_logging: false,
            derived_data: copy_opt(&args.derived_data),
        },
    )
}

/// How `xcodebuild clean` came out: a failure carries its exit code, and no build
/// log.
pub fn clean_result(success: bool, code: Option<i32>) -> (r: Result<(), BuildFailed>)
    ensures
        r is Ok <==> success,
        r matches Err(b) ==> {
            &&& b.code == match code {
                Some(c) => c,
                None => 1i32,
            }
            &&& b.errors@.len() == 0
            &&& b.log_path is None
        },
{
    if success {
        Ok(())
    } else {
        let mut b = BuildFailed::default();
        b.code = match code {
            Some(c) => c,
            None => 1,
        };
        Err(b)
    }
}

} // verus!
