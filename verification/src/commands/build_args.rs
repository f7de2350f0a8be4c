//! `xcode-dap build`: the arguments shared by build and run, and the exit code.

use crate::engine::config::BuildOutput;
use crate::engine::config::ConfigView;
use crate::engine::config::LaunchConfig;
use crate::engine::pipeline::PipelineError;
use crate::text::copy_opt;
use crate::text::opt_view;
use crate::text::owned;
use vstd::prelude::*;

verus! {

/// The arguments of `build` and `run`.
#[derive(Debug)]
pub struct BuildArgs {
    /// Path to `.xcworkspace` / `.xcodeproj`.
    pub workspace: String,
    /// Xcode scheme.
    pub scheme: String,
    /// Simulator device name or UDID.
    pub device: Option<String>,
    /// Simulator OS version.
    pub os: Option<String>,
    /// Build configuration.
    pub configuration: Option<String>,
    /// DerivedData directory.
    pub derived_data: Option<String>,
    /// Stream the full xcodebuild output.
    pub full_output: bool,
    /// Pump logs into the console.
    pub oslog: bool,
    /// Predicate for the log pump.
    pub oslog_predicate: Option<String>,
}

/// The configuration that the arguments stand for.
pub open spec fn config_of_args(a: BuildArgs) -> ConfigView {
    ConfigView {
        workspace: a.workspace@,
        scheme: a.scheme@,
        device: opt_view(a.device),
        os: opt_view(a.os),
        configuration: opt_view(a.configuration),
        preflight: None,
        oslog: a.oslog,
        oslog_predicate: opt_view(a.oslog_predicate),
        terminate_on_stop: true,
        build_output: if a.full_output {
            BuildOutput::Full
        } else {
            BuildOutput::Filtered
        },
        verbose_logging: false,
        derived_data: opt_view(a.derived_data),
    }
}

/// The exit code of a command whose pipeline failed.
pub open spec fn exit_code_of(err: PipelineError) -> i32 {
    match err {
        PipelineError::Build(b) => b.code,
        PipelineError::Other(_) => 1,
    }
}

impl BuildArgs {
    /// The configuration that the arguments stand for: no preflight, and the app
    /// ends with the session.
    pub fn to_config(&self) -> (r: LaunchConfig)
        ensures
            r@ == config_of_args(*self),
    {
        LaunchConfig {
            workspace: owned(self.workspace.as_str()),
            scheme: owned(self.scheme.as_str()),
            device: copy_opt(&self.device),
            os: copy_opt(&self.os),
            configuration: copy_opt(&self.configuration),
            preflight: None,
            oslog: self.oslog,
            oslog_predicate: copy_opt(&self.oslog_predicate),
            terminate_on_stop: true,
            build_output: if self.full_output {
                BuildOutput::Full
            } else {
                BuildOutput::Filtered
            },
            verbose_logging: false,
            derived_data: copy_opt(&self.derived_data),
        }
    }
}

/// How a command ends that the pipeline failed: with xcodebuild's own exit code
/// where xcodebuild failed, else with the general one.
pub fn exit_with_build_code(err: &PipelineError) -> (r: i32)
    ensures
        r == exit_code_of(*err),
{
    match err {
        PipelineError::Build(b) => b.code,
        PipelineError::Other(_) => 1,
    }
}

} // verus!
