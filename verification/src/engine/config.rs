//! Scenario configuration.

use crate::text::copy_opt;
use crate::text::opt_view;
use crate::text::owned;
use vstd::prelude::*;

verus! {

/// Build-log verbosity (`"buildOutput"` in scenario JSON).
#[derive(Clone, Copy, Debug, PartialEq, Eq, Structural)]
pub enum BuildOutput {
    /// Phase headers, diagnostics and the final result only (default).
    Filtered,
    /// Full xcodebuild output.
    Full,
}

impl Default for BuildOutput {
    fn default() -> (r: BuildOutput)
        ensures
            r == BuildOutput::Filtered,
    {
        BuildOutput::Filtered
    }
}

/// Flattened scenario `config`: the `arguments` of the `launch` request.
#[derive(Debug)]
pub struct LaunchConfig {
    /// Path to `.xcworkspace` (or `.xcodeproj`).
    pub workspace: String,
    /// Xcode scheme to build and run.
    pub scheme: String,
    /// Simulator device name or UDID. `None` prefers the booted iPhone, else
    /// the newest available one.
    pub device: Option<String>,
    /// Optional simulator OS version narrowing.
    pub os: Option<String>,
    /// Build configuration; `None` is the scheme's default.
    pub configuration: Option<String>,
    /// Project-generation command for a missing workspace.
    pub preflight: Option<String>,
    /// Pump `log stream` output into the console.
    pub oslog: bool,
    /// Custom predicate for the log pump.
    pub oslog_predicate: Option<String>,
    /// Terminate the app when the debug session stops.
    pub terminate_on_stop: bool,
    /// Build-log verbosity in the console.
    pub build_output: BuildOutput,
    /// Log this session at `trace` verbosity.
    pub verbose_logging: bool,
    /// Explicit DerivedData directory.
    pub derived_data: Option<String>,
}

/// The mathematical value of a [`LaunchConfig`].
pub struct ConfigView {
    pub workspace: Seq<char>,
    pub scheme: Seq<char>,
    pub device: Option<Seq<char>>,
    pub os: Option<Seq<char>>,
    pub configuration: Option<Seq<char>>,
    pub preflight: Option<Seq<char>>,
    pub oslog: bool,
    pub oslog_predicate: Option<Seq<char>>,
    pub terminate_on_stop: bool,
    pub build_output: BuildOutput,
    pub verbose_logging: bool,
    pub derived_data: Option<Seq<char>>,
}

impl View for LaunchConfig {
    type V = ConfigView;

    open spec fn view(&self) -> ConfigView {
        ConfigView {
            workspace: self.workspace@,
            scheme: self.scheme@,
            device: opt_view(self.device),
            os: opt_view(self.os),
            configuration: opt_view(self.configuration),
            preflight: opt_view(self.preflight),
            oslog: self.oslog,
            oslog_predicate: opt_view(self.oslog_predicate),
            terminate_on_stop: self.terminate_on_stop,
            build_output: self.build_output,
            verbose_logging: self.verbose_logging,
            derived_data: opt_view(self.derived_data),
        }
    }
}

impl LaunchConfig {
    /// An independent copy.
    pub fn copy(&self) -> (r: LaunchConfig)
        ensures
            r@ == self@,
    {
        LaunchConfig {
            workspace: owned(self.workspace.as_str()),
            scheme: owned(self.scheme.as_str()),
            device: copy_opt(&self.device),
            os: copy_opt(&self.os),
            configuration: copy_opt(&self.configuration),
            preflight: copy_opt(&self.preflight),
            oslog: self.oslog,
            oslog_predicate: copy_opt(&self.oslog_predicate),
            terminate_on_stop: self.terminate_on_stop,
            build_output: self.build_output,
            verbose_logging: self.verbose_logging,
            derived_data: copy_opt(&self.derived_data),
        }
    }
}

} // verus!
