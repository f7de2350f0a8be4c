//! The build, install and launch engine.

pub mod compile_store;
pub mod config;
pub mod consoles;
pub mod disk;
pub mod log_laws;
pub mod log_manifest;
pub mod parse_laws;
pub mod pipeline;
pub mod pipeline_laws;
pub mod selection;
pub mod shell_words;
pub mod simctl;
pub mod simulator_laws;
pub mod slf;
pub mod store_laws;
pub mod xcactivitylog;
pub mod xcodebuild;
pub mod xcodebuild_laws;
