//! The subcommands.

pub mod build_args;
pub mod clean;
pub mod command_laws;
pub mod console;
pub mod doctor;
pub mod doctor_laws;
pub mod refresh;
pub mod run;
pub mod scenario;
pub mod select;
pub mod select_laws;
pub mod setup;
