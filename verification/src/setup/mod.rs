//! Editing the editor's configuration: user-level marker blocks and
//! per-project files.

pub mod build_server;
pub mod exclude;
pub mod jsonc;
pub mod merge_laws;
pub mod project;
pub mod setup_laws;
pub mod strip_laws;
pub mod user;
pub mod user_laws;
