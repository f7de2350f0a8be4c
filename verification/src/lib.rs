//! Build, launch and debug Xcode simulator apps from the Zed editor.

pub mod bsp;
pub mod commands;
pub mod dap;
pub mod engine;
pub mod extension;
pub mod extension_laws;
pub mod json;
pub mod limit_laws;
pub mod message_laws;
pub mod number;
pub mod order;
pub mod setup;
pub mod text;
pub mod text_laws;
pub mod util;
pub mod view_laws;
