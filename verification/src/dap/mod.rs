//! The debug-adapter proxy: framing, message inspection, routing.

pub mod framing;
pub mod framing_laws;
pub mod peek;
pub mod peek_laws;
pub mod proxy;
pub mod proxy_laws;
