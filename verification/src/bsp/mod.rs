//! The build server that the language server talks to: file URIs, the message
//! dispatch, and what keeps its compile store fresh.

pub mod ingest;
pub mod server;
pub mod server_laws;
pub mod session_laws;
pub mod uri;
pub mod uri_laws;
