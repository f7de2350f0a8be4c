//! Small utilities: hashing, log lines, paths, pidfiles.

pub mod hash;
pub mod logging;
pub mod logging_laws;
pub mod name_map;
pub mod path_laws;
pub mod paths;
pub mod pidfile;
