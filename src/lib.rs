//! Signed, time-bounded tokens from a subject, an audience and a compact
//! duration such as `14d`, and the request logic of a server that exposes a
//! directory tree: path resolution, listings and responses.

pub mod cli;
pub mod duration;
pub mod serve;
pub mod token;
