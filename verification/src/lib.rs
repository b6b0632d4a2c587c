//! dvr: a source-control daemon on top of jj, and the client that talks to it.
//!
//! The crate holds what the daemon and the client decide: which commits a log
//! shows and in what order, what a prefix names, when a push is refused, which
//! repo a path belongs to, what a reply says. Work that touches the disk, the
//! network, git or the jj store is named as an action for a caller to perform;
//! what came of it is handed back as an event.

pub mod client;
pub mod clones;
pub mod commands;
pub mod commits;
pub mod daemon;
pub mod describe;
pub mod engine;
pub mod error;
pub mod files;
pub mod git;
pub mod git_import;
pub mod ids;
pub mod laws;
pub mod lists;
pub mod ops;
pub mod others;
pub mod paths;
pub mod proto;
pub mod push;
pub mod registry;
pub mod reload;
pub mod routes;
pub mod settings;
pub mod snapshot;
pub mod sort;
pub mod state;
pub mod status;
pub mod text;
pub mod watcher;
pub mod workspace_ops;
