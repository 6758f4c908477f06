//! Verified core of a local scratchpad daemon: external source marks,
//! anchored threads, scratch artifacts, settings and editor helpers.

pub mod text;
pub mod cache;
pub mod models;
pub mod paths;
pub mod anchoring;
pub mod marks;
pub mod rpc;
pub mod codex_sessions;
pub mod threads;
pub mod scratch;
pub mod acp;
pub mod lsp;
pub mod settings;
pub mod runtime;
pub mod daemon_lock;
pub mod state;
pub mod parser;
pub mod completion;
pub mod cli;
pub mod dashboard;
pub mod requests;
pub mod syntax;
pub mod json;
pub mod lsp_session;
pub mod dispatch;
pub mod editor_launch;
