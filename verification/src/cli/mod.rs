//! The four command lines.

pub mod agent;
pub mod args;
pub mod config;
pub mod emit;
pub mod emit_laws;
pub mod encoding;
pub mod error;
pub mod exit;
pub mod guard;
pub mod guard_laws;
pub mod guard_report;
pub mod infer;
pub mod keyring;
pub mod knowledge;
pub mod notice;
pub mod ops;
pub mod query_laws;
pub mod read;
pub mod read_laws;
pub mod report;
pub mod report_laws;
pub mod retention;
pub mod run;
pub mod server;
pub mod settings_laws;
