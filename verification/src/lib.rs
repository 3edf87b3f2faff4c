//! The command line and the sidecar of a record store.
//!
//! [`cli`] holds what the binaries decide: what their settings come to, what a request says, what a
//! report reads like and which code the process exits with. [`agent`] holds what the sidecar
//! decides about a record or a read on its way to the service. Reading files, talking to sockets
//! and running the store itself stay with the programs around this library; every function here is
//! a function of plain values.

pub mod agent;
pub mod cli;
pub mod contract;
pub mod hexed;
pub mod json;
pub mod path;
pub mod text;
pub mod text_laws;
