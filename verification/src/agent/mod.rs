//! The sidecar: what it decides about a record or a read on its way to the service.

pub mod error;
pub mod laws;
pub mod listener;
pub mod proxy;
pub mod sidecar;
pub mod spool;
pub mod upstream;
