//! Request/response correlation bridge between an embedded web UI and an
//! external text-to-speech tool: argument building, outcome rules and
//! in-flight request tracking.

pub mod decimal;
pub mod request;
pub mod invocation;
pub mod outcome;
pub mod bridge;
pub mod entry;
