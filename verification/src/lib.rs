//! An edge reconciliation agent, as a library of decisions.
//!
//! The agent pulls the desired set of workloads for a site from a control
//! plane, compares it with what the local container runtime runs, and starts
//! what is missing. This crate holds every decision of that loop; the caller
//! performs the network requests, the runtime commands and the waiting, and
//! reports what came of them.

pub mod text;
pub mod properties;
pub mod model;
pub mod config;
pub mod control_plane;
pub mod runtime;
pub mod engine;
pub mod agent;
pub mod laws;
