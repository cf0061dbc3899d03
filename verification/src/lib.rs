//! Dependency-ordered rolling deployment: wave resolution over a unit
//! dependency graph, effective-configuration resolution, activation command
//! construction, bounded health polling, and the orchestrator state machine
//! that drives a deployment run to completion or to its first fatal error.

pub mod command;
pub mod config;
pub mod errors;
pub mod graph;
pub mod health;
pub mod networks;
pub mod numtext;
pub mod orchestrator;
pub mod plan;
pub mod variables;
pub mod volumes;
pub mod waves;

pub use config::SSHConfig;
