//! Lite stack-health: a handful of monitored domains, each at one of three levels,
//! rolled up into an overall level.
pub mod types;
pub mod registry;
pub mod supervisor;
