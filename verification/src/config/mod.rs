//! Configuration: the action lists of each policy and the CPU-load polling
//! settings. Parsing from TOML and the checks on floating-point thresholds
//! are done by the daemon; the models and their defaults live here.
pub mod config;
pub mod error;
pub mod model;
pub mod models;
