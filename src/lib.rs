//! Synthetic distributed-tracing data: identifiers, random span trees,
//! trace and segment orchestration, record assembly and output pacing.
pub mod config;
pub mod ids;
mod random;
pub mod throttle;
pub mod tags;
pub mod tree;
pub mod generator;
