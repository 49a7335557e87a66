//! Sampling of cumulative CPU, thread and energy counters, and the
//! attribution of each core's activity to the threads of one process.

pub mod attribution;
pub mod config;
pub mod control;
pub mod dataset;
pub mod grouping;
pub mod parse;
pub mod processing;
pub mod rate;
pub mod record;
pub mod sample;
pub mod sampler;
pub mod series;
pub mod source;
pub mod window;
