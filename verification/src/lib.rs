//! Sampling, windowing and parsing logic of a terminal sparkline monitor.

pub mod metrics;
pub mod render;
pub mod sampling;
pub mod signal;
pub mod sys_info;
pub mod tick_loop;
pub mod window;
