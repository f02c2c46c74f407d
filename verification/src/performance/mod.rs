//! Performance monitoring: tick counters, process event metrics and a profiler.

pub mod metrics;
pub mod process_metrics;
pub mod profiler;
