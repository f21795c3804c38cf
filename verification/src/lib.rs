//! A scheduler-observation benchmark library: verified aggregation of
//! per-core placement samples for parallel work units, dispatch-plan
//! geometry for vectorized and scalar workloads, affinity-mask
//! construction, and orchestration decisions for external stress jobs.
//!
//! Kernel calls, thread pools, process spawning and chart rendering live
//! outside this crate; the library computes every decision and every
//! aggregate from plain values and proves its contracts.

pub mod affinity;
pub mod aggregator;
pub mod dispatch;
pub mod errors;
pub mod orchestrator;
pub mod sampler;
pub mod scenario;

pub use errors::BenchError;
