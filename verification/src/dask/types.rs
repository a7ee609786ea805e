//! Shared Dask plugin types.

use vstd::prelude::*;

verus! {

/// State of a locally managed Dask component (scheduler or worker process).
#[derive(Debug, Clone, Copy, PartialEq, Eq, Structural)]
pub enum ComponentStatus {
    Stopped,
    Starting,
    Running,
    Stopping,
    Error,
    Unknown,
}

/// Overall health of the Dask cluster as seen from this node.
#[derive(Debug, Clone, Copy, PartialEq, Eq, Structural)]
pub enum ClusterHealth {
    Healthy,
    Degraded,
    Unhealthy,
    Unknown,
}

/// State of a background Python process as reported by the runtime.
#[derive(Debug, Clone, Copy, PartialEq, Eq, Structural)]
pub enum ProcessStatus {
    Starting,
    Running,
    Exited,
    Failed,
    Stopped,
}

/// Outcome of running a catalog example. The timing ratios and the detail
/// document travel beside it in the application layer.
#[derive(Debug, Clone)]
pub struct ExampleJobResult {
    pub example_id: String,
    pub title: String,
    pub success: bool,
    pub execution_time_ms: u64,
    pub workers_used: usize,
    pub result_summary: String,
    pub error: Option<String>,
}

} // verus!
