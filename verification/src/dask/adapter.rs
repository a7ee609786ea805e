//! What the Dask backend reports to the job system.

use vstd::prelude::*;

use crate::dask::types::ClusterHealth;
use crate::jobs::models::{JobStatus, SchedulerCapabilities};

verus! {

/// What the Dask backend can do: Python, with fault tolerance.
pub fn dask_capabilities() -> (c: SchedulerCapabilities)
    ensures
        c == (SchedulerCapabilities {
            supports_python: true,
            supports_actors: false,
            supports_dags: false,
            supports_gpu: false,
            supports_fault_tolerance: true,
            supports_autoscaling: false,
            supports_streaming: false,
        }),
{
    SchedulerCapabilities {
        supports_python: true,
        supports_actors: false,
        supports_dags: false,
        supports_gpu: false,
        supports_fault_tolerance: true,
        supports_autoscaling: false,
        supports_streaming: false,
    }
}

/// A cluster's health as a lowercase word.
pub open spec fn health_word(h: ClusterHealth) -> Seq<char> {
    match h {
        ClusterHealth::Healthy => "healthy"@,
        ClusterHealth::Degraded => "degraded"@,
        ClusterHealth::Unhealthy => "unhealthy"@,
        ClusterHealth::Unknown => "unknown"@,
    }
}

pub fn health_label(h: ClusterHealth) -> (r: String)
    ensures
        r@ == health_word(h),
{
    match h {
        ClusterHealth::Healthy => String::from_str("healthy"),
        ClusterHealth::Degraded => String::from_str("degraded"),
        ClusterHealth::Unhealthy => String::from_str("unhealthy"),
        ClusterHealth::Unknown => String::from_str("unknown"),
    }
}

/// The status of a finished Dask job.
pub fn outcome_status(success: bool) -> (s: JobStatus)
    ensures
        s == (if success {
            JobStatus::Completed
        } else {
            JobStatus::Failed
        }),
{
    if success {
        JobStatus::Completed
    } else {
        JobStatus::Failed
    }
}

/// A job's error list from an optional error.
pub fn errors_from(error: Option<String>) -> (r: Vec<String>)
    ensures
        r@ == match error {
            Some(e) => seq![e],
            None => Seq::<String>::empty(),
        },
{
    let mut r: Vec<String> = Vec::new();
    match error {
        Some(e) => {
            r.push(e);
        },
        None => {},
    }
    r
}

/// The refusal of an MPI launch sent to Dask.
pub fn mpi_entry_refusal() -> (m: &'static str)
    ensures
        m@ == "MpiExecutable jobs require the MPI scheduler"@,
{
    "MpiExecutable jobs require the MPI scheduler"
}

} // verus!
