//! What the user-facing commands compute from backend answers.

use vstd::prelude::*;

use crate::dask::types::ExampleJobResult;
use crate::jobs::models::JobStatus;
use crate::network::cluster::ClusterSummary;

verus! {

/// An example run reported from the job that ran it: successful when the
/// job completed, with the job's first error and its summary (empty when it
/// has none).
pub fn example_result_from_job(
    example_id: &str,
    title: &str,
    status: JobStatus,
    execution_time_ms: u64,
    workers_used: usize,
    result_summary: Option<String>,
    errors: &Vec<String>,
) -> (r: ExampleJobResult)
    ensures
        r.example_id@ == example_id@,
        r.title@ == title@,
        r.success == (status == JobStatus::Completed),
        r.execution_time_ms == execution_time_ms,
        r.workers_used == workers_used,
        r.result_summary@ == match result_summary {
            Some(s) => s@,
            None => Seq::<char>::empty(),
        },
        r.error == if errors@.len() > 0 {
            Some(errors@[0])
        } else {
            None::<String>
        },
{
    ExampleJobResult {
        example_id: String::from_str(example_id),
        title: String::from_str(title),
        success: status == JobStatus::Completed,
        execution_time_ms,
        workers_used,
        result_summary: match result_summary {
            Some(s) => s,
            None => String::new(),
        },
        error: if errors.len() > 0 {
            Some(errors[0].clone())
        } else {
            None
        },
    }
}

/// The same report for an example that ran on Ray.
pub fn example_result_from_job_ray(
    example_id: &str,
    title: &str,
    status: JobStatus,
    execution_time_ms: u64,
    workers_used: usize,
    result_summary: Option<String>,
    errors: &Vec<String>,
) -> (r: ExampleJobResult)
    ensures
        r.example_id@ == example_id@,
        r.title@ == title@,
        r.success == (status == JobStatus::Completed),
        r.execution_time_ms == execution_time_ms,
        r.workers_used == workers_used,
        r.result_summary@ == match result_summary {
            Some(s) => s@,
            None => Seq::<char>::empty(),
        },
        r.error == if errors@.len() > 0 {
            Some(errors@[0])
        } else {
            None::<String>
        },
{
    example_result_from_job(
        example_id,
        title,
        status,
        execution_time_ms,
        workers_used,
        result_summary,
        errors,
    )
}

/// Adds one backend's cluster to the totals: its workers are nodes (at least
/// one, the scheduler's own machine), online when the scheduler runs (else
/// only the workers count), with their cores, memory and workers.
pub fn add_backend_totals(
    summary: &mut ClusterSummary,
    worker_count: usize,
    scheduler_up: bool,
    total_cores: usize,
    total_memory: u64,
)
    requires
        old(summary).total_nodes + (if worker_count > 1 { worker_count } else { 1 }) <= usize::MAX,
        old(summary).online_nodes + (if worker_count > 1 { worker_count } else { 1 }) <= usize::MAX,
        old(summary).total_cpus + total_cores <= usize::MAX,
        old(summary).total_ram + total_memory <= u64::MAX,
        old(summary).total_workers + worker_count <= usize::MAX,
    ensures
        final(summary).total_nodes == old(summary).total_nodes + (if worker_count > 1 {
            worker_count
        } else {
            1
        }),
        final(summary).online_nodes == old(summary).online_nodes + (if scheduler_up {
            if worker_count > 1 {
                worker_count
            } else {
                1
            }
        } else {
            worker_count
        }),
        final(summary).total_cpus == old(summary).total_cpus + total_cores,
        final(summary).total_ram == old(summary).total_ram + total_memory,
        final(summary).total_gpus == old(summary).total_gpus,
        final(summary).total_workers == old(summary).total_workers + worker_count,
{
    let nodes = if worker_count > 1 {
        worker_count
    } else {
        1
    };
    summary.total_nodes = summary.total_nodes + nodes;
    summary.online_nodes = summary.online_nodes + if scheduler_up {
        nodes
    } else {
        worker_count
    };
    summary.total_cpus = summary.total_cpus + total_cores;
    summary.total_ram = summary.total_ram + total_memory;
    summary.total_workers = summary.total_workers + worker_count;
}

} // verus!
