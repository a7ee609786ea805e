//! Job data model: lifecycle states, dependency reports and scheduler descriptions.

use std::collections::HashMap;
use vstd::prelude::*;

verus! {

/// An opaque JSON document carried through the model (arguments, outputs).
#[verifier::external_type_specification]
#[verifier::external_body]
pub struct ExJsonValue(serde_json::Value);

/// Lifecycle state of a job.
#[derive(Debug, Clone, Copy, PartialEq, Eq, Structural)]
pub enum JobStatus {
    Created,
    Queued,
    Scheduling,
    Running,
    Completed,
    Failed,
    Cancelled,
}

/// Lifecycle state of a single task inside a job.
#[derive(Debug, Clone, Copy, PartialEq, Eq, Structural)]
pub enum TaskStatus {
    Created,
    Queued,
    Scheduled,
    Running,
    Completed,
    Failed,
    Cancelled,
}

/// Result of auto-detecting and installing Python dependencies for a job.
#[derive(Debug, Clone)]
pub struct DependencyReport {
    /// Top-level import names found in the job source.
    pub detected: Vec<String>,
    /// Pip package names that were newly installed.
    pub installed: Vec<String>,
    /// Import / package names that were already available.
    pub already_present: Vec<String>,
    /// Import names skipped because they are part of the Python stdlib.
    pub skipped_stdlib: Vec<String>,
}

impl DependencyReport {
    /// A report that lists nothing.
    pub fn empty() -> (r: DependencyReport)
        ensures
            r.detected@.len() == 0,
            r.installed@.len() == 0,
            r.already_present@.len() == 0,
            r.skipped_stdlib@.len() == 0,
    {
        DependencyReport {
            detected: Vec::new(),
            installed: Vec::new(),
            already_present: Vec::new(),
            skipped_stdlib: Vec::new(),
        }
    }
}

/// Where and how a job runs on the executing node.
#[derive(Debug, Clone)]
pub struct ExecutionContext {
    pub working_dir: Option<String>,
    pub env_vars: HashMap<String, String>,
    pub cli_args: Vec<String>,
    pub input_files: Vec<String>,
    pub output_dir: Option<String>,
    pub package_env: Option<String>,
}

/// How often and how patiently a failed job is retried.
#[derive(Debug, Clone, Copy, PartialEq, Eq, Structural)]
pub struct RetryPolicy {
    pub max_retries: u32,
    pub backoff_secs: u64,
}

/// A file produced by a job.
#[derive(Debug, Clone)]
pub struct Artifact {
    pub id: String,
    pub name: String,
    pub path: String,
    pub mime_type: Option<String>,
    pub size_bytes: Option<u64>,
}

/// What a scheduler backend can do.
#[derive(Debug, Clone, Copy, PartialEq, Eq, Structural)]
pub struct SchedulerCapabilities {
    pub supports_python: bool,
    pub supports_actors: bool,
    pub supports_dags: bool,
    pub supports_gpu: bool,
    pub supports_fault_tolerance: bool,
    pub supports_autoscaling: bool,
    pub supports_streaming: bool,
}

/// Live description of a scheduler backend.
#[derive(Debug, Clone)]
pub struct SchedulerInfo {
    pub plugin_id: String,
    pub display_name: String,
    pub health: String,
    pub address: Option<String>,
    pub dashboard_url: Option<String>,
    pub worker_count: usize,
    pub total_cores: usize,
    pub client_connected: bool,
}

/// Acknowledgement returned when a job is accepted.
#[derive(Debug, Clone)]
pub struct SubmitAck {
    pub job_id: String,
    pub status: JobStatus,
}

/// One row of the scheduler list.
#[derive(Debug, Clone)]
pub struct SchedulerListEntry {
    pub plugin_id: String,
    pub display_name: String,
    pub capabilities: SchedulerCapabilities,
    pub available: bool,
}

/// How a job is started.
#[derive(Debug, Clone)]
pub enum EntryPoint {
    PythonFunction { body: String },
    PythonScript { script: String },
    PythonModule { module: String },
    Example { example_id: String, args: Option<serde_json::Value> },
    /// Native MPI launch via `mpirun` / `mpiexec`.
    MpiExecutable { executable: String, ranks: Option<u32>, hostfile: Option<String> },
}

} // verus!
