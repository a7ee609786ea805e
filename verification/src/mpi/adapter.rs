//! What the MPI backend reports to the job system: results, capabilities,
//! cluster description and dependency reports.

use vstd::prelude::*;

use crate::jobs::models::{
    DependencyReport, EntryPoint, JobStatus, SchedulerCapabilities, SchedulerInfo,
};
use crate::mpi::jobs::{is_python_mpi_entry, python_mpi_entry};
use crate::mpi::services::{entry_variant_name, entry_variant_text, mpi_launchable};
use crate::mpi::types::{MpiLaunchResult, MpiToolchain};
use crate::text::{dec, dec_signed, decimal, decimal_signed, string_views};

verus! {

/// How an optional exit code is printed for diagnostics (`Some(3)`, `None`).
pub open spec fn exit_code_text(code: Option<i32>) -> Seq<char> {
    match code {
        Some(n) => "Some("@ + dec_signed(n as int) + ")"@,
        None => "None"@,
    }
}

fn exit_code_string(code: Option<i32>) -> (r: String)
    ensures
        r@ == exit_code_text(code),
{
    match code {
        Some(n) => {
            let mut r = String::from_str("Some(");
            r.append(decimal_signed(n as i64).as_str());
            r.append(")");
            r
        },
        None => String::from_str("None"),
    }
}

/// The errors of a launch: none after success, else its standard error, or
/// the exit code when the standard error is empty.
pub open spec fn launch_errors(success: bool, exit_code: Option<i32>, stderr: Seq<char>) -> Seq<
    Seq<char>,
> {
    if success {
        seq![]
    } else if stderr.len() == 0 {
        seq!["MPI job exited with code "@ + exit_code_text(exit_code)]
    } else {
        seq![stderr]
    }
}

/// The one-line summary of a launch.
pub open spec fn launch_summary(success: bool, exit_code: Option<i32>, ranks: u32) -> Seq<char> {
    if success {
        "MPI completed ("@ + dec(ranks as nat) + " ranks)"@
    } else {
        "MPI failed (exit "@ + exit_code_text(exit_code) + ")"@
    }
}

/// A finished MPI launch as a job outcome.
#[derive(Debug, Clone)]
pub struct MpiJobOutcome {
    pub job_id: String,
    pub status: JobStatus,
    pub errors: Vec<String>,
    pub result_summary: String,
    pub execution_time_ms: u64,
    pub workers_used: usize,
    pub ranks: u32,
    pub exit_code: Option<i32>,
    pub stdout: String,
    pub stderr: String,
}

pub fn map_result(job_id: &str, raw: MpiLaunchResult) -> (r: MpiJobOutcome)
    ensures
        r.job_id@ == job_id@,
        r.status == (if raw.success {
            JobStatus::Completed
        } else {
            JobStatus::Failed
        }),
        string_views(r.errors@) == launch_errors(raw.success, raw.exit_code, raw.stderr@),
        r.result_summary@ == launch_summary(raw.success, raw.exit_code, raw.ranks),
        r.execution_time_ms == raw.execution_time_ms,
        r.workers_used == raw.ranks as usize,
        r.ranks == raw.ranks,
        r.exit_code == raw.exit_code,
        r.stdout == raw.stdout,
        r.stderr == raw.stderr,
{
    let mut errors: Vec<String> = Vec::new();
    if !raw.success {
        if crate::text::chars_of(raw.stderr.as_str()).len() == 0 {
            let mut m = String::from_str("MPI job exited with code ");
            m.append(exit_code_string(raw.exit_code).as_str());
            errors.push(m);
        } else {
            errors.push(raw.stderr.clone());
        }
    }
    let summary = if raw.success {
        let mut s = String::from_str("MPI completed (");
        s.append(decimal(raw.ranks as u64).as_str());
        s.append(" ranks)");
        s
    } else {
        let mut s = String::from_str("MPI failed (exit ");
        s.append(exit_code_string(raw.exit_code).as_str());
        s.append(")");
        s
    };
    assert(string_views(errors@) =~= launch_errors(raw.success, raw.exit_code, raw.stderr@));
    MpiJobOutcome {
        job_id: String::from_str(job_id),
        status: if raw.success {
            JobStatus::Completed
        } else {
            JobStatus::Failed
        },
        errors,
        result_summary: summary,
        execution_time_ms: raw.execution_time_ms,
        workers_used: raw.ranks as usize,
        ranks: raw.ranks,
        exit_code: raw.exit_code,
        stdout: raw.stdout,
        stderr: raw.stderr,
    }
}

/// What the MPI backend can do: Python (through mpi4py) and nothing else.
pub fn mpi_capabilities() -> (c: SchedulerCapabilities)
    ensures
        c == (SchedulerCapabilities {
            supports_python: true,
            supports_actors: false,
            supports_dags: false,
            supports_gpu: false,
            supports_fault_tolerance: false,
            supports_autoscaling: false,
            supports_streaming: false,
        }),
{
    SchedulerCapabilities {
        supports_python: true,
        supports_actors: false,
        supports_dags: false,
        supports_gpu: false,
        supports_fault_tolerance: false,
        supports_autoscaling: false,
        supports_streaming: false,
    }
}

/// The MPI backend as a scheduler: healthy with its launcher as address when
/// a toolchain was found, unavailable otherwise.
pub fn mpi_cluster_info(plugin_id: &str, toolchain: Option<MpiToolchain>) -> (i: SchedulerInfo)
    ensures
        i.plugin_id@ == plugin_id@,
        i.display_name@ == "MPI"@,
        i.health@ == (if toolchain is Some {
            "healthy"@
        } else {
            "unavailable"@
        }),
        i.address == match toolchain {
            Some(t) => Some(t.launcher),
            None => None::<String>,
        },
        i.dashboard_url is None,
        i.worker_count == 0,
        i.total_cores == 0,
        i.client_connected == toolchain is Some,
{
    let ready = toolchain.is_some();
    SchedulerInfo {
        plugin_id: String::from_str(plugin_id),
        display_name: String::from_str("MPI"),
        health: if ready {
            String::from_str("healthy")
        } else {
            String::from_str("unavailable")
        },
        address: match toolchain {
            Some(t) => Some(t.launcher),
            None => None,
        },
        dashboard_url: None,
        worker_count: 0,
        total_cores: 0,
        client_connected: ready,
    }
}

/// The dependency report of an MPI job once mpi4py is ensured: Python
/// entries list mpi4py as detected and installed, others list nothing.
pub fn mpi_dependency_report(entry: &EntryPoint) -> (r: DependencyReport)
    ensures
        python_mpi_entry(*entry) ==> string_views(r.detected@) == seq!["mpi4py"@]
            && string_views(r.installed@) == seq!["mpi4py"@],
        !python_mpi_entry(*entry) ==> r.detected@.len() == 0 && r.installed@.len() == 0,
        r.already_present@.len() == 0,
        r.skipped_stdlib@.len() == 0,
{
    let mut r = DependencyReport::empty();
    if is_python_mpi_entry(entry) {
        r.detected.push(String::from_str("mpi4py"));
        r.installed.push(String::from_str("mpi4py"));
        assert(string_views(r.detected@) =~= seq!["mpi4py"@]);
        assert(string_views(r.installed@) =~= seq!["mpi4py"@]);
    }
    r
}

/// The refusal of an entry point the MPI backend cannot run.
pub fn check_entry_supported(entry: &EntryPoint) -> (r: Result<(), String>)
    ensures
        mpi_launchable(*entry) <==> r is Ok,
        r is Err ==> r->Err_0@ == "MPI scheduler does not support this entry point: "@
            + entry_variant_text(*entry),
{
    match entry {
        EntryPoint::MpiExecutable { .. }
        | EntryPoint::PythonScript { .. }
        | EntryPoint::PythonFunction { .. } => Ok(()),
        _ => {
            let mut m = String::from_str("MPI scheduler does not support this entry point: ");
            m.append(entry_variant_name(entry).as_str());
            Err(m)
        },
    }
}

} // verus!
