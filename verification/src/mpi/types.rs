//! MPI toolchain description, launch results and errors.

use vstd::prelude::*;

verus! {

/// Which MPI implementation a launcher belongs to.
#[derive(Debug, Clone, Copy, PartialEq, Eq, Structural)]
pub enum MpiFlavour {
    OpenMpi,
    Mpich,
    MsMpi,
    Unknown,
}

/// A usable launcher and its flavour.
#[derive(Debug, Clone)]
pub struct MpiToolchain {
    /// Absolute or PATH-resolved launcher binary (`mpirun` or `mpiexec`).
    pub launcher: String,
    /// Detected flavour for logging / flags.
    pub flavour: MpiFlavour,
}

/// What a finished MPI launch reported.
#[derive(Debug, Clone)]
pub struct MpiLaunchResult {
    pub success: bool,
    pub exit_code: Option<i32>,
    pub stdout: String,
    pub stderr: String,
    pub execution_time_ms: u64,
    pub ranks: u32,
}

/// Errors of the MPI plugin. An I/O failure carries the text of the
/// operating-system error that caused it.
#[derive(Debug, Clone)]
pub enum MpiError {
    ToolchainNotFound(String),
    NotReady(String),
    Job(String),
    Io(String),
}

/// The text each error displays.
pub open spec fn mpi_error_text(e: MpiError) -> Seq<char> {
    match e {
        MpiError::ToolchainNotFound(m) => "MPI toolchain not found: "@ + m@,
        MpiError::NotReady(m) => "MPI not initialized: "@ + m@,
        MpiError::Job(m) => "Job error: "@ + m@,
        MpiError::Io(m) => "IO error: "@ + m@,
    }
}

impl MpiError {
    /// The error's message, as it is displayed.
    pub fn message(&self) -> (r: String)
        ensures
            r@ == mpi_error_text(*self),
    {
        let (prefix, detail) = match self {
            MpiError::ToolchainNotFound(m) => ("MPI toolchain not found: ", m),
            MpiError::NotReady(m) => ("MPI not initialized: ", m),
            MpiError::Job(m) => ("Job error: ", m),
            MpiError::Io(m) => ("IO error: ", m),
        };
        let mut r = String::from_str(prefix);
        r.append(detail.as_str());
        r
    }
}

} // verus!
