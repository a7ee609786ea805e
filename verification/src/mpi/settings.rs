//! User-tunable MPI launch settings.

use vstd::prelude::*;

verus! {

/// Launcher preferences and defaults.
#[derive(Debug, Clone)]
pub struct MpiSettings {
    /// Preferred launcher name when several are on PATH.
    pub preferred_launcher: Option<String>,
    /// Default rank count when job does not specify ranks / cpu_cores.
    pub default_ranks: u32,
    /// Extra args prepended to every mpirun/mpiexec invocation.
    pub extra_launcher_args: Vec<String>,
}

impl Default for MpiSettings {
    /// No preferred launcher, two ranks, no extra arguments.
    fn default() -> (s: Self)
        ensures
            s.preferred_launcher is None,
            s.default_ranks == 2,
            s.extra_launcher_args@.len() == 0,
    {
        MpiSettings { preferred_launcher: None, default_ranks: 2, extra_launcher_args: Vec::new() }
    }
}

} // verus!
