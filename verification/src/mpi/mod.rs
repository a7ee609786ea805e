//! Native MPI job launch through `mpirun` / `mpiexec`: toolchain discovery,
//! launch planning and result reporting.

pub mod adapter;
pub mod jobs;
pub mod launcher;
pub mod services;
pub mod settings;
pub mod types;
