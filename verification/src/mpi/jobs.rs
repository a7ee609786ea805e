//! Which job entry points run through a Python interpreter under MPI.

use vstd::prelude::*;

use crate::jobs::models::EntryPoint;

verus! {

/// Python scripts and Python functions run under MPI with mpi4py.
pub open spec fn python_mpi_entry(entry: EntryPoint) -> bool {
    entry is PythonScript || entry is PythonFunction
}

pub fn is_python_mpi_entry(entry: &EntryPoint) -> (b: bool)
    ensures
        b == python_mpi_entry(*entry),
{
    match entry {
        EntryPoint::PythonScript { .. } | EntryPoint::PythonFunction { .. } => true,
        _ => false,
    }
}

} // verus!
