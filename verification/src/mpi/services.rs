//! Planning an MPI launch from a job: rank count, launch script and
//! command, and the mpi4py check.

use vstd::prelude::*;

use crate::jobs::models::EntryPoint;
use crate::mpi::jobs::python_mpi_entry;
use crate::mpi::launcher::LaunchSpec;
use crate::mpi::types::MpiError;
use crate::text::{
    dec, decimal, eq_ignore_ascii_case, eq_ignore_case, join, join_strings, lines, lines_of,
    lemma_string_views_push, str_views, string_views,
};

verus! {

// ───────────────────────── ranks ─────────────────────────

/// The rank count of a launch: an explicit count (at least one), else the
/// whole number of requested CPU cores when that is at least one, else the
/// configured default (at least one).
pub open spec fn ranks_for(explicit: Option<u32>, cores_floor: Option<u32>, default_ranks: u32) -> u32 {
    match explicit {
        Some(r) => if r >= 1 {
            r
        } else {
            1
        },
        None => match cores_floor {
            Some(n) => if n >= 1 {
                n
            } else if default_ranks >= 1 {
                default_ranks
            } else {
                1
            },
            None => if default_ranks >= 1 {
                default_ranks
            } else {
                1
            },
        },
    }
}

/// `cores_floor` is the job's requested CPU cores rounded down to a whole
/// number (saturating at the bounds of `u32`).
pub fn resolve_ranks(explicit: Option<u32>, cores_floor: Option<u32>, default_ranks: u32) -> (r: u32)
    ensures
        r == ranks_for(explicit, cores_floor, default_ranks),
        r >= 1,
{
    if let Some(r) = explicit {
        return if r >= 1 {
            r
        } else {
            1
        };
    }
    if let Some(n) = cores_floor {
        if n >= 1 {
            return n;
        }
    }
    if default_ranks >= 1 {
        default_ranks
    } else {
        1
    }
}

/// How many ranks a launch gets: an explicit count wins (at least one); else
/// a positive whole number of requested cores; else the configured default,
/// raised to one when it is zero. The count is never below one.
pub proof fn lemma_rank_choice(explicit: Option<u32>, cores_floor: Option<u32>, default_ranks: u32)
    ensures
        ranks_for(explicit, cores_floor, default_ranks) >= 1,
        explicit is Some && explicit->0 >= 1 ==> ranks_for(explicit, cores_floor, default_ranks)
            == explicit->0,
        explicit == Some(0u32) ==> ranks_for(explicit, cores_floor, default_ranks) == 1,
        explicit is None && cores_floor is Some && cores_floor->0 >= 1 ==> ranks_for(
            explicit,
            cores_floor,
            default_ranks,
        ) == cores_floor->0,
        explicit is None && (cores_floor is None || cores_floor == Some(0u32)) && default_ranks >= 1
            ==> ranks_for(explicit, cores_floor, default_ranks) == default_ranks,
        explicit is None && (cores_floor is None || cores_floor == Some(0u32)) && default_ranks == 0
            ==> ranks_for(explicit, cores_floor, default_ranks) == 1,
{
}

// ───────────────────────── launch scripts ─────────────────────────

/// A function body wrapped into a script that defines `user_fn` (each body
/// line indented by four spaces) and calls it when run as a program.
pub open spec fn wrapped_function_text(body: Seq<char>) -> Seq<char> {
    let ls = lines(body);
    "def user_fn():\n"@ + join(Seq::new(ls.len(), |k: int| "    "@ + ls[k]), "\n"@)
        + "\n\nif __name__ == '__main__':\n    user_fn()\n"@
}

pub fn wrap_python_function(body: &str) -> (r: String)
    ensures
        r@ == wrapped_function_text(body@),
{
    let ls = lines_of(body);
    let ghost lv = lines(body@);
    let mut indented: Vec<String> = Vec::new();
    let mut k: usize = 0;
    while k < ls.len()
        invariant
            k <= ls@.len(),
            str_views(ls@) == lv,
            string_views(indented@) == Seq::new(k as nat, |j: int| "    "@ + lv[j]),
        decreases ls@.len() - k,
    {
        let mut line = String::from_str("    ");
        line.append(ls[k]);
        let ghost before = indented@;
        indented.push(line);
        proof {
            lemma_string_views_push(before, line);
            assert(lv[k as int] == ls@[k as int]@);
            assert(string_views(indented@) =~= Seq::new((k + 1) as nat, |j: int| "    "@ + lv[j]));
        }
        k = k + 1;
    }
    let joined = join_strings(&indented, "\n");
    let mut r = String::from_str("def user_fn():\n");
    r.append(joined.as_str());
    r.append("\n\nif __name__ == '__main__':\n    user_fn()\n");
    r
}

/// The position of an entry point's variant in its declaration.
pub open spec fn entry_variant_index(e: EntryPoint) -> nat {
    match e {
        EntryPoint::PythonFunction { .. } => 0,
        EntryPoint::PythonScript { .. } => 1,
        EntryPoint::PythonModule { .. } => 2,
        EntryPoint::Example { .. } => 3,
        EntryPoint::MpiExecutable { .. } => 4,
    }
}

/// How an entry point's variant is printed for diagnostics.
pub open spec fn entry_variant_text(e: EntryPoint) -> Seq<char> {
    "Discriminant("@ + dec(entry_variant_index(e)) + ")"@
}

pub fn entry_variant_name(e: &EntryPoint) -> (r: String)
    ensures
        r@ == entry_variant_text(*e),
{
    let index: u64 = match e {
        EntryPoint::PythonFunction { .. } => 0,
        EntryPoint::PythonScript { .. } => 1,
        EntryPoint::PythonModule { .. } => 2,
        EntryPoint::Example { .. } => 3,
        EntryPoint::MpiExecutable { .. } => 4,
    };
    let mut r = String::from_str("Discriminant(");
    r.append(decimal(index).as_str());
    r.append(")");
    r
}

/// Whether MPI can launch an entry point: an executable, a script or a
/// Python function.
pub open spec fn mpi_launchable(e: EntryPoint) -> bool {
    e is MpiExecutable || e is PythonScript || e is PythonFunction
}

/// The script an entry point needs written before launch: none for an
/// executable, the script itself, or the wrapped function; other entry
/// points are refused.
pub fn script_for_entry(entry: &EntryPoint) -> (r: Result<Option<String>, MpiError>)
    ensures
        match *entry {
            EntryPoint::MpiExecutable { .. } => r == Ok::<Option<String>, MpiError>(None),
            EntryPoint::PythonScript { script } => r is Ok && r->Ok_0 is Some
                && r->Ok_0->Some_0@ == script@,
            EntryPoint::PythonFunction { body } => r is Ok && r->Ok_0 is Some
                && r->Ok_0->Some_0@ == wrapped_function_text(body@),
            _ => r is Err && r->Err_0 is Job && r->Err_0->Job_0@
                == "Unsupported entry point for MPI: "@ + entry_variant_text(*entry),
        },
{
    match entry {
        EntryPoint::MpiExecutable { .. } => Ok(None),
        EntryPoint::PythonScript { script } => Ok(Some(script.clone())),
        EntryPoint::PythonFunction { body } => Ok(Some(wrap_python_function(body.as_str()))),
        _ => {
            let mut m = String::from_str("Unsupported entry point for MPI: ");
            m.append(entry_variant_name(entry).as_str());
            Err(MpiError::Job(m))
        },
    }
}

// ───────────────────────── launch spec ─────────────────────────

/// Where and how a job runs: working directory, environment (the context's
/// variables followed by the job's own), extra arguments, and the requested
/// CPU cores rounded down to a whole number.
pub struct LaunchContext {
    pub working_dir: Option<String>,
    /// The execution context's environment variables.
    pub env_vars: Vec<(String, String)>,
    /// The job's own environment variables, set after the context's.
    pub job_env: Vec<(String, String)>,
    pub cli_args: Vec<String>,
    pub cores_floor: Option<u32>,
}

/// The interpreter and the written script of a Python launch.
pub struct PythonLaunch {
    pub interpreter: String,
    pub script_path: String,
}

/// The launch of an entry point. An executable keeps its own ranks and
/// hostfile and gets the context's arguments; a script runs under the
/// interpreter with its path before the context's arguments; a function runs
/// under the interpreter with its script path alone.
pub fn build_launch_spec(
    entry: &EntryPoint,
    ctx: LaunchContext,
    default_ranks: u32,
    python: Option<PythonLaunch>,
) -> (r: Result<LaunchSpec, MpiError>)
    requires
        python_mpi_entry(*entry) ==> python is Some,
    ensures
        mpi_launchable(*entry) <==> r is Ok,
        r is Ok ==> r->Ok_0.working_dir == ctx.working_dir && r->Ok_0.env_vars@ == ctx.env_vars@ + ctx.job_env@,
        match *entry {
            EntryPoint::MpiExecutable { executable, ranks, hostfile } => r is Ok
                && r->Ok_0.executable == executable
                && r->Ok_0.ranks == ranks_for(ranks, ctx.cores_floor, default_ranks)
                && r->Ok_0.hostfile == hostfile
                && r->Ok_0.cli_args@ == ctx.cli_args@,
            EntryPoint::PythonScript { .. } => r is Ok
                && r->Ok_0.executable == python->Some_0.interpreter
                && r->Ok_0.ranks == ranks_for(None, ctx.cores_floor, default_ranks)
                && r->Ok_0.hostfile is None
                && r->Ok_0.cli_args@ == seq![python->Some_0.script_path] + ctx.cli_args@,
            EntryPoint::PythonFunction { .. } => r is Ok
                && r->Ok_0.executable == python->Some_0.interpreter
                && r->Ok_0.ranks == ranks_for(None, ctx.cores_floor, default_ranks)
                && r->Ok_0.hostfile is None
                && r->Ok_0.cli_args@ == seq![python->Some_0.script_path],
            _ => r is Err && r->Err_0 is Job && r->Err_0->Job_0@
                == "Unsupported entry point for MPI: "@ + entry_variant_text(*entry),
        },
{
    let mut env = ctx.env_vars;
    let mut job_env = ctx.job_env;
    let ghost first = env@;
    let ghost second = job_env@;
    env.append(&mut job_env);
    assert(env@ =~= first + second);
    match entry {
        EntryPoint::MpiExecutable { executable, ranks, hostfile } => Ok(
            LaunchSpec {
                executable: executable.clone(),
                ranks: resolve_ranks(*ranks, ctx.cores_floor, default_ranks),
                hostfile: hostfile.clone(),
                working_dir: ctx.working_dir,
                env_vars: env,
                cli_args: ctx.cli_args,
            },
        ),
        EntryPoint::PythonScript { .. } => {
            let p = python.unwrap();
            let mut args: Vec<String> = Vec::new();
            args.push(p.script_path);
            let mut extra = ctx.cli_args;
            let ghost first = args@;
            let ghost rest = extra@;
            args.append(&mut extra);
            assert(args@ =~= first + rest);
            Ok(
                LaunchSpec {
                    executable: p.interpreter,
                    ranks: resolve_ranks(None, ctx.cores_floor, default_ranks),
                    hostfile: None,
                    working_dir: ctx.working_dir,
                    env_vars: env,
                    cli_args: args,
                },
            )
        },
        EntryPoint::PythonFunction { .. } => {
            let p = python.unwrap();
            let mut args: Vec<String> = Vec::new();
            args.push(p.script_path);
            Ok(
                LaunchSpec {
                    executable: p.interpreter,
                    ranks: resolve_ranks(None, ctx.cores_floor, default_ranks),
                    hostfile: None,
                    working_dir: ctx.working_dir,
                    env_vars: env,
                    cli_args: args,
                },
            )
        },
        _ => {
            let mut m = String::from_str("Unsupported entry point for MPI: ");
            m.append(entry_variant_name(entry).as_str());
            Err(MpiError::Job(m))
        },
    }
}

// ───────────────────────── mpi4py ─────────────────────────

/// Whether an installed package list holds mpi4py (names compared ignoring
/// ASCII case).
pub open spec fn has_mpi4py(names: Seq<Seq<char>>) -> bool {
    exists|i: int| 0 <= i < names.len() && eq_ignore_case(#[trigger] names[i], "mpi4py"@)
}

pub fn mpi4py_present(names: &Vec<String>) -> (b: bool)
    ensures
        b == has_mpi4py(string_views(names@)),
{
    let mut i: usize = 0;
    while i < names.len()
        invariant
            i <= names@.len(),
            forall|j: int| 0 <= j < i ==> !eq_ignore_case(#[trigger] string_views(names@)[j], "mpi4py"@),
        decreases names@.len() - i,
    {
        if eq_ignore_ascii_case(names[i].as_str(), "mpi4py") {
            assert(eq_ignore_case(string_views(names@)[i as int], "mpi4py"@));
            return true;
        }
        i = i + 1;
    }
    false
}

} // verus!
