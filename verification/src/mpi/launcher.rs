//! Finding an MPI launcher and turning a launch request into its command line.

use vstd::prelude::*;

use crate::mpi::settings::MpiSettings;
use crate::mpi::types::{MpiError, MpiFlavour, MpiToolchain};
use crate::text::{
    chars_of, contains_str, lemma_string_views_push, dec, decimal, has_substring, lines, lines_of, opt_view, str_eq,
    string_views, trim, trim_str,
};

verus! {

// ───────────────────────── launcher discovery ─────────────────────────

/// The launcher names tried in order: the preferred one first, then
/// `mpirun` and `mpiexec`, each unless it is already listed.
pub open spec fn launcher_candidates_of(pref: Option<Seq<char>>) -> Seq<Seq<char>> {
    match pref {
        Some(p) => {
            let with_run = if p == "mpirun"@ {
                seq![p]
            } else {
                seq![p, "mpirun"@]
            };
            if p == "mpiexec"@ {
                with_run
            } else {
                with_run.push("mpiexec"@)
            }
        },
        None => seq!["mpirun"@, "mpiexec"@],
    }
}

pub fn launcher_candidates(settings: &MpiSettings) -> (r: Vec<String>)
    ensures
        string_views(r@) == launcher_candidates_of(opt_view(settings.preferred_launcher)),
{
    proof {
        reveal_strlit("mpirun");
        reveal_strlit("mpiexec");
    }
    let mut r: Vec<String> = Vec::new();
    match &settings.preferred_launcher {
        Some(p) => {
            r.push(p.clone());
            if !str_eq(p.as_str(), "mpirun") {
                r.push(String::from_str("mpirun"));
            }
            if !str_eq(p.as_str(), "mpiexec") {
                r.push(String::from_str("mpiexec"));
            }
        },
        None => {
            r.push(String::from_str("mpirun"));
            r.push(String::from_str("mpiexec"));
        },
    }
    assert(string_views(r@) =~= launcher_candidates_of(opt_view(settings.preferred_launcher)));
    r
}

/// The first line of a `which` / `where` answer, trimmed; nothing when there
/// is no line or the first one is blank.
pub open spec fn first_line_of(out: Seq<char>) -> Option<Seq<char>> {
    let ls = lines(out);
    if ls.len() == 0 || trim(ls[0]).len() == 0 {
        None
    } else {
        Some(trim(ls[0]))
    }
}

pub fn first_output_line(stdout: &str) -> (r: Option<String>)
    ensures
        opt_view(r) == first_line_of(stdout@),
{
    let ls = lines_of(stdout);
    if ls.len() == 0 {
        return None;
    }
    let t = trim_str(ls[0]);
    if chars_of(t).len() == 0 {
        None
    } else {
        Some(String::from_str(t))
    }
}

/// The error when no launcher is found.
pub fn toolchain_missing() -> (e: MpiError)
    ensures
        e == MpiError::ToolchainNotFound(e->ToolchainNotFound_0),
        e->ToolchainNotFound_0@
            == "Neither mpirun nor mpiexec found on PATH. Install OpenMPI, MPICH, or Microsoft MPI."@,
{
    MpiError::ToolchainNotFound(
        String::from_str(
            "Neither mpirun nor mpiexec found on PATH. Install OpenMPI, MPICH, or Microsoft MPI.",
        ),
    )
}

// ───────────────────────── flavour detection ─────────────────────────

/// The flavour a lowercased `--version` text names: Open MPI, then Microsoft
/// MPI, then MPICH (or its Hydra launcher), else unknown.
pub open spec fn flavour_of(text: Seq<char>) -> MpiFlavour {
    if has_substring(text, "open mpi"@) || has_substring(text, "openmpi"@) {
        MpiFlavour::OpenMpi
    } else if has_substring(text, "microsoft"@) || has_substring(text, "ms-mpi"@) {
        MpiFlavour::MsMpi
    } else if has_substring(text, "mpich"@) || has_substring(text, "hydra"@) {
        MpiFlavour::Mpich
    } else {
        MpiFlavour::Unknown
    }
}

pub fn flavour_of_text(lowered: &str) -> (f: MpiFlavour)
    ensures
        f == flavour_of(lowered@),
{
    if contains_str(lowered, "open mpi") || contains_str(lowered, "openmpi") {
        MpiFlavour::OpenMpi
    } else if contains_str(lowered, "microsoft") || contains_str(lowered, "ms-mpi") {
        MpiFlavour::MsMpi
    } else if contains_str(lowered, "mpich") || contains_str(lowered, "hydra") {
        MpiFlavour::Mpich
    } else {
        MpiFlavour::Unknown
    }
}

/// The Unicode lowercase mapping of a string.
pub uninterp spec fn unicode_lowercase(s: Seq<char>) -> Seq<char>;

/// `str::to_lowercase`: the full Unicode lowercase mapping, which depends on
/// the string alone.
#[verifier::external_body]
fn lowercase(s: &str) -> (r: String)
    ensures
        r@ == unicode_lowercase(s@),
{
    s.to_lowercase()
}

/// The flavour named by a launcher's `--version` output (its standard output
/// followed by its standard error, compared in lowercase).
pub fn flavour_from_version_output(stdout: &str, stderr: &str) -> (f: MpiFlavour)
    ensures
        f == flavour_of(unicode_lowercase(stdout@ + stderr@)),
{
    let mut text = String::from_str(stdout);
    text.append(stderr);
    let lowered = lowercase(text.as_str());
    flavour_of_text(lowered.as_str())
}

// ───────────────────────── command line ─────────────────────────

/// What to launch, with how many ranks, where and with which environment.
#[derive(Debug, Clone)]
pub struct LaunchSpec {
    pub executable: String,
    pub ranks: u32,
    pub hostfile: Option<String>,
    pub working_dir: Option<String>,
    pub env_vars: Vec<(String, String)>,
    pub cli_args: Vec<String>,
}

/// The hostfile flag each flavour understands.
pub open spec fn hostfile_flag(f: MpiFlavour) -> Seq<char> {
    if f == MpiFlavour::MsMpi {
        "-hostfile"@
    } else {
        "--hostfile"@
    }
}

/// The launcher's arguments: the configured extra arguments, `-np` and the
/// rank count, the hostfile flag and file when there is one, the executable
/// and its own arguments.
pub open spec fn launch_args_of(
    flavour: MpiFlavour,
    extra: Seq<Seq<char>>,
    ranks: nat,
    hostfile: Option<Seq<char>>,
    executable: Seq<char>,
    cli: Seq<Seq<char>>,
) -> Seq<Seq<char>> {
    let host: Seq<Seq<char>> = match hostfile {
        Some(h) => seq![hostfile_flag(flavour), h],
        None => seq![],
    };
    extra + seq!["-np"@, dec(ranks)] + host + seq![executable] + cli
}

/// Appends copies of `items` to `out`.
fn extend_strings(out: &mut Vec<String>, items: &Vec<String>)
    ensures
        string_views(final(out)@) == string_views(old(out)@) + string_views(items@),
{
    let ghost start = string_views(out@);
    let mut k: usize = 0;
    while k < items.len()
        invariant
            k <= items@.len(),
            string_views(out@) == start + string_views(items@).take(k as int),
        decreases items@.len() - k,
    {
        let ghost before = out@;
        let item = items[k].clone();
        out.push(item);
        proof {
            lemma_string_views_push(before, item);
            assert(string_views(items@).take(k + 1) =~= string_views(items@).take(k as int).push(
                item@,
            ));
        }
        assert(string_views(out@) =~= start + string_views(items@).take(k + 1));
        k = k + 1;
    }
    assert(string_views(items@).take(items@.len() as int) =~= string_views(items@));
}

pub fn launch_args(toolchain: &MpiToolchain, settings: &MpiSettings, spec: &LaunchSpec) -> (r: Vec<
    String,
>)
    ensures
        string_views(r@) == launch_args_of(
            toolchain.flavour,
            string_views(settings.extra_launcher_args@),
            spec.ranks as nat,
            opt_view(spec.hostfile),
            spec.executable@,
            string_views(spec.cli_args@),
        ),
{
    proof {
        reveal_strlit("-np");
        reveal_strlit("-hostfile");
        reveal_strlit("--hostfile");
    }
    let mut r: Vec<String> = Vec::new();
    extend_strings(&mut r, &settings.extra_launcher_args);
    let ghost a = string_views(r@);
    r.push(String::from_str("-np"));
    r.push(decimal(spec.ranks as u64));
    let ghost b = string_views(r@);
    assert(b =~= a + seq!["-np"@, dec(spec.ranks as nat)]);
    match &spec.hostfile {
        Some(h) => {
            let flag = match toolchain.flavour {
                MpiFlavour::MsMpi => "-hostfile",
                _ => "--hostfile",
            };
            r.push(String::from_str(flag));
            r.push(h.clone());
        },
        None => {},
    }
    let ghost c = string_views(r@);
    r.push(spec.executable.clone());
    let ghost d = string_views(r@);
    extend_strings(&mut r, &spec.cli_args);
    assert(string_views(r@) =~= launch_args_of(
        toolchain.flavour,
        string_views(settings.extra_launcher_args@),
        spec.ranks as nat,
        opt_view(spec.hostfile),
        spec.executable@,
        string_views(spec.cli_args@),
    ));
    r
}

/// The file name of a temporary launch script.
pub fn temp_script_name(id: &str, suffix: &str) -> (r: String)
    ensures
        r@ == "cluster_runtime_mpi_"@ + id@ + suffix@,
{
    let mut r = String::from_str("cluster_runtime_mpi_");
    r.append(id);
    r.append(suffix);
    r
}

} // verus!
