//! Dask service helpers.

use vstd::prelude::*;

use crate::dask::types::{ComponentStatus, ExampleJobResult};
use crate::jobs::dependencies::{installed_contains, is_installed};
use crate::jobs::examples::{catalog_index, example_titles, get};
use crate::text::{str_views, string_views};

verus! {

/// The title shown for an example: its catalog title, or "Example Job".
pub open spec fn example_title_of(example_id: Seq<char>) -> Seq<char> {
    match catalog_index(example_id) {
        Some(i) => example_titles()[i],
        None => "Example Job"@,
    }
}

/// The result reported when an example could not run.
pub fn example_failure(example_id: &str, message: String) -> (r: ExampleJobResult)
    ensures
        r.example_id@ == example_id@,
        r.title@ == example_title_of(example_id@),
        !r.success,
        r.execution_time_ms == 0,
        r.workers_used == 0,
        r.result_summary@ == Seq::<char>::empty(),
        r.error is Some && r.error->0@ == message@,
{
    let title = match get(example_id) {
        Some(entry) => String::from_str(entry.title),
        None => String::from_str("Example Job"),
    };
    ExampleJobResult {
        example_id: String::from_str(example_id),
        title,
        success: false,
        execution_time_ms: 0,
        workers_used: 0,
        result_summary: String::new(),
        error: Some(message),
    }
}

/// The packages the Dask plugin needs.
pub open spec fn required_packages_spec() -> Seq<Seq<char>> {
    seq!["dask"@, "distributed"@, "cloudpickle"@, "msgpack"@, "psutil"@, "numpy"@]
}

pub fn required_packages() -> (r: Vec<&'static str>)
    ensures
        str_views(r@) == required_packages_spec(),
{
    let mut r: Vec<&'static str> = Vec::new();
    r.push("dask");
    r.push("distributed");
    r.push("cloudpickle");
    r.push("msgpack");
    r.push("psutil");
    r.push("numpy");
    assert(str_views(r@) =~= required_packages_spec());
    r
}

/// The packages of a list that are not installed (names compared ignoring
/// ASCII case), in list order.
pub open spec fn missing_packages_of(packages: Seq<Seq<char>>, installed: Seq<Seq<char>>) -> Seq<Seq<char>>
    decreases packages.len(),
{
    if packages.len() == 0 {
        packages
    } else if is_installed(installed, packages.last()) {
        missing_packages_of(packages.drop_last(), installed)
    } else {
        missing_packages_of(packages.drop_last(), installed).push(packages.last())
    }
}

pub fn missing_packages(packages: &Vec<&str>, installed: &Vec<String>) -> (r: Vec<String>)
    ensures
        string_views(r@) == missing_packages_of(str_views(packages@), string_views(installed@)),
{
    let ghost ps = str_views(packages@);
    let mut r: Vec<String> = Vec::new();
    let mut i: usize = 0;
    while i < packages.len()
        invariant
            i <= packages@.len(),
            ps == str_views(packages@),
            string_views(r@) == missing_packages_of(ps.take(i as int), string_views(installed@)),
        decreases packages@.len() - i,
    {
        assert(ps.take(i + 1).drop_last() =~= ps.take(i as int));
        assert(ps.take(i + 1).last() == packages@[i as int]@);
        if !installed_contains(installed, packages[i]) {
            let ghost before = r@;
            let name = String::from_str(packages[i]);
            r.push(name);
            proof {
                crate::text::lemma_string_views_push(before, name);
            }
        }
        i = i + 1;
    }
    assert(ps.take(packages@.len() as int) =~= ps);
    r
}

/// Why examples cannot run yet on the scheduler side: the scheduler must
/// be running.
pub fn scheduler_not_ready(status: ComponentStatus) -> (r: Option<String>)
    ensures
        r is None <==> status == ComponentStatus::Running,
        r is Some ==> r->Some_0@ == "Start the Dask scheduler first (Cluster page \u{2192} Start Scheduler)."@,
{
    if status == ComponentStatus::Running {
        None
    } else {
        Some(String::from_str("Start the Dask scheduler first (Cluster page \u{2192} Start Scheduler)."))
    }
}

/// Why examples cannot run yet on the worker side: a worker must be
/// connected.
pub fn workers_not_ready(worker_count: usize) -> (r: Option<String>)
    ensures
        r is None <==> worker_count > 0,
        r is Some ==> r->Some_0@
            == "No workers are connected. Start at least one worker (Cluster page \u{2192} Start Worker)."@,
{
    if worker_count > 0 {
        None
    } else {
        Some(
            String::from_str(
                "No workers are connected. Start at least one worker (Cluster page \u{2192} Start Worker).",
            ),
        )
    }
}

} // verus!
