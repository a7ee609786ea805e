//! Unified example catalog — metadata only; scheduler-specific bodies live elsewhere.

use vstd::prelude::*;

use crate::text::{str_eq, str_views};

verus! {

pub struct ExampleCatalogEntry {
    pub id: &'static str,
    pub title: &'static str,
    pub description: &'static str,
    pub packages: Vec<&'static str>,
}

/// The catalog ids, in catalog order.
pub open spec fn example_ids() -> Seq<Seq<char>> {
    seq![
        "mandelbrot"@,
        "monte_carlo_pi"@,
        "matrix_multiply"@,
        "prime_search"@,
        "image_blur"@,
        "word_count"@,
    ]
}

pub open spec fn example_titles() -> Seq<Seq<char>> {
    seq![
        "Mandelbrot Renderer"@,
        "Monte Carlo π Estimation"@,
        "Matrix Multiplication"@,
        "Prime Number Search"@,
        "Image Blur"@,
        "Word Count"@,
    ]
}

pub open spec fn example_descriptions() -> Seq<Seq<char>> {
    seq![
        "Render a Mandelbrot fractal across cluster workers"@,
        "Estimate π using random sampling"@,
        "Distributed matrix multiply benchmark"@,
        "Find primes in a range across workers"@,
        "Apply Gaussian blur to a synthetic image"@,
        "Count words in text lines across workers"@,
    ]
}

/// The extra Python packages of catalog entry `i`.
pub open spec fn example_packages(i: int) -> Seq<Seq<char>> {
    if i == 0 || i == 2 || i == 4 {
        seq!["numpy"@]
    } else {
        Seq::empty()
    }
}

/// Entry `e` is catalog entry `i`.
pub open spec fn is_catalog_entry(e: ExampleCatalogEntry, i: int) -> bool {
    &&& 0 <= i < 6
    &&& e.id@ == example_ids()[i]
    &&& e.title@ == example_titles()[i]
    &&& e.description@ == example_descriptions()[i]
    &&& str_views(e.packages@) == example_packages(i)
}

/// The position of `id` in the catalog, if it is there.
pub open spec fn catalog_index(id: Seq<char>) -> Option<int> {
    if exists|i: int| 0 <= i < 6 && example_ids()[i] == id {
        Some(choose|i: int| 0 <= i < 6 && example_ids()[i] == id && forall|j: int| 0 <= j < i ==> example_ids()[j] != id)
    } else {
        None
    }
}

fn entry(
    id: &'static str,
    title: &'static str,
    description: &'static str,
    numpy: bool,
) -> (e: ExampleCatalogEntry)
    ensures
        e.id@ == id@,
        e.title@ == title@,
        e.description@ == description@,
        str_views(e.packages@) == if numpy {
            seq!["numpy"@]
        } else {
            Seq::<Seq<char>>::empty()
        },
{
    let mut packages: Vec<&'static str> = Vec::new();
    if numpy {
        packages.push("numpy");
    }
    let e = ExampleCatalogEntry { id, title, description, packages };
    assert(str_views(e.packages@) =~= if numpy {
        seq!["numpy"@]
    } else {
        Seq::<Seq<char>>::empty()
    });
    e
}

/// The whole catalog, in order.
pub fn list() -> (r: Vec<ExampleCatalogEntry>)
    ensures
        r@.len() == 6,
        forall|i: int| 0 <= i < 6 ==> is_catalog_entry(#[trigger] r@[i], i),
{
    let mut r: Vec<ExampleCatalogEntry> = Vec::new();
    r.push(
        entry(
            "mandelbrot",
            "Mandelbrot Renderer",
            "Render a Mandelbrot fractal across cluster workers",
            true,
        ),
    );
    r.push(
        entry("monte_carlo_pi", "Monte Carlo π Estimation", "Estimate π using random sampling", false),
    );
    r.push(
        entry("matrix_multiply", "Matrix Multiplication", "Distributed matrix multiply benchmark", true),
    );
    r.push(
        entry("prime_search", "Prime Number Search", "Find primes in a range across workers", false),
    );
    r.push(entry("image_blur", "Image Blur", "Apply Gaussian blur to a synthetic image", true));
    r.push(entry("word_count", "Word Count", "Count words in text lines across workers", false));
    r
}

/// The catalog entry with the given id.
pub fn get(id: &str) -> (r: Option<ExampleCatalogEntry>)
    ensures
        match r {
            Some(e) => catalog_index(id@) is Some && is_catalog_entry(e, catalog_index(id@)->0),
            None => catalog_index(id@) is None,
        },
{
    let mut all = list();
    let mut i: usize = 0;
    while i < all.len()
        invariant
            i <= all@.len() == 6,
            forall|k: int| 0 <= k < 6 ==> is_catalog_entry(#[trigger] all@[k], k),
            forall|j: int| 0 <= j < i ==> example_ids()[j] != id@,
        decreases all@.len() - i,
    {
        if str_eq(all[i].id, id) {
            assert(is_catalog_entry(all@[i as int], i as int));
            let ghost idx = catalog_index(id@)->0;
            assert(idx == i) by {
                if idx < i {
                    assert(example_ids()[idx] != id@);
                } else if idx > i {
                }
            }
            return Some(all.remove(i));
        }
        i = i + 1;
    }
    None
}

/// The extra packages an example needs (none for an unknown id).
pub fn packages_for(id: &str) -> (r: Vec<&'static str>)
    ensures
        str_views(r@) == match catalog_index(id@) {
            Some(i) => example_packages(i),
            None => Seq::<Seq<char>>::empty(),
        },
{
    match get(id) {
        Some(e) => e.packages,
        None => {
            let r: Vec<&'static str> = Vec::new();
            assert(str_views(r@) =~= Seq::<Seq<char>>::empty());
            r
        },
    }
}

} // verus!
