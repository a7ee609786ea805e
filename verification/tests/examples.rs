use cluster_runtime::jobs::examples::{get, list, packages_for};

#[test]
fn example_catalog_has_six_entries() {
    assert_eq!(list().len(), 6);
}

#[test]
fn catalog_lookup() {
    let e = get("mandelbrot").expect("known example");
    assert_eq!(e.title, "Mandelbrot Renderer");
    assert_eq!(packages_for("mandelbrot"), vec!["numpy"]);
    assert!(packages_for("word_count").is_empty());
    assert!(get("nope").is_none());
    assert!(packages_for("nope").is_empty());
}
