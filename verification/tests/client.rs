use cluster_runtime::dask::client::{failure_detail, json_line, truncate_output};

#[test]
fn truncation_counts_bytes_and_marks_the_cut() {
    assert_eq!(truncate_output("short", 10), "short");
    assert_eq!(truncate_output("abcdef", 3), "abc\u{2026}");
    assert_eq!(truncate_output("", 0), "");
    // "é" is two bytes: a cut after it is at a character boundary.
    assert_eq!(truncate_output("éa", 2), "é\u{2026}");
}

#[test]
fn json_answer_line_is_the_last_object() {
    assert_eq!(json_line("noise\n{\"ok\": true}\n"), "{\"ok\": true}");
    assert_eq!(json_line("{\"a\":1}\nlog\n  {\"b\":2}\ntrailer"), "  {\"b\":2}");
    assert_eq!(json_line("  plain text  "), "plain text");
    assert_eq!(json_line(""), "");
}

#[test]
fn failure_details_fall_back_in_order() {
    assert_eq!(failure_detail("  boom \n", "out", 1), "boom");
    assert_eq!(failure_detail("   ", " out ", 1), "out");
    assert_eq!(failure_detail("", "", -9), "Python exited with code -9");
    assert_eq!(failure_detail("", "", 0), "Python exited with code 0");
}
