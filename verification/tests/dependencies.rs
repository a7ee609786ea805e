use cluster_runtime::jobs::dependencies::{
    import_to_pip_name, is_ident_char, parse_imports, strip_comment, top_level,
};

#[test]
fn parses_simple_imports() {
    let src = r#"
import os
import numpy as np
from sklearn.linear_model import LinearRegression
import a.b, c
from .relative import x
from __future__ import annotations
"#;
    let imports = parse_imports(src);
    assert!(imports.contains(&"os".to_string()));
    assert!(imports.contains(&"numpy".to_string()));
    assert!(imports.contains(&"sklearn".to_string()));
    assert!(imports.contains(&"a".to_string()));
    assert!(imports.contains(&"c".to_string()));
    assert!(!imports.iter().any(|i| i == "__future__"));
    assert!(!imports.iter().any(|i| i.starts_with('.')));
}

#[test]
fn maps_common_import_names() {
    assert_eq!(import_to_pip_name("cv2"), "opencv-python");
    assert_eq!(import_to_pip_name("PIL"), "Pillow");
    assert_eq!(import_to_pip_name("sklearn"), "scikit-learn");
    assert_eq!(import_to_pip_name("numpy"), "numpy");
}

#[test]
fn strips_inline_comments() {
    let src = "import requests  # HTTP client\n";
    let imports = parse_imports(src);
    assert_eq!(imports, vec!["requests".to_string()]);
}

#[test]
fn parse_imports_is_sorted_without_duplicates() {
    let src = "import zlib\nimport numpy\nimport numpy.linalg\nfrom abc import x\n";
    let imports = parse_imports(src);
    assert_eq!(imports, vec!["abc".to_string(), "numpy".to_string(), "zlib".to_string()]);
}

#[test]
fn parse_imports_of_empty_source_is_empty() {
    assert!(parse_imports("").is_empty());
    assert!(parse_imports("x = 1\nprint(x)\n").is_empty());
}

#[test]
fn strip_comment_and_top_level() {
    assert_eq!(strip_comment("import os # c"), "import os ");
    assert_eq!(strip_comment("no comment"), "no comment");
    assert_eq!(top_level("a.b.c"), Some("a"));
    assert!(is_ident_char('_'));
    assert!(!is_ident_char('-'));
}
