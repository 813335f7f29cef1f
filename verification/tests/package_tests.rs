use tungsten_core::package::{has_no_std_pragma, is_builtin_function, is_primitive_type};

#[test]
fn no_std_pragma_in_header() {
    assert!(has_no_std_pragma("#![no_std]\nfn main() {}\n"));
    assert!(has_no_std_pragma("// kernel\n\n   //! [no_std]  \nfn main() {}"));
    assert!(has_no_std_pragma("#![feature(x)]\r\n#![no_std]\r\n"));
}

#[test]
fn no_std_pragma_after_code_is_ignored() {
    assert!(!has_no_std_pragma("fn main() {}\n#![no_std]\n"));
    assert!(!has_no_std_pragma(""));
    assert!(!has_no_std_pragma("// only a comment\n"));
    assert!(!has_no_std_pragma("#![no_std] extra"));
}

#[test]
fn builtin_names() {
    assert!(is_primitive_type("u8"));
    assert!(is_primitive_type("Percentage"));
    assert!(is_primitive_type("f64"));
    assert!(!is_primitive_type("Point"));
    assert!(!is_primitive_type("u128"));
    assert!(is_builtin_function("println"));
    assert!(is_builtin_function("resume"));
    assert!(!is_builtin_function("main"));
}

#[test]
fn test_no_std_pragma_detection() {
    let source_with_pragma = "#![no_std]\n\nfn main() {}\n";
    assert!(has_no_std_pragma(source_with_pragma));

    let source_with_comment_pragma = "//! [no_std]\n\nfn main() {}\n";
    assert!(has_no_std_pragma(source_with_comment_pragma));

    let source_normal = "// Regular Tungsten file\nfn main() {}\n";
    assert!(!has_no_std_pragma(source_normal));
}
