use tungsten_core::oracle::{format_number, FuzzError};

#[test]
fn thousands_separators() {
    assert_eq!(format_number(0), "0");
    assert_eq!(format_number(999), "999");
    assert_eq!(format_number(1000), "1,000");
    assert_eq!(format_number(100000), "100,000");
    assert_eq!(format_number(1234567), "1,234,567");
}

#[test]
fn fuzz_errors_carry_their_details() {
    let e = FuzzError::Divergence { vm_val: 1, jit_val: 2, source: "fn main() {}".to_string(), tir: String::new() };
    match e {
        FuzzError::Divergence { vm_val, jit_val, .. } => assert_ne!(vm_val, jit_val),
        _ => panic!("wrong variant"),
    }
}
