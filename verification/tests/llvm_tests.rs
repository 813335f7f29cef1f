use tungsten_core::llvm::{escape_llvm_string, type_to_llvm, type_to_llvm_ret, var_to_slot_name};
use tungsten_core::tir::Var;
use tungsten_core::types::{RegionId, Type};

#[test]
fn llvm_types() {
    assert_eq!(type_to_llvm(&Type::Bool), "i8");
    assert_eq!(type_to_llvm(&Type::U16), "i16");
    assert_eq!(type_to_llvm(&Type::U32), "i32");
    assert_eq!(type_to_llvm(&Type::Usize), "i64");
    assert_eq!(type_to_llvm(&Type::Unit), "i64");
    assert_eq!(type_to_llvm(&Type::GenericParam("T".to_string())), "i64");
    assert_eq!(type_to_llvm(&Type::Struct("P".to_string())), "ptr");
    assert_eq!(
        type_to_llvm(&Type::Refined { base: Box::new(Type::U16), min: 0, max: 5 }),
        "i16"
    );
    assert_eq!(
        type_to_llvm(&Type::RegionBounded { inner: Box::new(Type::U8), region: RegionId(1) }),
        "i64"
    );
    assert_eq!(type_to_llvm_ret(&Type::Unit), "void");
    assert_eq!(type_to_llvm_ret(&Type::Bool), "i8");
}

#[test]
fn slot_names() {
    assert_eq!(var_to_slot_name(&Var::Named("@_x".to_string())), "%slot_x");
    assert_eq!(var_to_slot_name(&Var::Named("__a_b".to_string())), "%slot_a_b");
    assert_eq!(var_to_slot_name(&Var::Named("_@y".to_string())), "%slot_@y");
    assert_eq!(var_to_slot_name(&Var::Temp(7)), "%slot_tmp_7");
}

#[test]
fn llvm_string_escapes() {
    assert_eq!(escape_llvm_string("Hello, World"), "Hello, World");
    assert_eq!(escape_llvm_string("a\"b\\c\n"), "a\\22b\\5Cc\\0A");
    assert_eq!(escape_llvm_string("\u{e9}"), "\\C3\\A9");
    assert_eq!(escape_llvm_string("\u{20ac}"), "\\E2\\82\\AC");
    assert_eq!(escape_llvm_string("\u{1F600}"), "\\F0\\9F\\98\\80");
    assert_eq!(escape_llvm_string("~\u{7f}\t"), "~\\7F\\09");
}
