use tungsten_core::types::{RegionId, Type};
use tungsten_core::unify::{substitute, unify, Subst, UnifyError};

fn gp(n: &str) -> Type {
    Type::GenericParam(n.to_string())
}

fn fn_type(params: Vec<Type>, ret: Type, effects: &[&str]) -> Type {
    Type::Fn {
        params,
        return_type: Box::new(ret),
        yields_effects: effects.iter().map(|e| e.to_string()).collect(),
    }
}

fn effects_of(t: &Type) -> Vec<String> {
    match t {
        Type::Fn { yields_effects, .. } => yields_effects.clone(),
        _ => panic!("not a function type"),
    }
}

#[test]
fn unify_identical_types_leaves_substitution_empty() {
    let mut s = Subst::new();
    let t = Type::Instantiated { name: "Vec".to_string(), args: vec![Type::I64] };
    let t2 = Type::Instantiated { name: "Vec".to_string(), args: vec![Type::I64] };
    assert!(unify(&t, &t2, &mut s).is_ok());
    assert!(s.bindings.is_empty());
    assert!(s.effect_bindings.is_empty());
}

#[test]
fn unify_generic_infers_and_substitutes() {
    let mut s = Subst::new();
    assert!(unify(&gp("T"), &Type::I64, &mut s).is_ok());
    assert!(matches!(s.get("T"), Some(Type::I64)));
    assert!(matches!(substitute(&gp("T"), &s), Type::I64));
    assert!(matches!(substitute(&gp("U"), &s), Type::GenericParam(ref n) if n == "U"));
}

#[test]
fn unify_generic_again_with_same_type_succeeds() {
    let mut s = Subst::new();
    assert!(unify(&gp("T"), &Type::Bool, &mut s).is_ok());
    assert!(unify(&gp("T"), &Type::Bool, &mut s).is_ok());
    assert!(matches!(s.get("T"), Some(Type::Bool)));
}

#[test]
fn unify_generic_with_incompatible_type_fails() {
    let mut s = Subst::new();
    assert!(unify(&gp("T"), &Type::I64, &mut s).is_ok());
    match unify(&gp("T"), &Type::U64, &mut s) {
        Err(UnifyError::IncompatibleGeneric { name, inferred, found }) => {
            assert_eq!(name, "T");
            assert!(matches!(inferred, Type::I64));
            assert!(matches!(found, Type::U64));
        }
        other => panic!("unexpected {:?}", other),
    }
}

#[test]
fn unify_actual_generic_binds_it() {
    let mut s = Subst::new();
    assert!(unify(&Type::Bool, &gp("U"), &mut s).is_ok());
    assert!(matches!(s.get("U"), Some(Type::Bool)));
}

#[test]
fn unify_region_outlives() {
    let mut s = Subst::new();
    let inner = Type::RegionBounded { inner: Box::new(Type::I64), region: RegionId(1) };
    let outer = Type::RegionBounded { inner: Box::new(Type::I64), region: RegionId(2) };
    match unify(&inner, &outer, &mut s) {
        Err(UnifyError::RegionMismatch { expected, found }) => {
            assert_eq!(expected, RegionId(1));
            assert_eq!(found, RegionId(2));
        }
        other => panic!("unexpected {:?}", other),
    }
    assert!(unify(&outer, &inner, &mut s).is_ok());
    // A region-bounded type unifies through to its inner type.
    assert!(unify(&outer, &Type::I64, &mut s).is_ok());
    assert!(unify(&Type::I64, &inner, &mut s).is_ok());
}

#[test]
fn unify_pointers() {
    let mut s = Subst::new();
    let mut_ptr = Type::Ptr { is_mut: true, inner: Box::new(Type::I64) };
    let ptr = Type::Ptr { is_mut: false, inner: Box::new(Type::I64) };
    assert!(matches!(unify(&mut_ptr, &ptr, &mut s), Err(UnifyError::MutablePointer)));
    assert!(unify(&ptr, &mut_ptr, &mut s).is_ok());
    let byte_ptr = Type::Ptr { is_mut: false, inner: Box::new(Type::U8) };
    let bool_ptr = Type::Ptr { is_mut: false, inner: Box::new(Type::Bool) };
    assert!(unify(&byte_ptr, &bool_ptr, &mut s).is_ok());
    let i64_ptr = Type::Ptr { is_mut: false, inner: Box::new(Type::I64) };
    assert!(matches!(unify(&bool_ptr, &i64_ptr, &mut s), Err(UnifyError::Mismatch { .. })));
}

#[test]
fn unify_references() {
    let mut s = Subst::new();
    let r_mut = Type::Ref { is_mut: true, inner: Box::new(gp("T")), region: RegionId(0) };
    let r = Type::Ref { is_mut: false, inner: Box::new(Type::I64), region: RegionId(0) };
    assert!(matches!(unify(&r_mut, &r, &mut s), Err(UnifyError::MutableReference)));
    let r_gen = Type::Ref { is_mut: false, inner: Box::new(gp("T")), region: RegionId(3) };
    assert!(unify(&r_gen, &r, &mut s).is_ok());
    assert!(matches!(s.get("T"), Some(Type::I64)));
}

#[test]
fn unify_instantiated_types() {
    let mut s = Subst::new();
    let a = Type::Instantiated { name: "Map".to_string(), args: vec![gp("K"), gp("V")] };
    let b = Type::Instantiated { name: "Map".to_string(), args: vec![Type::String, Type::I64] };
    assert!(unify(&a, &b, &mut s).is_ok());
    assert!(matches!(s.get("K"), Some(Type::String)));
    assert!(matches!(s.get("V"), Some(Type::I64)));
    let c = Type::Instantiated { name: "Set".to_string(), args: vec![Type::I64] };
    assert!(matches!(unify(&a, &c, &mut s), Err(UnifyError::CannotUnify { .. })));
    let d = Type::Instantiated { name: "Map".to_string(), args: vec![Type::I64] };
    assert!(matches!(unify(&a, &d, &mut s), Err(UnifyError::CannotUnify { .. })));
}

#[test]
fn unify_stops_at_first_failing_argument() {
    let mut s = Subst::new();
    let a = Type::Instantiated { name: "Pair".to_string(), args: vec![gp("A"), Type::Bool, gp("B")] };
    let b = Type::Instantiated { name: "Pair".to_string(), args: vec![Type::I64, Type::U8, Type::I64] };
    assert!(matches!(unify(&a, &b, &mut s), Err(UnifyError::Mismatch { .. })));
    assert!(matches!(s.get("A"), Some(Type::I64)));
    assert!(s.get("B").is_none());
}

#[test]
fn unify_function_parameter_count() {
    let mut s = Subst::new();
    let f1 = fn_type(vec![Type::I64], Type::Unit, &[]);
    let f2 = fn_type(vec![Type::I64, Type::I64], Type::Unit, &[]);
    assert!(matches!(unify(&f1, &f2, &mut s), Err(UnifyError::ParamCountMismatch)));
}

#[test]
fn unify_function_row_variable_absorbs_extra_effects() {
    let mut s = Subst::new();
    let expected = fn_type(vec![gp("T")], gp("T"), &["..E"]);
    let actual = fn_type(vec![Type::I64], Type::I64, &["IO", "Db", "IO"]);
    assert!(unify(&expected, &actual, &mut s).is_ok());
    assert_eq!(s.get_effects("E").unwrap(), &vec!["Db".to_string(), "IO".to_string()]);
    assert_eq!(s.get_effects("..E").unwrap(), &vec!["Db".to_string(), "IO".to_string()]);
    let out = substitute(&expected, &s);
    assert_eq!(effects_of(&out), vec!["Db".to_string(), "IO".to_string()]);
    match out {
        Type::Fn { params, return_type, .. } => {
            assert!(matches!(params[0], Type::I64));
            assert!(matches!(*return_type, Type::I64));
        }
        _ => panic!("not a function type"),
    }
}

#[test]
fn unify_function_row_variable_accumulates() {
    let mut s = Subst::new();
    let expected = fn_type(vec![], Type::Unit, &["E"]);
    let first = fn_type(vec![], Type::Unit, &["Net"]);
    let second = fn_type(vec![], Type::Unit, &["Db"]);
    assert!(unify(&expected, &first, &mut s).is_ok());
    assert!(unify(&expected, &second, &mut s).is_ok());
    assert_eq!(s.get_effects("E").unwrap(), &vec!["Db".to_string(), "Net".to_string()]);
}

#[test]
fn unify_function_actual_row_variable() {
    let mut s = Subst::new();
    let expected = fn_type(vec![], Type::Unit, &["IO", "Db"]);
    let actual = fn_type(vec![], Type::Unit, &["?r", "IO"]);
    assert!(unify(&expected, &actual, &mut s).is_ok());
    assert_eq!(s.get_effects("?r").unwrap(), &vec!["Db".to_string()]);
    assert_eq!(s.get_effects("..?r").unwrap(), &vec!["Db".to_string()]);
}

#[test]
fn unify_function_missing_effect() {
    let mut s = Subst::new();
    let expected = fn_type(vec![], Type::Unit, &["Net", "IO", "Db"]);
    let actual = fn_type(vec![], Type::Unit, &["IO"]);
    match unify(&expected, &actual, &mut s) {
        Err(UnifyError::MissingEffect { effect }) => assert_eq!(effect, "Db"),
        other => panic!("unexpected {:?}", other),
    }
}

#[test]
fn unify_shape_mismatch() {
    let mut s = Subst::new();
    assert!(matches!(unify(&Type::Bool, &Type::I64, &mut s), Err(UnifyError::Mismatch { .. })));
}

#[test]
fn substitute_sorts_and_dedups_effects() {
    let s = Subst::default();
    let f = fn_type(vec![], Type::Unit, &["Net", "IO", "Net"]);
    assert_eq!(effects_of(&substitute(&f, &s)), vec!["IO".to_string(), "Net".to_string()]);
}

#[test]
fn substitute_inside_arrays_and_pointers() {
    let mut s = Subst::new();
    s.bind("T".to_string(), Type::U16);
    let t = Type::Array { elem: Box::new(Type::Ptr { is_mut: true, inner: Box::new(gp("T")) }), len: 4 };
    match substitute(&t, &s) {
        Type::Array { elem, len } => {
            assert_eq!(len, 4);
            match *elem {
                Type::Ptr { is_mut, inner } => {
                    assert!(is_mut);
                    assert!(matches!(*inner, Type::U16));
                }
                _ => panic!("not a pointer"),
            }
        }
        _ => panic!("not an array"),
    }
}

#[test]
fn bind_replaces_earlier_binding() {
    let mut s = Subst::new();
    s.bind("T".to_string(), Type::I64);
    s.bind("T".to_string(), Type::Bool);
    assert!(matches!(s.get("T"), Some(Type::Bool)));
    assert_eq!(s.bindings.len(), 1);
}

#[test]
fn unify_generic_binds_one_entry() {
    let mut s = Subst::new();
    assert!(unify(&gp("T"), &Type::I64, &mut s).is_ok());
    assert!(matches!(s.get("T"), Some(Type::I64)));
    assert_eq!(s.bindings.len(), 1);
    assert!(s.effect_bindings.is_empty());
}

#[test]
fn fixed_messages_of_unify_errors() {
    assert_eq!(
        UnifyError::MutablePointer.fixed_message(),
        Some("Cannot unify mutable pointer with immutable pointer".to_string())
    );
    assert_eq!(
        UnifyError::MissingEffect { effect: "IO".to_string() }.fixed_message(),
        Some("Effect 'IO' missing in function type unification".to_string())
    );
    assert_eq!(UnifyError::ParamCountMismatch.fixed_message(), Some("Function parameter count mismatch".to_string()));
    assert_eq!(UnifyError::Mismatch { expected: Type::I64, actual: Type::Bool }.fixed_message(), None);
}
