use tungsten_core::effects::EffectRow;

fn names(v: &[&str]) -> Vec<String> {
    v.iter().map(|s| s.to_string()).collect()
}

#[test]
fn effect_row_insert_remove() {
    let mut row = EffectRow::new();
    assert!(row.is_empty());
    row.insert("IO".to_string());
    row.insert("IO".to_string());
    assert!(row.contains("IO"));
    assert!(!row.is_empty());
    assert!(row.remove("IO"));
    assert!(!row.remove("IO"));
    assert!(row.is_empty());
}

#[test]
fn effect_row_union_and_diff() {
    let mut a = EffectRow::from_slice(&names(&["IO", "Db"]));
    let b = EffectRow::from_slice(&names(&["Net", "IO"]));
    a.union_with(&b);
    assert!(a.contains("IO") && a.contains("Db") && a.contains("Net"));
    let rest = a.diff(&names(&["IO", "Net", "Time"]));
    assert!(rest.contains("Db"));
    assert!(!rest.contains("IO"));
    assert!(!rest.contains("Net"));
    assert!(!rest.is_empty());
    let none = rest.diff(&names(&["Db"]));
    assert!(none.is_empty());
}
