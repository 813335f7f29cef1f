use tungsten_core::resolver::ResolveWalk;

#[test]
fn reentering_a_package_reports_the_cycle() {
    // The root is known by its name, its dependencies by name and version,
    // so a package depending back on the root closes the cycle one level
    // further down.
    let mut w = ResolveWalk::new();
    assert_eq!(w.enter("pkg_a"), Ok(true));
    assert_eq!(w.enter("pkg_b@0.1.0"), Ok(true));
    assert_eq!(w.enter("pkg_a@0.1.0"), Ok(true));
    let err = w.enter("pkg_b@0.1.0").unwrap_err();
    assert!(err.contains("Circular dependency detected"));
    assert_eq!(err, "Circular dependency detected: pkg_a -> pkg_b@0.1.0 -> pkg_a@0.1.0 -> pkg_b@0.1.0");
    assert!(w.build_order().is_empty());
}

#[test]
fn shared_dependency_is_resolved_once_before_its_dependents() {
    let mut w = ResolveWalk::new();
    assert_eq!(w.enter("app"), Ok(true));
    assert_eq!(w.enter("x@1.0.0"), Ok(true));
    assert_eq!(w.enter("z@2.0.0"), Ok(true));
    w.finish("z@2.0.0");
    w.finish("x@1.0.0");
    assert_eq!(w.enter("y@1.0.0"), Ok(true));
    assert_eq!(w.enter("z@2.0.0"), Ok(false));
    w.finish("y@1.0.0");
    w.finish("app");
    assert_eq!(w.build_order(), vec!["z@2.0.0", "x@1.0.0", "y@1.0.0", "app"]);
}

#[test]
fn a_package_depending_on_itself_is_a_cycle() {
    let mut w = ResolveWalk::new();
    assert_eq!(w.enter("solo"), Ok(true));
    assert_eq!(w.enter("solo"), Err("Circular dependency detected: solo -> solo".to_string()));
}
