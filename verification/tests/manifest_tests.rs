use tungsten_core::manifest::{DependencySpec, DetailedDependency, Manifest, PackageMeta};

fn manifest() -> Manifest {
    Manifest {
        package: PackageMeta {
            name: "demo".to_string(),
            version: "0.1.0".to_string(),
            edition: None,
            authors: None,
            license: None,
            description: None,
        },
        dependencies: Vec::new(),
    }
}

#[test]
fn dependency_spec_accessors() {
    let v = DependencySpec::Version("1.2".to_string());
    assert_eq!(v.version_req(), Some("1.2"));
    assert_eq!(v.path(), None);
    assert_eq!(v.git(), None);
    let d = DependencySpec::Detailed(DetailedDependency {
        version: Some("0.3".to_string()),
        path: Some("../lib".to_string()),
        git: None,
        branch: Some("main".to_string()),
    });
    assert_eq!(d.version_req(), Some("0.3"));
    assert_eq!(d.path(), Some("../lib"));
    assert_eq!(d.git(), None);
    let g = DependencySpec::Detailed(DetailedDependency { git: Some("https://x/y".to_string()), ..Default::default() });
    assert_eq!(g.version_req(), None);
    assert_eq!(g.git(), Some("https://x/y"));
}

#[test]
fn add_dependency_replaces_by_name() {
    let mut m = manifest();
    assert!(m.dependency("json").is_none());
    m.add_dependency("json".to_string(), DependencySpec::Version("1".to_string()));
    m.add_dependency("http".to_string(), DependencySpec::Version("2".to_string()));
    m.add_dependency("json".to_string(), DependencySpec::Version("3".to_string()));
    assert_eq!(m.dependency("json").unwrap().version_req(), Some("3"));
    assert_eq!(m.dependency("http").unwrap().version_req(), Some("2"));
    assert_eq!(m.package.name, "demo");
    assert_eq!(m.dependencies.len(), 2);
    assert_eq!(m.dependencies[0].0, "json");
}
