use qpm_core::{
    AdditionalDependencyData, AdditionalPackageData, CollectError, Dependency, DependencyMap,
    PackageConfig, PackageInfo, Registry, RegistryEntry, SharedDependency, SharedPackageConfig,
    Version,
};

fn dependency(id: &str, range: &str) -> Dependency {
    Dependency {
        id: id.to_string(),
        version_range: range.to_string(),
        additional_data: AdditionalDependencyData::empty(),
    }
}

fn package(id: &str, version: Version, restored: Vec<SharedDependency>) -> SharedPackageConfig {
    SharedPackageConfig {
        config: PackageConfig {
            info: PackageInfo {
                id: id.to_string(),
                version,
                additional_data: AdditionalPackageData {
                    static_linking: None,
                    mod_link: None,
                    override_so_name: None,
                },
            },
            shared_dir: "shared".to_string(),
        },
        restored_dependencies: restored,
    }
}

/// The registry of the end-to-end scenario: `b` offers 1.2.0, whose restored
/// dependency on `c` is marked private by `b`; `c` offers 2.0.0.
fn scenario_registry() -> Registry {
    let mut c_dep = dependency("c", "^2.0.0");
    c_dep.additional_data.is_private = Some(true);
    let b_restored = vec![SharedDependency { dependency: c_dep, version: Version::new(2, 0, 0) }];
    let mut registry = Registry::new();
    registry.push_entry(RegistryEntry {
        id: "b".to_string(),
        versions: vec![package("b", Version::new(1, 2, 0), b_restored)],
    });
    registry.push_entry(RegistryEntry {
        id: "c".to_string(),
        versions: vec![package("c", Version::new(2, 0, 0), Vec::new())],
    });
    registry
}

#[test]
fn self_reference_is_a_noop_up_to_case() {
    let registry = Registry::new();
    let mut collected = DependencyMap::new();
    let dep = dependency("MyLib", "^1.0.0");
    let r = dep.collect(&"mylib".to_string(), &mut collected, &registry, 10);
    assert!(r.is_ok());
    assert_eq!(collected.entry_count(), 0);
}

#[test]
fn end_to_end_private_dependency_is_not_reexposed() {
    let registry = scenario_registry();
    let mut collected = DependencyMap::new();
    let dep_b = dependency("b", "^1.0.0");
    let r = dep_b.collect(&"a".to_string(), &mut collected, &registry, 10);
    assert!(r.is_ok());
    let b = collected.lookup_id(&"b".to_string()).expect("b must be collected");
    assert_eq!(b.config.info.version, Version::new(1, 2, 0));
    assert!(collected.lookup_id(&"c".to_string()).is_none());
}

#[test]
fn end_to_end_owner_still_sees_its_private_dependency() {
    let registry = scenario_registry();
    let mut collected = DependencyMap::new();
    let mut dep_c = dependency("c", "^2.0.0");
    dep_c.additional_data.is_private = Some(true);
    let r = dep_c.collect(&"b".to_string(), &mut collected, &registry, 10);
    assert!(r.is_ok());
    let c = collected.lookup_id(&"c".to_string()).expect("c must be in b's own closure");
    assert_eq!(c.config.info.version, Version::new(2, 0, 0));
}

#[test]
fn unresolvable_id_fails_naming_it() {
    let registry = scenario_registry();
    let mut collected = DependencyMap::new();
    let dep = dependency("nosuch", "^1.0.0");
    let r = dep.collect(&"a".to_string(), &mut collected, &registry, 10);
    match r {
        Err(CollectError::Unresolved(id)) => assert_eq!(id, "nosuch".to_string()),
        other => panic!("expected an unresolved failure, got {:?}", other),
    }
    let msg = CollectError::Unresolved("nosuch".to_string()).message();
    assert_eq!(msg, "Could not find config for nosuch".to_string());
}

#[test]
fn no_version_in_range_fails() {
    let registry = scenario_registry();
    let mut collected = DependencyMap::new();
    let dep = dependency("b", "^3.0.0");
    let r = dep.collect(&"a".to_string(), &mut collected, &registry, 10);
    assert!(matches!(r, Err(CollectError::Unresolved(_))));
}

#[test]
fn cyclic_graph_is_reported_not_recursed_forever() {
    // d's restored dependencies lead back to d itself.
    let d_self = SharedDependency {
        dependency: dependency("d", "^1.0.0"),
        version: Version::new(1, 0, 0),
    };
    let mut registry = Registry::new();
    registry.push_entry(RegistryEntry {
        id: "d".to_string(),
        versions: vec![package("d", Version::new(1, 0, 0), vec![d_self])],
    });
    let mut collected = DependencyMap::new();
    let dep = dependency("d", "^1.0.0");
    let r = dep.collect(&"a".to_string(), &mut collected, &registry, 10);
    assert!(matches!(r, Err(CollectError::CycleDetected)));
}

#[test]
fn cycle_failure_has_its_fixed_message() {
    assert_eq!(
        CollectError::CycleDetected.message(),
        "Dependency cycle detected".to_string()
    );
}

#[test]
fn recollecting_a_dependency_shadows_the_earlier_entry() {
    let registry = scenario_registry();
    let dep_b = dependency("b", "^1.0.0");
    let mut collected = DependencyMap::new();
    dep_b.collect(&"a".to_string(), &mut collected, &registry, 10).unwrap();
    dep_b.collect(&"a".to_string(), &mut collected, &registry, 10).unwrap();
    assert_eq!(collected.entry_count(), 2);
    let b = collected.lookup_id(&"b".to_string()).unwrap();
    assert_eq!(b.config.info.version, Version::new(1, 2, 0));
}

#[test]
fn first_version_in_resolver_order_satisfying_the_range_wins() {
    let mut registry = Registry::new();
    registry.push_entry(RegistryEntry {
        id: "b".to_string(),
        versions: vec![
            package("b", Version::new(2, 0, 0), Vec::new()),
            package("b", Version::new(1, 5, 0), Vec::new()),
            package("b", Version::new(1, 2, 0), Vec::new()),
        ],
    });
    let dep = dependency("b", "^1.0.0");
    let resolved = dep.get_shared_package(&registry).expect("a 1.x version exists");
    assert_eq!(resolved.config.info.version, Version::new(1, 5, 0));
}

#[test]
fn resolved_mod_link_is_inherited_when_absent() {
    let mut pkg = package("b", Version::new(1, 0, 0), Vec::new());
    pkg.config.info.additional_data.mod_link = Some("https://example.test/b.qmod".to_string());
    let mut registry = Registry::new();
    registry.push_entry(RegistryEntry { id: "b".to_string(), versions: vec![pkg] });
    let mut collected = DependencyMap::new();
    let dep = dependency("b", "^1.0.0");
    dep.collect(&"a".to_string(), &mut collected, &registry, 10).unwrap();
    assert_eq!(collected.entry_count(), 1);
    let (bound, _) = collected.entry_at(0);
    assert_eq!(
        bound.dependency.additional_data.mod_link,
        Some("https://example.test/b.qmod".to_string())
    );
    assert_eq!(bound.version, Version::new(1, 0, 0));
}

#[test]
fn declared_mod_link_is_kept_over_the_resolved_one() {
    let mut pkg = package("b", Version::new(1, 0, 0), Vec::new());
    pkg.config.info.additional_data.mod_link = Some("https://example.test/b.qmod".to_string());
    let mut registry = Registry::new();
    registry.push_entry(RegistryEntry { id: "b".to_string(), versions: vec![pkg] });
    let mut collected = DependencyMap::new();
    let mut dep = dependency("b", "^1.0.0");
    dep.additional_data.mod_link = Some("https://example.test/mine.qmod".to_string());
    dep.collect(&"a".to_string(), &mut collected, &registry, 10).unwrap();
    let (bound, _) = collected.entry_at(0);
    assert_eq!(
        bound.dependency.additional_data.mod_link,
        Some("https://example.test/mine.qmod".to_string())
    );
}
