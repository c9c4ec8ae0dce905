use qpm_core::{AdditionalDependencyData, AdditionalPackageData};

fn package_data(static_linking: Option<bool>, mod_link: Option<&str>) -> AdditionalPackageData {
    AdditionalPackageData {
        static_linking,
        mod_link: mod_link.map(|s| s.to_string()),
        override_so_name: None,
    }
}

#[test]
fn merge_concatenates_extra_files() {
    let mut a = AdditionalDependencyData::empty();
    a.extra_files = Some(vec!["a".to_string()]);
    let mut b = AdditionalDependencyData::empty();
    b.extra_files = Some(vec!["b".to_string(), "c".to_string()]);
    a.merge(b);
    assert_eq!(
        a.extra_files,
        Some(vec!["a".to_string(), "b".to_string(), "c".to_string()])
    );
}

#[test]
fn merge_extra_files_takes_other_when_absent() {
    let mut a = AdditionalDependencyData::empty();
    let mut b = AdditionalDependencyData::empty();
    b.extra_files = Some(vec!["x".to_string()]);
    a.merge(b);
    assert_eq!(a.extra_files, Some(vec!["x".to_string()]));
}

#[test]
fn merge_is_private_ors_when_both_present() {
    let mut a = AdditionalDependencyData::empty();
    a.is_private = Some(true);
    let mut b = AdditionalDependencyData::empty();
    b.is_private = Some(false);
    a.merge(b);
    assert_eq!(a.is_private, Some(true));

    let mut c = AdditionalDependencyData::empty();
    c.is_private = Some(false);
    let mut d = AdditionalDependencyData::empty();
    d.is_private = Some(false);
    c.merge(d);
    assert_eq!(c.is_private, Some(false));
}

#[test]
fn merge_is_private_takes_other_when_absent() {
    let mut a = AdditionalDependencyData::empty();
    let mut b = AdditionalDependencyData::empty();
    b.is_private = Some(true);
    a.merge(b);
    assert_eq!(a.is_private, Some(true));
}

#[test]
fn merge_branch_name_keeps_self_when_present() {
    let mut a = AdditionalDependencyData::empty();
    a.branch_name = Some("main".to_string());
    let mut b = AdditionalDependencyData::empty();
    b.branch_name = Some("dev".to_string());
    a.merge(b);
    assert_eq!(a.branch_name, Some("main".to_string()));
}

#[test]
fn merge_local_path_takes_other_when_absent() {
    let mut a = AdditionalDependencyData::empty();
    let mut b = AdditionalDependencyData::empty();
    b.local_path = Some("../sibling".to_string());
    a.merge(b);
    assert_eq!(a.local_path, Some("../sibling".to_string()));
}

#[test]
fn merge_leaves_other_fields_untouched() {
    let mut a = AdditionalDependencyData::empty();
    a.so_link = Some("https://example.test/a.so".to_string());
    a.headers_only = Some(true);
    let mut b = AdditionalDependencyData::empty();
    b.so_link = Some("https://example.test/b.so".to_string());
    b.headers_only = Some(false);
    a.merge(b);
    assert_eq!(a.so_link, Some("https://example.test/a.so".to_string()));
    assert_eq!(a.headers_only, Some(true));
}

#[test]
fn merge_package_fills_missing_mod_link() {
    let mut a = AdditionalDependencyData::empty();
    a.merge_package(package_data(None, Some("x")));
    assert_eq!(a.mod_link, Some("x".to_string()));
}

#[test]
fn merge_package_keeps_existing_mod_link() {
    let mut a = AdditionalDependencyData::empty();
    a.mod_link = Some("y".to_string());
    a.merge_package(package_data(None, Some("x")));
    assert_eq!(a.mod_link, Some("y".to_string()));
}

#[test]
fn merge_package_static_linking_package_wins() {
    let mut a = AdditionalDependencyData::empty();
    a.static_linking = Some(true);
    a.merge_package(package_data(Some(false), None));
    assert_eq!(a.static_linking, Some(false));

    let mut b = AdditionalDependencyData::empty();
    b.static_linking = Some(true);
    b.merge_package(package_data(None, None));
    assert_eq!(b.static_linking, Some(true));
}
