use qpm_core::cache::{cache_write_plan, CacheAction};
use qpm_core::{AdditionalPackageData, PackageConfig, PackageInfo, Version};

fn config(id: &str, version: Version, override_so_name: Option<&str>) -> PackageConfig {
    PackageConfig {
        info: PackageInfo {
            id: id.to_string(),
            version,
            additional_data: AdditionalPackageData {
                static_linking: None,
                mod_link: None,
                override_so_name: override_so_name.map(|s| s.to_string()),
            },
        },
        shared_dir: "shared".to_string(),
    }
}

#[test]
fn version_renders_as_dotted_decimal() {
    assert_eq!(Version::new(1, 0, 0).to_version_string(), "1.0.0".to_string());
    assert_eq!(Version::new(12, 34, 567).to_version_string(), "12.34.567".to_string());
}

#[test]
fn so_name_defaults_to_lib_id_so_and_honours_the_override() {
    let plain = config("beatsaber-hook", Version::new(1, 0, 0), None);
    assert_eq!(plain.get_so_name(), "libbeatsaber-hook.so".to_string());
    let named = config("x", Version::new(1, 0, 0), Some("libcustom.so"));
    assert_eq!(named.get_so_name(), "libcustom.so".to_string());
}

#[test]
fn recovery_plan_removes_tmp_then_stages_src() {
    let c = config("a", Version::new(1, 0, 0), None);
    let plan = cache_write_plan(
        &c,
        &"/cache".to_string(),
        &"/proj".to_string(),
        &None,
        true,
        false,
    );
    assert_eq!(plan.len(), 4);
    match &plan[0] {
        CacheAction::RemoveDirAll(p) => assert_eq!(p, "/cache/a/1.0.0/tmp"),
        other => panic!("expected the tmp removal first, got {:?}", other),
    }
    match &plan[1] {
        CacheAction::CreateDirAll(p) => assert_eq!(p, "/cache/a/1.0.0/src"),
        other => panic!("expected the src creation, got {:?}", other),
    }
    match &plan[2] {
        CacheAction::CopyFile(s, d) => {
            assert_eq!(s, "/proj/shared");
            assert_eq!(d, "/cache/a/1.0.0/src/shared");
        },
        other => panic!("expected the shared-directory copy, got {:?}", other),
    }
    match &plan[3] {
        CacheAction::CopyFile(s, d) => {
            assert_eq!(s, "/proj/qpm.json");
            assert_eq!(d, "/cache/a/1.0.0/src/qpm.json");
        },
        other => panic!("expected the package-config copy, got {:?}", other),
    }
}

#[test]
fn full_overwrite_removes_an_existing_src_too() {
    let c = config("a", Version::new(1, 0, 0), None);
    let plan = cache_write_plan(
        &c,
        &"/cache".to_string(),
        &"/proj".to_string(),
        &None,
        true,
        true,
    );
    assert_eq!(plan.len(), 5);
    assert!(matches!(&plan[0], CacheAction::RemoveDirAll(p) if p == "/cache/a/1.0.0/tmp"));
    assert!(matches!(&plan[1], CacheAction::RemoveDirAll(p) if p == "/cache/a/1.0.0/src"));
}

#[test]
fn a_built_binary_is_staged_into_lib_under_the_computed_name() {
    let c = config("a", Version::new(2, 1, 3), None);
    let plan = cache_write_plan(
        &c,
        &"/cache".to_string(),
        &"/proj".to_string(),
        &Some("/proj/build/out.so".to_string()),
        false,
        false,
    );
    assert_eq!(plan.len(), 5);
    assert!(matches!(&plan[3], CacheAction::CreateDirAll(p) if p == "/cache/a/2.1.3/lib"));
    match &plan[4] {
        CacheAction::CopyFile(s, d) => {
            assert_eq!(s, "/proj/build/out.so");
            assert_eq!(d, "/cache/a/2.1.3/lib/liba.so");
        },
        other => panic!("expected the binary copy, got {:?}", other),
    }
}
