use qpm_core::{
    AdditionalPackageData, FileRepository, PackageConfig, PackageInfo, RepositoryError,
    SharedPackageConfig, Version,
};

fn package(id: &str, version: Version) -> SharedPackageConfig {
    SharedPackageConfig {
        config: PackageConfig {
            info: PackageInfo {
                id: id.to_string(),
                version,
                additional_data: AdditionalPackageData {
                    static_linking: None,
                    mod_link: None,
                    override_so_name: None,
                },
            },
            shared_dir: "shared".to_string(),
        },
        restored_dependencies: Vec::new(),
    }
}

#[test]
fn added_artifacts_are_found_by_id_and_version() {
    let mut repo = FileRepository::new();
    repo.add_artifact(package("a", Version::new(1, 0, 0)), None).unwrap();
    repo.add_artifact(package("a", Version::new(1, 1, 0)), None).unwrap();
    repo.add_artifact(package("b", Version::new(2, 0, 0)), None).unwrap();

    let a10 = repo.get_artifact(&"a".to_string(), &Version::new(1, 0, 0)).unwrap();
    assert_eq!(a10.config.info.version, Version::new(1, 0, 0));
    let a11 = repo.get_artifact(&"a".to_string(), &Version::new(1, 1, 0)).unwrap();
    assert_eq!(a11.config.info.version, Version::new(1, 1, 0));
    let b20 = repo.get_artifact(&"b".to_string(), &Version::new(2, 0, 0)).unwrap();
    assert_eq!(b20.config.info.id, "b".to_string());
}

#[test]
fn absent_entries_are_none() {
    let mut repo = FileRepository::new();
    repo.add_artifact(package("a", Version::new(1, 0, 0)), None).unwrap();
    assert!(repo.get_artifact(&"a".to_string(), &Version::new(9, 0, 0)).is_none());
    assert!(repo.get_artifact(&"zzz".to_string(), &Version::new(1, 0, 0)).is_none());
    assert!(repo.get_artifacts_from_id(&"zzz".to_string()).is_none());
}

#[test]
fn bucket_lists_every_version_of_an_id() {
    let mut repo = FileRepository::new();
    repo.add_artifact(package("a", Version::new(1, 0, 0)), None).unwrap();
    repo.add_artifact(package("a", Version::new(1, 1, 0)), None).unwrap();
    let bucket = repo.get_artifacts_from_id(&"a".to_string()).unwrap();
    assert_eq!(bucket.len(), 2);
    assert_eq!(bucket[0].0, Version::new(1, 0, 0));
    assert_eq!(bucket[1].0, Version::new(1, 1, 0));
}

#[test]
fn matching_staged_version_is_accepted() {
    let mut repo = FileRepository::new();
    let r = repo.add_artifact(package("a", Version::new(2, 0, 0)), Some(Version::new(2, 0, 0)));
    assert!(r.is_ok());
    assert!(repo.get_artifact(&"a".to_string(), &Version::new(2, 0, 0)).is_some());
}

#[test]
fn mismatched_staged_version_is_fatal_and_records_nothing() {
    let mut repo = FileRepository::new();
    let r = repo.add_artifact(package("a", Version::new(2, 0, 0)), Some(Version::new(1, 0, 0)));
    assert_eq!(
        r,
        Err(RepositoryError::VersionMismatch {
            expected: Version::new(2, 0, 0),
            declared: Version::new(1, 0, 0),
        })
    );
    assert!(repo.get_artifact(&"a".to_string(), &Version::new(2, 0, 0)).is_none());
    assert!(repo.get_artifacts_from_id(&"a".to_string()).is_none());
}

#[test]
fn reinserted_version_shadows_the_earlier_artifact() {
    let mut repo = FileRepository::new();
    repo.add_artifact(package("a", Version::new(1, 0, 0)), None).unwrap();
    let mut newer = package("a", Version::new(1, 0, 0));
    newer.config.shared_dir = "include".to_string();
    repo.add_artifact(newer, None).unwrap();
    let got = repo.get_artifact(&"a".to_string(), &Version::new(1, 0, 0)).unwrap();
    assert_eq!(got.config.shared_dir, "include".to_string());
}

#[test]
fn reloading_recorded_entries_rebuilds_an_equal_repository() {
    let mut repo = FileRepository::new();
    repo.add_artifact(package("a", Version::new(1, 0, 0)), None).unwrap();
    repo.add_artifact(package("a", Version::new(1, 1, 0)), None).unwrap();
    repo.add_artifact(package("b", Version::new(2, 0, 0)), None).unwrap();

    let copy = repo.reloaded();
    assert_eq!(copy.bucket_count(), 2);
    for (id, version) in [
        ("a", Version::new(1, 0, 0)),
        ("a", Version::new(1, 1, 0)),
        ("b", Version::new(2, 0, 0)),
    ] {
        let got = copy.get_artifact(&id.to_string(), &version).unwrap();
        assert_eq!(got.config.info.id, id.to_string());
        assert_eq!(got.config.info.version, version);
    }
}

#[test]
fn global_paths_end_with_the_fixed_names() {
    if let Some(dir) = FileRepository::global_repository_dir() {
        assert!(dir.ends_with("/QPM-Rust"));
    }
    if let Some(path) = FileRepository::global_file_repository_path() {
        assert!(path.ends_with("/QPM-Rust/qpm.repository.json"));
    }
}
