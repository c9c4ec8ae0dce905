//! Dependency-resolution and local-artifact-cache core of a package manager.
//!
//! Given a package's declared dependencies (an id, a semantic-version
//! constraint and optional metadata overrides), this library computes the
//! transitive closure of concrete package versions the package needs, and it
//! maintains an in-memory picture of the per-user artifact repository that
//! maps (package id, resolved version) to package metadata, together with the
//! staging plan and integrity rules for the on-disk artifact cache.
//!
//! Remote resolution, disk access and JSON persistence live outside this
//! crate; the library works on plain values handed in from that boundary.

pub mod version;
pub mod dependency;
pub mod package;
pub mod resolver;
pub mod map_fold;
pub mod paths;
pub mod file_repository;
pub mod cache;
pub mod collect;

pub use version::Version;
pub use dependency::{AdditionalDependencyData, Dependency};
pub use package::{
    AdditionalPackageData, PackageConfig, PackageInfo, SharedDependency, SharedPackageConfig,
};
pub use resolver::{Registry, RegistryEntry};
pub use collect::{CollectError, DependencyMap};
pub use file_repository::{FileRepository, RepositoryError};
pub use cache::CacheAction;
