use vstd::prelude::*;
use vstd::string::StringExecFns;
use crate::version::Version;
use crate::dependency::{clone_opt_string, Dependency, DependencyView};

verus! {

/// Package-level optional metadata: the fields of a resolved package's own
/// configuration that this library's rules read.
#[derive(Debug)]
pub struct AdditionalPackageData {
    /// Whether the package declares itself statically linked.
    pub static_linking: Option<bool>,
    /// Where to fetch the package's mod package.
    pub mod_link: Option<String>,
    /// Overrides the binary file name.
    pub override_so_name: Option<String>,
}

/// The mathematical value of an [`AdditionalPackageData`].
#[verifier::ext_equal]
pub struct AdditionalPackageDataView {
    pub static_linking: Option<bool>,
    pub mod_link: Option<Seq<char>>,
    pub override_so_name: Option<Seq<char>>,
}

impl View for AdditionalPackageData {
    type V = AdditionalPackageDataView;

    open spec fn view(&self) -> AdditionalPackageDataView {
        AdditionalPackageDataView {
            static_linking: self.static_linking,
            mod_link: self.mod_link.deep_view(),
            override_so_name: self.override_so_name.deep_view(),
        }
    }
}

impl AdditionalPackageData {
    /// An exact copy of this value.
    pub fn duplicate(&self) -> (r: AdditionalPackageData)
        ensures
            r@ == self@,
    {
        let r = AdditionalPackageData {
            static_linking: self.static_linking,
            mod_link: clone_opt_string(&self.mod_link),
            override_so_name: clone_opt_string(&self.override_so_name),
        };
        proof {
            assert(r@ =~= self@);
        }
        r
    }
}

/// The identity of one concrete package version.
#[derive(Debug)]
pub struct PackageInfo {
    pub id: String,
    pub version: Version,
    pub additional_data: AdditionalPackageData,
}

/// The mathematical value of a [`PackageInfo`].
#[verifier::ext_equal]
pub struct PackageInfoView {
    pub id: Seq<char>,
    pub version: Version,
    pub additional_data: AdditionalPackageDataView,
}

impl View for PackageInfo {
    type V = PackageInfoView;

    open spec fn view(&self) -> PackageInfoView {
        PackageInfoView { id: self.id@, version: self.version, additional_data: self.additional_data@ }
    }
}

impl PackageInfo {
    /// An exact copy of this value.
    pub fn duplicate(&self) -> (r: PackageInfo)
        ensures
            r@ == self@,
    {
        let r = PackageInfo {
            id: self.id.clone(),
            version: self.version,
            additional_data: self.additional_data.duplicate(),
        };
        proof {
            assert(r@ =~= self@);
        }
        r
    }
}

/// One package version's own configuration: its identity and the directory
/// holding the files it shares with consumers.
#[derive(Debug)]
pub struct PackageConfig {
    pub info: PackageInfo,
    pub shared_dir: String,
}

/// The mathematical value of a [`PackageConfig`].
#[verifier::ext_equal]
pub struct PackageConfigView {
    pub info: PackageInfoView,
    pub shared_dir: Seq<char>,
}

impl View for PackageConfig {
    type V = PackageConfigView;

    open spec fn view(&self) -> PackageConfigView {
        PackageConfigView { info: self.info@, shared_dir: self.shared_dir@ }
    }
}

/// The binary file name of a package: the overriding name when the package
/// declares one, and `lib{id}.so` otherwise.
pub open spec fn so_name_chars(c: PackageConfigView) -> Seq<char> {
    if c.info.additional_data.override_so_name is Some {
        c.info.additional_data.override_so_name->Some_0
    } else {
        seq!['l', 'i', 'b'] + c.info.id + seq!['.', 's', 'o']
    }
}

impl PackageConfig {
    /// An exact copy of this value.
    pub fn duplicate(&self) -> (r: PackageConfig)
        ensures
            r@ == self@,
    {
        let r = PackageConfig { info: self.info.duplicate(), shared_dir: self.shared_dir.clone() };
        proof {
            assert(r@ =~= self@);
        }
        r
    }

    /// The binary file name of this package.
    pub fn get_so_name(&self) -> (r: String)
        ensures
            r@ == so_name_chars(self@),
    {
        match &self.info.additional_data.override_so_name {
            Some(n) => n.clone(),
            None => {
                proof {
                    reveal_strlit("lib");
                    reveal_strlit(".so");
                    assert("lib"@ =~= seq!['l', 'i', 'b']);
                    assert(".so"@ =~= seq!['.', 's', 'o']);
                }
                let s = <String as vstd::string::StringExecFns>::from_str("lib");
                let s = s.concat(self.info.id.as_str());
                let r = s.concat(".so");
                proof {
                    assert(r@ =~= so_name_chars(self@));
                }
                r
            },
        }
    }
}

/// A declared dependency bound to the concrete version it resolved to. Its
/// identity is the full structural value of both parts, the version range
/// included.
#[derive(Debug)]
pub struct SharedDependency {
    pub dependency: Dependency,
    pub version: Version,
}

/// The mathematical value of a [`SharedDependency`].
#[verifier::ext_equal]
pub struct SharedDependencyView {
    pub dependency: DependencyView,
    pub version: Version,
}

impl View for SharedDependency {
    type V = SharedDependencyView;

    open spec fn view(&self) -> SharedDependencyView {
        SharedDependencyView { dependency: self.dependency@, version: self.version }
    }
}

impl SharedDependency {
    /// An exact copy of this value.
    pub fn duplicate(&self) -> (r: SharedDependency)
        ensures
            r@ == self@,
    {
        let r = SharedDependency { dependency: self.dependency.duplicate(), version: self.version };
        proof {
            assert(r@ =~= self@);
        }
        r
    }
}

/// The mathematical values of a sequence of shared dependencies.
pub open spec fn deps_view(s: Seq<SharedDependency>) -> Seq<SharedDependencyView> {
    Seq::new(s.len(), |i: int| s[i]@)
}

/// The full resolved configuration of one concrete package version: its own
/// configuration and the already-resolved transitive dependency list recorded
/// when it was itself resolved.
#[derive(Debug)]
pub struct SharedPackageConfig {
    pub config: PackageConfig,
    pub restored_dependencies: Vec<SharedDependency>,
}

/// The mathematical value of a [`SharedPackageConfig`].
#[verifier::ext_equal]
pub struct SharedPackageConfigView {
    pub config: PackageConfigView,
    pub restored_dependencies: Seq<SharedDependencyView>,
}

impl View for SharedPackageConfig {
    type V = SharedPackageConfigView;

    open spec fn view(&self) -> SharedPackageConfigView {
        SharedPackageConfigView {
            config: self.config@,
            restored_dependencies: deps_view(self.restored_dependencies@),
        }
    }
}

/// Copies a vector of shared dependencies, element for element.
pub(crate) fn clone_shared_dependencies(v: &Vec<SharedDependency>) -> (r: Vec<SharedDependency>)
    ensures
        deps_view(r@) == deps_view(v@),
{
    let mut r: Vec<SharedDependency> = Vec::new();
    let mut i: usize = 0;
    while i < v.len()
        invariant
            i <= v.len(),
            r@.len() == i,
            forall|j: int| 0 <= j < i ==> r@[j]@ == v@[j]@,
        decreases v.len() - i,
    {
        r.push(v[i].duplicate());
        i += 1;
    }
    proof {
        assert(deps_view(r@) =~= deps_view(v@));
    }
    r
}

impl SharedPackageConfig {
    /// An exact copy of this value.
    pub fn duplicate(&self) -> (r: SharedPackageConfig)
        ensures
            r@ == self@,
    {
        let r = SharedPackageConfig {
            config: self.config.duplicate(),
            restored_dependencies: clone_shared_dependencies(&self.restored_dependencies),
        };
        proof {
            assert(r@ =~= self@);
        }
        r
    }
}

} // verus!
