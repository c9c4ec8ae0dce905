use vstd::prelude::*;
use crate::package::{AdditionalPackageData, AdditionalPackageDataView};

verus! {

/// Optional overrides attached to a declared dependency. Every field is
/// independently optional; absence means "inherit/default", never "false" or
/// "empty".
#[derive(Debug)]
pub struct AdditionalDependencyData {
    /// Copy the dependency from a path local to the project instead of
    /// fetching it remotely.
    pub local_path: Option<String>,
    /// Whether the package is header only.
    pub headers_only: Option<bool>,
    /// Whether the package is statically linked.
    pub static_linking: Option<bool>,
    /// Whether to link against the release binary.
    pub use_release: Option<bool>,
    /// Where to fetch the binary.
    pub so_link: Option<String>,
    /// Where to fetch the debug binary.
    pub debug_so_link: Option<String>,
    /// Overrides the binary file name.
    pub override_so_name: Option<String>,
    /// Where to fetch the mod package.
    pub mod_link: Option<String>,
    /// Branch name of the source-control repository to fetch from.
    pub branch_name: Option<String>,
    /// Additional files to be fetched.
    pub extra_files: Option<Vec<String>>,
    /// Whether the dependency is private: a private dependency is not
    /// re-exposed to consumers of the package that declares it.
    pub is_private: Option<bool>,
}

/// The mathematical value of an [`AdditionalDependencyData`].
#[verifier::ext_equal]
pub struct AdditionalDependencyDataView {
    pub local_path: Option<Seq<char>>,
    pub headers_only: Option<bool>,
    pub static_linking: Option<bool>,
    pub use_release: Option<bool>,
    pub so_link: Option<Seq<char>>,
    pub debug_so_link: Option<Seq<char>>,
    pub override_so_name: Option<Seq<char>>,
    pub mod_link: Option<Seq<char>>,
    pub branch_name: Option<Seq<char>>,
    pub extra_files: Option<Seq<Seq<char>>>,
    pub is_private: Option<bool>,
}

impl View for AdditionalDependencyData {
    type V = AdditionalDependencyDataView;

    open spec fn view(&self) -> AdditionalDependencyDataView {
        AdditionalDependencyDataView {
            local_path: self.local_path.deep_view(),
            headers_only: self.headers_only,
            static_linking: self.static_linking,
            use_release: self.use_release,
            so_link: self.so_link.deep_view(),
            debug_so_link: self.debug_so_link.deep_view(),
            override_so_name: self.override_so_name.deep_view(),
            mod_link: self.mod_link.deep_view(),
            branch_name: self.branch_name.deep_view(),
            extra_files: self.extra_files.deep_view(),
            is_private: self.is_private,
        }
    }
}

/// A declared requirement on another package: an id (a case-insensitive
/// identity token), a semantic-version constraint, and optional overrides.
#[derive(Debug)]
pub struct Dependency {
    pub id: String,
    pub version_range: String,
    pub additional_data: AdditionalDependencyData,
}

/// The mathematical value of a [`Dependency`].
#[verifier::ext_equal]
pub struct DependencyView {
    pub id: Seq<char>,
    pub version_range: Seq<char>,
    pub additional_data: AdditionalDependencyDataView,
}

impl View for Dependency {
    type V = DependencyView;

    open spec fn view(&self) -> DependencyView {
        DependencyView {
            id: self.id@,
            version_range: self.version_range@,
            additional_data: self.additional_data@,
        }
    }
}

/// How [`AdditionalDependencyData::merge`] combines two sets of overrides for
/// the same dependency slot: most specific wins, lists accumulate, privacy
/// ORs, and all other fields stay untouched.
pub open spec fn merged(a: AdditionalDependencyDataView, b: AdditionalDependencyDataView) -> AdditionalDependencyDataView {
    AdditionalDependencyDataView {
        branch_name: if a.branch_name is Some {
            a.branch_name
        } else {
            b.branch_name
        },
        extra_files: if a.extra_files is Some && b.extra_files is Some {
            Some(a.extra_files->Some_0 + b.extra_files->Some_0)
        } else if a.extra_files is Some {
            a.extra_files
        } else {
            b.extra_files
        },
        local_path: if a.local_path is Some {
            a.local_path
        } else {
            b.local_path
        },
        is_private: if a.is_private is Some && b.is_private is Some {
            Some(a.is_private->Some_0 || b.is_private->Some_0)
        } else if a.is_private is Some {
            a.is_private
        } else {
            b.is_private
        },
        ..a
    }
}

/// How [`AdditionalDependencyData::merge_package`] folds a resolved package's
/// own metadata into a dependency's view of it: the package's static-linking
/// declaration wins unconditionally when present, and the mod link only fills
/// a hole.
pub open spec fn package_merged(
    a: AdditionalDependencyDataView,
    p: AdditionalPackageDataView,
) -> AdditionalDependencyDataView {
    AdditionalDependencyDataView {
        static_linking: if p.static_linking is Some {
            p.static_linking
        } else {
            a.static_linking
        },
        mod_link: if a.mod_link is Some {
            a.mod_link
        } else {
            p.mod_link
        },
        ..a
    }
}

/// Copies a vector of strings, element for element.
pub(crate) fn clone_vec_string(v: &Vec<String>) -> (r: Vec<String>)
    ensures
        r.deep_view() == v.deep_view(),
{
    let mut r: Vec<String> = Vec::new();
    let mut i: usize = 0;
    while i < v.len()
        invariant
            i <= v.len(),
            r@.len() == i,
            forall|j: int| 0 <= j < i ==> r@[j]@ == v@[j]@,
        decreases v.len() - i,
    {
        r.push(v[i].clone());
        i += 1;
    }
    proof {
        assert(r.deep_view() =~= v.deep_view());
    }
    r
}

/// Copies an optional string.
pub(crate) fn clone_opt_string(o: &Option<String>) -> (r: Option<String>)
    ensures
        r.deep_view() == o.deep_view(),
{
    match o {
        Some(s) => Some(s.clone()),
        None => None,
    }
}

impl AdditionalDependencyData {
    /// A value with every override absent.
    pub fn empty() -> (r: AdditionalDependencyData)
        ensures
            r@ == (AdditionalDependencyDataView {
                local_path: None,
                headers_only: None,
                static_linking: None,
                use_release: None,
                so_link: None,
                debug_so_link: None,
                override_so_name: None,
                mod_link: None,
                branch_name: None,
                extra_files: None,
                is_private: None,
            }),
    {
        AdditionalDependencyData {
            local_path: None,
            headers_only: None,
            static_linking: None,
            use_release: None,
            so_link: None,
            debug_so_link: None,
            override_so_name: None,
            mod_link: None,
            branch_name: None,
            extra_files: None,
            is_private: None,
        }
    }

    /// An exact copy of this value.
    pub fn duplicate(&self) -> (r: AdditionalDependencyData)
        ensures
            r@ == self@,
    {
        let r = AdditionalDependencyData {
            local_path: clone_opt_string(&self.local_path),
            headers_only: self.headers_only,
            static_linking: self.static_linking,
            use_release: self.use_release,
            so_link: clone_opt_string(&self.so_link),
            debug_so_link: clone_opt_string(&self.debug_so_link),
            override_so_name: clone_opt_string(&self.override_so_name),
            mod_link: clone_opt_string(&self.mod_link),
            branch_name: clone_opt_string(&self.branch_name),
            extra_files: match &self.extra_files {
                Some(v) => Some(clone_vec_string(v)),
                None => None,
            },
            is_private: self.is_private,
        };
        proof {
            assert(r@ =~= self@);
        }
        r
    }

    /// Combines another occurrence of overrides for the same dependency slot
    /// into this one: `branch_name` and `local_path` keep this value when
    /// present, `extra_files` concatenates (this value's entries first,
    /// without deduplication), `is_private` ORs when both are present, and
    /// every other field is untouched.
    pub fn merge(&mut self, other: AdditionalDependencyData)
        ensures
            final(self)@ == merged(old(self)@, other@),
    {
        if self.branch_name.is_none() {
            if let Some(other_branch_name) = &other.branch_name {
                self.branch_name = Some(other_branch_name.clone());
            }
        }

        if self.extra_files.is_some() {
            if other.extra_files.is_some() {
                let mut mine = clone_vec_string(self.extra_files.as_ref().unwrap());
                let mut theirs = clone_vec_string(other.extra_files.as_ref().unwrap());
                mine.append(&mut theirs);
                self.extra_files = Some(mine);
            }
        } else {
            if let Some(other_extra_files) = &other.extra_files {
                self.extra_files = Some(clone_vec_string(other_extra_files));
            }
        }

        if self.local_path.is_none() {
            if let Some(other_local_path) = &other.local_path {
                self.local_path = Some(other_local_path.clone());
            }
        }

        if self.is_private.is_some() && other.is_private.is_some() {
            let a = self.is_private.unwrap();
            let b = other.is_private.unwrap();
            self.is_private = Some(a || b);
        } else if self.is_private.is_none() {
            if let Some(other_is_private) = &other.is_private {
                self.is_private = Some(*other_is_private);
            }
        }
        proof {
            assert(final(self)@ =~= merged(old(self)@, other@));
        }
    }

    /// Folds a resolved package's own metadata into this dependency's view of
    /// it: the package's `static_linking` wins unconditionally when present;
    /// `mod_link` is taken from the package only when this value has none.
    pub fn merge_package(&mut self, other: AdditionalPackageData)
        ensures
            final(self)@ == package_merged(old(self)@, other@),
    {
        if other.static_linking.is_some() {
            self.static_linking = other.static_linking;
        }

        if self.mod_link.is_none() {
            self.mod_link = other.mod_link;
        }
        proof {
            assert(final(self)@ =~= package_merged(old(self)@, other@));
        }
    }
}

impl Dependency {
    /// An exact copy of this value.
    pub fn duplicate(&self) -> (r: Dependency)
        ensures
            r@ == self@,
    {
        let r = Dependency {
            id: self.id.clone(),
            version_range: self.version_range.clone(),
            additional_data: self.additional_data.duplicate(),
        };
        proof {
            assert(r@ =~= self@);
        }
        r
    }
}

} // verus!
