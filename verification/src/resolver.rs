use vstd::prelude::*;
use crate::version::{range_matches, range_matches_spec};
use crate::package::{SharedPackageConfig, SharedPackageConfigView};
use crate::dependency::{Dependency, DependencyView};

verus! {

/// Everything the version resolver knows of one package id: the available
/// versions, each with its full resolved configuration, in the resolver's own
/// order. The first entry satisfying a range is authoritative.
pub struct RegistryEntry {
    pub id: String,
    pub versions: Vec<SharedPackageConfig>,
}

/// The mathematical value of a [`RegistryEntry`].
#[verifier::ext_equal]
pub struct RegistryEntryView {
    pub id: Seq<char>,
    pub versions: Seq<SharedPackageConfigView>,
}

impl View for RegistryEntry {
    type V = RegistryEntryView;

    open spec fn view(&self) -> RegistryEntryView {
        RegistryEntryView {
            id: self.id@,
            versions: Seq::new(self.versions@.len(), |i: int| self.versions@[i]@),
        }
    }
}

/// An in-memory picture of the version resolver's answers: for each package
/// id, the known versions in the resolver's order. The resolver itself is a
/// remote service outside this library; callers query it at that boundary and
/// hand the answers in as plain values.
pub struct Registry {
    pub packages: Vec<RegistryEntry>,
}

impl View for Registry {
    type V = Seq<RegistryEntryView>;

    open spec fn view(&self) -> Seq<RegistryEntryView> {
        Seq::new(self.packages@.len(), |i: int| self.packages@[i]@)
    }
}

/// The versions the registry knows of `id`: those of its first entry for that
/// id, in the resolver's order; `None` when the id is unknown.
pub open spec fn spec_get_versions(reg: Seq<RegistryEntryView>, id: Seq<char>) -> Option<
    Seq<SharedPackageConfigView>,
>
    decreases reg.len(),
{
    if reg.len() == 0 {
        None
    } else if reg[0].id == id {
        Some(reg[0].versions)
    } else {
        spec_get_versions(reg.drop_first(), id)
    }
}

/// The first configuration among `versions` whose concrete version satisfies
/// `range`; `None` when no version satisfies it.
pub open spec fn spec_first_match(versions: Seq<SharedPackageConfigView>, range: Seq<char>) -> Option<
    SharedPackageConfigView,
>
    decreases versions.len(),
{
    if versions.len() == 0 {
        None
    } else if range_matches_spec(
        range,
        versions[0].config.info.version.major,
        versions[0].config.info.version.minor,
        versions[0].config.info.version.patch,
    ) {
        Some(versions[0])
    } else {
        spec_first_match(versions.drop_first(), range)
    }
}

/// What a dependency resolves to against a registry: the first version, in
/// the resolver's order, of the dependency's id that satisfies its range.
pub open spec fn spec_resolve(reg: Seq<RegistryEntryView>, dep: DependencyView) -> Option<
    SharedPackageConfigView,
> {
    match spec_get_versions(reg, dep.id) {
        None => None,
        Some(vs) => spec_first_match(vs, dep.version_range),
    }
}

impl Registry {
    /// A registry that knows nothing.
    pub fn new() -> (r: Registry)
        ensures
            r@ == Seq::<RegistryEntryView>::empty(),
    {
        let r = Registry { packages: Vec::new() };
        proof {
            assert(r@ =~= Seq::<RegistryEntryView>::empty());
        }
        r
    }

    /// Records what the resolver answered for one package id.
    pub fn push_entry(&mut self, entry: RegistryEntry)
        ensures
            final(self)@ == old(self)@.push(entry@),
    {
        self.packages.push(entry);
        proof {
            assert(final(self)@ =~= old(self)@.push(self.packages@.last()@));
        }
    }

    /// The known versions of `id`, in the resolver's order.
    pub fn get_versions(&self, id: &String) -> (r: Option<&Vec<SharedPackageConfig>>)
        ensures
            match r {
                Some(vs) => spec_get_versions(self@, id@) == Some(
                    Seq::new(vs@.len(), |i: int| vs@[i]@),
                ),
                None => spec_get_versions(self@, id@) is None,
            },
    {
        let mut i: usize = 0;
        proof {
            assert(self@.skip(0) =~= self@);
        }
        while i < self.packages.len()
            invariant
                i <= self.packages.len(),
                spec_get_versions(self@.skip(i as int), id@) == spec_get_versions(self@, id@),
            decreases self.packages.len() - i,
        {
            proof {
                assert(self@.skip(i as int)[0] == self@[i as int]);
            }
            if self.packages[i].id == *id {
                return Some(&self.packages[i].versions);
            }
            proof {
                assert(self@.skip(i as int).drop_first() =~= self@.skip((i + 1) as int));
            }
            i += 1;
        }
        proof {
            assert(self@.skip(self.packages.len() as int) =~= Seq::<RegistryEntryView>::empty());
        }
        None
    }
}

impl Dependency {
    /// Resolves this dependency against the registry: among the known
    /// versions of its id, in the resolver's order, the first whose version
    /// satisfies this dependency's range. `None` when the id is unknown or no
    /// version satisfies the range — the fatal "unresolvable dependency"
    /// condition of a resolution pass.
    pub fn get_shared_package<'a>(&self, registry: &'a Registry) -> (r: Option<
        &'a SharedPackageConfig,
    >)
        ensures
            match r {
                Some(c) => spec_resolve(registry@, self@) == Some(c@),
                None => spec_resolve(registry@, self@) is None,
            },
    {
        let versions = match registry.get_versions(&self.id) {
            Some(vs) => vs,
            None => {
                return None;
            },
        };
        let ghost vseq = Seq::new(versions@.len(), |i: int| versions@[i]@);
        proof {
            let s = spec_get_versions(registry@, self@.id)->Some_0;
            assert(s =~= vseq);
            assert(spec_get_versions(registry@, self@.id) == Some(vseq));
        }
        let mut i: usize = 0;
        proof {
            assert(vseq.skip(0) =~= vseq);
        }
        while i < versions.len()
            invariant
                i <= versions.len(),
                vseq == Seq::new(versions@.len(), |j: int| versions@[j]@),
                spec_get_versions(registry@, self@.id) == Some(vseq),
                spec_first_match(vseq.skip(i as int), self.version_range@) == spec_first_match(
                    vseq,
                    self.version_range@,
                ),
            decreases versions.len() - i,
        {
            proof {
                assert(vseq.skip(i as int)[0] == vseq[i as int]);
            }
            if range_matches(&self.version_range, &versions[i].config.info.version) {
                proof {
                    assert(vseq[i as int] == versions@[i as int]@);
                    assert(vseq.skip(i as int)[0] == vseq[i as int]);
                    assert(vseq.skip(i as int).len() > 0);
                    assert(spec_first_match(vseq.skip(i as int), self.version_range@) == Some(
                        vseq[i as int],
                    ));
                    assert(spec_first_match(vseq, self@.version_range) == Some(vseq[i as int]));
                    assert(spec_get_versions(registry@, self@.id) == Some(vseq));
                    assert(spec_resolve(registry@, self@) == Some(vseq[i as int]));
                }
                return Some(&versions[i]);
            }
            proof {
                assert(vseq.skip(i as int).drop_first() =~= vseq.skip((i + 1) as int));
            }
            i += 1;
        }
        proof {
            assert(vseq.skip(versions.len() as int) =~= Seq::<SharedPackageConfigView>::empty());
        }
        None
    }
}

} // verus!
