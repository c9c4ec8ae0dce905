use vstd::prelude::*;
use crate::dependency::{clone_opt_string, Dependency, DependencyView, AdditionalDependencyDataView};
use crate::package::{
    clone_shared_dependencies, deps_view, SharedDependency, SharedDependencyView,
    SharedPackageConfig, SharedPackageConfigView,
};
use crate::resolver::{spec_resolve, Registry, RegistryEntryView};
use crate::map_fold::{fold_map, lemma_fold_map_dom, lemma_fold_map_last};

verus! {

/// The case-folded form of a package id, as `str::to_lowercase` computes it.
/// Package ids are case-insensitive identity tokens: two ids name the same
/// package exactly when their case-folded forms agree.
pub uninterp spec fn lower_of(s: Seq<char>) -> Seq<char>;

/// Relies on `str::to_lowercase`: the result depends on the characters alone.
#[verifier::external_body]
fn lowercase(s: &String) -> (r: String)
    ensures
        r@ == lower_of(s@),
{
    s.as_str().to_lowercase()
}

/// Why a resolution pass stopped: a required id has no version satisfying its
/// range anywhere in the registry, or the dependency graph loops back on
/// itself past the traversal's depth allowance.
#[derive(Debug)]
pub enum CollectError {
    /// No known version of this id satisfies the declared range.
    Unresolved(String),
    /// The traversal ran out of depth allowance: the dependency graph cycles.
    CycleDetected,
}

/// The mathematical value of a [`CollectError`].
#[verifier::ext_equal]
pub enum CollectErrorView {
    Unresolved(Seq<char>),
    CycleDetected,
}

impl View for CollectError {
    type V = CollectErrorView;

    open spec fn view(&self) -> CollectErrorView {
        match self {
            CollectError::Unresolved(id) => CollectErrorView::Unresolved(id@),
            CollectError::CycleDetected => CollectErrorView::CycleDetected,
        }
    }
}

impl CollectError {
    /// A description of the failure, naming the unresolved id where there is
    /// one.
    pub fn message(&self) -> (r: String)
        ensures
            self is Unresolved ==> r@ == seq![
                'C', 'o', 'u', 'l', 'd', ' ', 'n', 'o', 't', ' ', 'f', 'i', 'n', 'd', ' ', 'c',
                'o', 'n', 'f', 'i', 'g', ' ', 'f', 'o', 'r', ' ',
            ] + self->Unresolved_0@,
            self is CycleDetected ==> r@ == seq![
                'D', 'e', 'p', 'e', 'n', 'd', 'e', 'n', 'c', 'y', ' ', 'c', 'y', 'c', 'l', 'e',
                ' ', 'd', 'e', 't', 'e', 'c', 't', 'e', 'd',
            ],
    {
        proof {
            reveal_strlit("Could not find config for ");
            reveal_strlit("Dependency cycle detected");
        }
        match self {
            CollectError::Unresolved(id) => {
                let s = <String as vstd::string::StringExecFns>::from_str(
                    "Could not find config for ",
                );
                let r = vstd::string::StringExecFns::concat(s, id.as_str());
                proof {
                    assert("Could not find config for "@ =~= seq![
                        'C', 'o', 'u', 'l', 'd', ' ', 'n', 'o', 't', ' ', 'f', 'i', 'n', 'd', ' ',
                        'c', 'o', 'n', 'f', 'i', 'g', ' ', 'f', 'o', 'r', ' ',
                    ]);
                }
                r
            },
            CollectError::CycleDetected => {
                let r = <String as vstd::string::StringExecFns>::from_str(
                    "Dependency cycle detected",
                );
                proof {
                    assert(r@ =~= seq![
                        'D', 'e', 'p', 'e', 'n', 'd', 'e', 'n', 'c', 'y', ' ', 'c', 'y', 'c', 'l',
                        'e', ' ', 'd', 'e', 't', 'e', 'c', 't', 'e', 'd',
                    ]);
                }
                r
            },
        }
    }
}

/// Whether an entry of a resolved package's restored dependencies survives
/// the privacy boundary: entries marked private must not be re-exposed to the
/// package's consumers.
pub open spec fn is_kept(d: SharedDependencyView) -> bool {
    d.dependency.additional_data.is_private != Some(true)
}

/// The entries of `s` that survive the privacy boundary, in order.
pub open spec fn filter_non_private(s: Seq<SharedDependencyView>) -> Seq<SharedDependencyView>
    decreases s.len(),
{
    if s.len() == 0 {
        Seq::empty()
    } else {
        let rest = filter_non_private(s.drop_last());
        if is_kept(s.last()) {
            rest.push(s.last())
        } else {
            rest
        }
    }
}

/// Every entry of a privacy-filtered list survives the boundary.
pub proof fn lemma_filter_non_private_kept(s: Seq<SharedDependencyView>)
    ensures
        forall|j: int|
            0 <= j < filter_non_private(s).len() ==> is_kept(#[trigger] filter_non_private(s)[j]),
    decreases s.len(),
{
    if s.len() > 0 {
        lemma_filter_non_private_kept(s.drop_last());
        let rest = filter_non_private(s.drop_last());
        assert forall|j: int|
            0 <= j < filter_non_private(s).len() implies is_kept(filter_non_private(s)[j]) by {
            if is_kept(s.last()) {
                assert(filter_non_private(s) == rest.push(s.last()));
                if j < rest.len() {
                    assert(filter_non_private(s)[j] == rest[j]);
                } else {
                    assert(filter_non_private(s)[j] == s.last());
                }
            } else {
                assert(filter_non_private(s) == rest);
            }
        }
    }
}

/// A copy of `pkg` whose restored dependency list is privacy-filtered.
fn filter_restored(pkg: &SharedPackageConfig) -> (r: SharedPackageConfig)
    ensures
        r@.config == pkg@.config,
        r@.restored_dependencies == filter_non_private(pkg@.restored_dependencies),
{
    let ghost pv = pkg@.restored_dependencies;
    let mut kept: Vec<SharedDependency> = Vec::new();
    let mut i: usize = 0;
    proof {
        assert(pv.take(0) =~= Seq::<SharedDependencyView>::empty());
        assert(deps_view(kept@) =~= Seq::<SharedDependencyView>::empty());
    }
    while i < pkg.restored_dependencies.len()
        invariant
            i <= pkg.restored_dependencies.len(),
            pv == pkg@.restored_dependencies,
            deps_view(kept@) == filter_non_private(pv.take(i as int)),
        decreases pkg.restored_dependencies.len() - i,
    {
        proof {
            assert(pv.take((i + 1) as int).drop_last() =~= pv.take(i as int));
            assert(pv.take((i + 1) as int).last() == pv[i as int]);
            assert(pv[i as int] == pkg.restored_dependencies@[i as int]@);
        }
        let keep = match pkg.restored_dependencies[i].dependency.additional_data.is_private {
            Some(true) => false,
            _ => true,
        };
        if keep {
            kept.push(pkg.restored_dependencies[i].duplicate());
            proof {
                assert(deps_view(kept@) =~= filter_non_private(pv.take((i + 1) as int)));
            }
        } else {
            proof {
                assert(deps_view(kept@) =~= filter_non_private(pv.take((i + 1) as int)));
            }
        }
        i += 1;
    }
    proof {
        assert(pv.take(pkg.restored_dependencies.len() as int) =~= pv);
    }
    let r = SharedPackageConfig { config: pkg.config.duplicate(), restored_dependencies: kept };
    proof {
        assert(r@.restored_dependencies =~= filter_non_private(pkg@.restored_dependencies));
    }
    r
}

/// The accumulator of one resolution pass: resolved dependency to package
/// configuration. Entries are held in arrival order; a later entry for an
/// equal key shadows an earlier one, so the mathematical content is the
/// folded map [`DependencyMap::as_map`].
pub struct DependencyMap {
    entries: Vec<(SharedDependency, SharedPackageConfig)>,
}

impl View for DependencyMap {
    type V = Seq<(SharedDependencyView, SharedPackageConfigView)>;

    closed spec fn view(&self) -> Seq<(SharedDependencyView, SharedPackageConfigView)> {
        Seq::new(self.entries@.len(), |i: int| (self.entries@[i].0@, self.entries@[i].1@))
    }
}

impl DependencyMap {
    /// The folded content: what each resolved dependency maps to.
    pub open spec fn as_map(&self) -> Map<SharedDependencyView, SharedPackageConfigView> {
        fold_map(self@)
    }

    /// An empty accumulator.
    pub fn new() -> (r: DependencyMap)
        ensures
            r@ == Seq::<(SharedDependencyView, SharedPackageConfigView)>::empty(),
            r.as_map() == Map::<SharedDependencyView, SharedPackageConfigView>::empty(),
    {
        let r = DependencyMap { entries: Vec::new() };
        proof {
            assert(r@ =~= Seq::<(SharedDependencyView, SharedPackageConfigView)>::empty());
        }
        r
    }

    /// How many entries arrived (shadowed entries included).
    pub fn entry_count(&self) -> (r: usize)
        ensures
            r == self@.len(),
    {
        self.entries.len()
    }

    /// The entry that arrived `i`th: the bound dependency and the package it
    /// resolved to.
    pub fn entry_at(&self, i: usize) -> (r: &(SharedDependency, SharedPackageConfig))
        requires
            i < self@.len(),
        ensures
            r.0@ == self@[i as int].0,
            r.1@ == self@[i as int].1,
    {
        &self.entries[i]
    }

    /// Binds `key` to `value`, shadowing what an equal key was bound to.
    pub fn insert(&mut self, key: SharedDependency, value: SharedPackageConfig)
        ensures
            final(self)@ == old(self)@.push((key@, value@)),
            final(self).as_map() == old(self).as_map().insert(key@, value@),
    {
        let ghost kv = (key@, value@);
        self.entries.push((key, value));
        proof {
            assert(final(self)@ =~= old(self)@.push(kv));
            assert(final(self)@.drop_last() =~= old(self)@);
            assert(final(self).as_map() == fold_map(old(self)@.push(kv)));
        }
    }

    /// The package the latest entry for any key with this id maps to; `None`
    /// when no key carries the id.
    pub fn lookup_id(&self, id: &String) -> (r: Option<&SharedPackageConfig>)
        ensures
            match r {
                Some(c) => exists|k: SharedDependencyView|
                    #[trigger] self.as_map().dom().contains(k) && k.dependency.id == id@
                        && self.as_map()[k] == c@,
                None => forall|k: SharedDependencyView|
                    #[trigger] self.as_map().dom().contains(k) ==> k.dependency.id != id@,
            },
    {
        proof {
            lemma_fold_map_dom(self@);
        }
        let mut i: usize = self.entries.len();
        while i > 0
            invariant
                i <= self.entries.len(),
                forall|j: int| i <= j < self@.len() ==> (#[trigger] self@[j]).0.dependency.id != id@,
            decreases i,
        {
            i = i - 1;
            if self.entries[i].0.dependency.id == *id {
                proof {
                    lemma_fold_map_last(self@, i as int);
                    assert(self.as_map().dom().contains(self@[i as int].0));
                }
                return Some(&self.entries[i].1);
            }
        }
        proof {
            lemma_fold_map_dom(self@);
        }
        None
    }
}

/// What one step of the dependency collection does, written over mathematical
/// values. Walking dependency `dep` of the package `this_id` against registry
/// `reg` with accumulator `acc`:
/// - a self-reference (ids equal up to case) is a no-op;
/// - with no depth allowance left, the walk fails as cyclic;
/// - an unresolvable dependency fails, naming the id;
/// - otherwise the resolved package is privacy-filtered, the dependency is
///   bound to the resolved version (inheriting the package's `mod_link` when
///   it has none of its own), the pair is folded into the accumulator, and
///   the walk continues through the filtered restored dependencies.
pub open spec fn spec_collect(
    reg: Seq<RegistryEntryView>,
    dep: DependencyView,
    this_id: Seq<char>,
    acc: Map<SharedDependencyView, SharedPackageConfigView>,
    fuel: nat,
) -> Result<Map<SharedDependencyView, SharedPackageConfigView>, CollectErrorView>
    decreases fuel, 0nat,
{
    if lower_of(dep.id) == lower_of(this_id) {
        Ok(acc)
    } else if fuel == 0 {
        Err(CollectErrorView::CycleDetected)
    } else {
        match spec_resolve(reg, dep) {
            None => Err(CollectErrorView::Unresolved(dep.id)),
            Some(pkg) => {
                let fdeps = filter_non_private(pkg.restored_dependencies);
                let fpkg = SharedPackageConfigView { config: pkg.config, restored_dependencies: fdeps };
                let bound = DependencyView {
                    additional_data: AdditionalDependencyDataView {
                        mod_link: if dep.additional_data.mod_link is Some {
                            dep.additional_data.mod_link
                        } else {
                            pkg.config.info.additional_data.mod_link
                        },
                        ..dep.additional_data
                    },
                    ..dep
                };
                let key = SharedDependencyView { dependency: bound, version: pkg.config.info.version };
                spec_collect_list(reg, fdeps, this_id, acc.insert(key, fpkg), (fuel - 1) as nat)
            },
        }
    }
}

/// [`spec_collect`] folded over a list of already-bound dependencies, left to
/// right, stopping at the first failure.
pub open spec fn spec_collect_list(
    reg: Seq<RegistryEntryView>,
    deps: Seq<SharedDependencyView>,
    this_id: Seq<char>,
    acc: Map<SharedDependencyView, SharedPackageConfigView>,
    fuel: nat,
) -> Result<Map<SharedDependencyView, SharedPackageConfigView>, CollectErrorView>
    decreases fuel, deps.len() + 1,
{
    if deps.len() == 0 {
        Ok(acc)
    } else {
        match spec_collect(reg, deps[0].dependency, this_id, acc, fuel) {
            Err(e) => Err(e),
            Ok(m) => spec_collect_list(reg, deps.drop_first(), this_id, m, fuel),
        }
    }
}

impl Dependency {
    /// Walks this dependency against the registry and folds every resolved
    /// dependency reachable from it into `collected`, as [`spec_collect`]
    /// says: self-references are skipped, private entries of resolved
    /// packages are not re-exposed, and each resolved pair shadows an earlier
    /// entry for an equal key. `this_id` is the id of the package whose
    /// dependency list is being walked; `fuel` bounds the traversal depth, so
    /// a cyclic dependency graph fails with [`CollectError::CycleDetected`]
    /// instead of recursing forever. On failure the accumulator may hold part
    /// of the walk.
    #[verifier::loop_isolation(false)]
    pub fn collect(
        &self,
        this_id: &String,
        collected: &mut DependencyMap,
        registry: &Registry,
        fuel: u64,
    ) -> (r: Result<(), CollectError>)
        ensures
            ({
                let out = spec_collect(
                    registry@,
                    self@,
                    this_id@,
                    old(collected).as_map(),
                    fuel as nat,
                );
                match out {
                    Ok(m) => r is Ok && final(collected).as_map() == m,
                    Err(e) => r matches Err(err) && err@ == e,
                }
            }),
        decreases fuel,
    {
        let self_lower = lowercase(&self.id);
        let this_lower = lowercase(this_id);
        if self_lower == this_lower {
            return Ok(());
        }
        if fuel == 0 {
            return Err(CollectError::CycleDetected);
        }
        let pkg = match self.get_shared_package(registry) {
            Some(p) => p,
            None => {
                return Err(CollectError::Unresolved(self.id.clone()));
            },
        };
        let ghost pkg_view = pkg@;
        let ghost acc0 = old(collected).as_map();
        let ghost target = spec_collect(registry@, self@, this_id@, acc0, fuel as nat);

        let filtered = filter_restored(pkg);
        let mut bound_dep = self.duplicate();
        if bound_dep.additional_data.mod_link.is_none() {
            bound_dep.additional_data.mod_link = clone_opt_string(
                &pkg.config.info.additional_data.mod_link,
            );
        }
        let version = filtered.config.info.version;
        let children = clone_shared_dependencies(&filtered.restored_dependencies);
        let ghost fseq = filter_non_private(pkg_view.restored_dependencies);
        let to_add = SharedDependency { dependency: bound_dep, version };

        proof {
            let bound_spec = DependencyView {
                additional_data: AdditionalDependencyDataView {
                    mod_link: if self@.additional_data.mod_link is Some {
                        self@.additional_data.mod_link
                    } else {
                        pkg_view.config.info.additional_data.mod_link
                    },
                    ..self@.additional_data
                },
                ..self@
            };
            assert(to_add@.dependency =~= bound_spec);
            assert(filtered@ =~= (SharedPackageConfigView {
                config: pkg_view.config,
                restored_dependencies: fseq,
            }));
            assert(deps_view(children@) == fseq);
        }
        let ghost key = to_add@;
        let ghost fpkg = filtered@;
        collected.insert(to_add, filtered);
        proof {
            assert(collected.as_map() == acc0.insert(key, fpkg));
            assert(target == spec_collect_list(
                registry@,
                fseq,
                this_id@,
                acc0.insert(key, fpkg),
                (fuel - 1) as nat,
            ));
            assert(fseq.skip(0) =~= fseq);
        }

        let mut i: usize = 0;
        while i < children.len()
            invariant
                i <= children.len(),
                deps_view(children@) == fseq,
                target == spec_collect(registry@, self@, this_id@, acc0, fuel as nat),
                fuel >= 1,
                spec_collect_list(
                    registry@,
                    fseq.skip(i as int),
                    this_id@,
                    collected.as_map(),
                    (fuel - 1) as nat,
                ) == target,
            decreases children.len() - i,
        {
            proof {
                assert(fseq.skip(i as int)[0] == fseq[i as int]);
                assert(fseq[i as int] == children@[i as int]@);
            }
            let ghost acc_i = collected.as_map();
            let res = children[i].dependency.collect(this_id, collected, registry, fuel - 1);
            let ghost res_v = res;
            match res {
                Ok(()) => {},
                Err(e) => {
                    proof {
                        let f1 = (fuel - 1) as nat;
                        assert(spec_collect_list(
                            registry@,
                            fseq.skip(i as int),
                            this_id@,
                            acc_i,
                            f1,
                        ) == target);
                        assert(fseq.skip(i as int).len() > 0);
                        let child_out = spec_collect(
                            registry@,
                            fseq.skip(i as int)[0].dependency,
                            this_id@,
                            acc_i,
                            f1,
                        );
                        assert(child_out == spec_collect(
                            registry@,
                            children@[i as int]@.dependency,
                            this_id@,
                            acc_i,
                            f1,
                        ));
                        assert(res_v matches Err(er) && er@ == e@);
                        assert(child_out matches Err(ce) && ce == e@);
                        assert(target == Err::<
                            Map<SharedDependencyView, SharedPackageConfigView>,
                            CollectErrorView,
                        >(e@));
                    }
                    return Err(e);
                },
            }
            proof {
                assert(fseq.skip(i as int).drop_first() =~= fseq.skip((i + 1) as int));
            }
            i += 1;
        }
        proof {
            assert(fseq.skip(children.len() as int) =~= Seq::<SharedDependencyView>::empty());
        }
        Ok(())
    }
}

/// Law: a self-referencing dependency is a no-op. For every dependency whose
/// id equals the owning package's id up to case, collection returns the
/// accumulator unchanged, whatever the registry and the depth allowance.
pub proof fn lemma_collect_self_reference(
    reg: Seq<RegistryEntryView>,
    dep: DependencyView,
    this_id: Seq<char>,
    acc: Map<SharedDependencyView, SharedPackageConfigView>,
    fuel: nat,
)
    requires
        lower_of(dep.id) == lower_of(this_id),
    ensures
        spec_collect(reg, dep, this_id, acc, fuel) == Ok::<_, CollectErrorView>(acc),
{
}

/// Whether every restored dependency a stored package re-exposes survives the
/// privacy boundary.
pub open spec fn pkg_non_private(p: SharedPackageConfigView) -> bool {
    forall|j: int| 0 <= j < p.restored_dependencies.len() ==> is_kept(#[trigger] p.restored_dependencies[j])
}

/// Whether a closure map holds no private entry: every key survives the
/// privacy boundary and every stored package re-exposes none either.
pub open spec fn closure_non_private(m: Map<SharedDependencyView, SharedPackageConfigView>) -> bool {
    forall|k: SharedDependencyView|
        #[trigger] m.dom().contains(k) ==> is_kept(k) && pkg_non_private(m[k])
}

/// Law: the privacy boundary holds. Collection started from a non-private
/// dependency on an accumulator with no private entry yields, when it
/// succeeds, an accumulator with no private entry: nothing marked private in
/// its source package is folded into a consumer's closure.
pub proof fn lemma_collect_excludes_private(
    reg: Seq<RegistryEntryView>,
    dep: DependencyView,
    this_id: Seq<char>,
    acc: Map<SharedDependencyView, SharedPackageConfigView>,
    fuel: nat,
)
    requires
        dep.additional_data.is_private != Some(true),
        closure_non_private(acc),
    ensures
        spec_collect(reg, dep, this_id, acc, fuel) matches Ok(m) ==> closure_non_private(m),
    decreases fuel, 0nat,
{
    if lower_of(dep.id) == lower_of(this_id) {
    } else if fuel == 0 {
    } else {
        match spec_resolve(reg, dep) {
            None => {},
            Some(pkg) => {
                let fdeps = filter_non_private(pkg.restored_dependencies);
                let fpkg = SharedPackageConfigView { config: pkg.config, restored_dependencies: fdeps };
                let bound = DependencyView {
                    additional_data: AdditionalDependencyDataView {
                        mod_link: if dep.additional_data.mod_link is Some {
                            dep.additional_data.mod_link
                        } else {
                            pkg.config.info.additional_data.mod_link
                        },
                        ..dep.additional_data
                    },
                    ..dep
                };
                let key = SharedDependencyView { dependency: bound, version: pkg.config.info.version };
                lemma_filter_non_private_kept(pkg.restored_dependencies);
                assert(closure_non_private(acc.insert(key, fpkg)));
                lemma_collect_list_excludes_private(
                    reg,
                    fdeps,
                    this_id,
                    acc.insert(key, fpkg),
                    (fuel - 1) as nat,
                );
            },
        }
    }
}

/// Companion of [`lemma_collect_excludes_private`] for the walk through a
/// privacy-filtered restored dependency list.
pub proof fn lemma_collect_list_excludes_private(
    reg: Seq<RegistryEntryView>,
    deps: Seq<SharedDependencyView>,
    this_id: Seq<char>,
    acc: Map<SharedDependencyView, SharedPackageConfigView>,
    fuel: nat,
)
    requires
        forall|j: int| 0 <= j < deps.len() ==> is_kept(#[trigger] deps[j]),
        closure_non_private(acc),
    ensures
        spec_collect_list(reg, deps, this_id, acc, fuel) matches Ok(m) ==> closure_non_private(m),
    decreases fuel, deps.len() + 1,
{
    if deps.len() == 0 {
    } else {
        lemma_collect_excludes_private(reg, deps[0].dependency, this_id, acc, fuel);
        match spec_collect(reg, deps[0].dependency, this_id, acc, fuel) {
            Err(_) => {},
            Ok(m) => {
                lemma_collect_list_excludes_private(reg, deps.drop_first(), this_id, m, fuel);
            },
        }
    }
}

} // verus!
