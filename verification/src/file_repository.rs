use vstd::prelude::*;
use crate::map_fold::{fold_map, lemma_fold_map_dom, lemma_fold_map_last};
use crate::package::{SharedPackageConfig, SharedPackageConfigView};
use crate::paths::{join_path, path_append};
use crate::version::Version;

verus! {

/// Why the repository refused to record an artifact: the staged source
/// snapshot declares a version other than the one it is being filed under.
/// The cache must never retain an artifact whose recorded version does not
/// match the version it is filed under.
#[derive(Clone, Copy, PartialEq, Eq, Structural, Debug)]
pub enum RepositoryError {
    VersionMismatch { expected: Version, declared: Version },
}

/// One recorded artifact bucket: every configuration recorded for one package
/// id, keyed by concrete version. Later entries for an equal version shadow
/// earlier ones.
pub type VersionedArtifacts = Vec<(Version, SharedPackageConfig)>;

/// The mathematical value of a bucket's entries.
pub open spec fn bucket_view(s: Seq<(Version, SharedPackageConfig)>) -> Seq<
    (Version, SharedPackageConfigView),
> {
    Seq::new(s.len(), |j: int| (s[j].0, s[j].1@))
}

/// The process-wide artifact store: package id to (version to resolved
/// configuration). The in-memory structure lives here; reading it from and
/// writing it to its per-user JSON document is disk work done outside this
/// library.
pub struct FileRepository {
    artifacts: Vec<(String, VersionedArtifacts)>,
}

impl View for FileRepository {
    type V = Seq<(Seq<char>, Seq<(Version, SharedPackageConfigView)>)>;

    closed spec fn view(&self) -> Seq<(Seq<char>, Seq<(Version, SharedPackageConfigView)>)> {
        Seq::new(
            self.artifacts@.len(),
            |i: int| (self.artifacts@[i].0@, bucket_view(self.artifacts@[i].1@)),
        )
    }
}

/// The id buckets with each bucket folded to its version map.
pub open spec fn buckets_folded(
    s: Seq<(Seq<char>, Seq<(Version, SharedPackageConfigView)>)>,
) -> Seq<(Seq<char>, Map<Version, SharedPackageConfigView>)> {
    Seq::new(s.len(), |i: int| (s[i].0, fold_map(s[i].1)))
}

impl FileRepository {
    /// The folded content: what each package id's each recorded version maps
    /// to.
    pub open spec fn as_map(&self) -> Map<Seq<char>, Map<Version, SharedPackageConfigView>> {
        fold_map(buckets_folded(self@))
    }

    /// Well-formed: no package id owns two buckets.
    pub open spec fn inv(&self) -> bool {
        forall|i: int, j: int| 0 <= i < j < self@.len() ==> (#[trigger] self@[i]).0 != (#[trigger] self@[j]).0
    }

    /// Coherent the way every repository this library builds is: no bucket is
    /// empty, and every recorded configuration is filed under its own id and
    /// its own version.
    pub open spec fn coherent(&self) -> bool {
        &&& forall|i: int| 0 <= i < self@.len() ==> (#[trigger] self@[i]).1.len() > 0
        &&& forall|i: int, j: int|
            0 <= i < self@.len() && 0 <= j < self@[i].1.len() ==> {
                let entry = #[trigger] self@[i].1[j];
                &&& entry.1.config.info.id == self@[i].0
                &&& entry.0 == entry.1.config.info.version
            }
    }

    /// An empty repository.
    pub fn new() -> (r: FileRepository)
        ensures
            r.inv(),
            r@ == Seq::<(Seq<char>, Seq<(Version, SharedPackageConfigView)>)>::empty(),
            r.as_map() == Map::<Seq<char>, Map<Version, SharedPackageConfigView>>::empty(),
    {
        let r = FileRepository { artifacts: Vec::new() };
        proof {
            assert(r@ =~= Seq::<(Seq<char>, Seq<(Version, SharedPackageConfigView)>)>::empty());
            assert(buckets_folded(r@) =~= Seq::<
                (Seq<char>, Map<Version, SharedPackageConfigView>),
            >::empty());
        }
        r
    }

    /// How many package ids hold a bucket.
    pub fn bucket_count(&self) -> (r: usize)
        ensures
            r == self@.len(),
    {
        self.artifacts.len()
    }

    /// The `i`th bucket: a package id and everything recorded under it.
    pub fn bucket_at(&self, i: usize) -> (r: &(String, VersionedArtifacts))
        requires
            i < self@.len(),
        ensures
            r.0@ == self@[i as int].0,
            bucket_view(r.1@) == self@[i as int].1,
    {
        &self.artifacts[i]
    }

    /// Every artifact recorded under `id`, keyed by version; `None` when the
    /// id has none.
    #[verifier::loop_isolation(false)]
    pub fn get_artifacts_from_id(&self, id: &String) -> (r: Option<&VersionedArtifacts>)
        requires
            self.inv(),
        ensures
            match r {
                Some(b) => self.as_map().dom().contains(id@) && self.as_map()[id@] == fold_map(
                    bucket_view(b@),
                ),
                None => !self.as_map().dom().contains(id@),
            },
    {
        proof {
            lemma_fold_map_dom(buckets_folded(self@));
        }
        let mut i: usize = 0;
        while i < self.artifacts.len()
            invariant
                self.inv(),
                i <= self.artifacts.len(),
                forall|j: int| 0 <= j < i ==> (#[trigger] self@[j]).0 != id@,
            decreases self.artifacts.len() - i,
        {
            if self.artifacts[i].0 == *id {
                proof {
                    assert(buckets_folded(self@)[i as int].0 == id@);
                    lemma_fold_map_last(buckets_folded(self@), i as int);
                }
                return Some(&self.artifacts[i].1);
            }
            i += 1;
        }
        proof {
            lemma_fold_map_dom(buckets_folded(self@));
            assert(forall|j: int|
                0 <= j < buckets_folded(self@).len() ==> (#[trigger] buckets_folded(self@)[j]).0
                    != id@);
        }
        None
    }

    /// The configuration recorded under `id` and `version`; `None` when
    /// either is absent.
    #[verifier::loop_isolation(false)]
    pub fn get_artifact(&self, id: &String, version: &Version) -> (r: Option<&SharedPackageConfig>)
        requires
            self.inv(),
        ensures
            match r {
                Some(c) => self.as_map().dom().contains(id@) && self.as_map()[id@].dom().contains(
                    *version,
                ) && self.as_map()[id@][*version] == c@,
                None => !self.as_map().dom().contains(id@) || !self.as_map()[id@].dom().contains(
                    *version,
                ),
            },
    {
        let bucket = match self.get_artifacts_from_id(id) {
            Some(b) => b,
            None => {
                return None;
            },
        };
        let ghost bv = bucket_view(bucket@);
        proof {
            lemma_fold_map_dom(bv);
        }
        let mut i: usize = bucket.len();
        while i > 0
            invariant
                i <= bucket.len(),
                bv == bucket_view(bucket@),
                forall|j: int| i <= j < bv.len() ==> (#[trigger] bv[j]).0 != *version,
            decreases i,
        {
            i = i - 1;
            if bucket[i].0 == *version {
                proof {
                    assert(bv[i as int].0 == *version);
                    lemma_fold_map_last(bv, i as int);
                }
                return Some(&bucket[i].1);
            }
        }
        proof {
            lemma_fold_map_dom(bv);
        }
        None
    }

    /// Records `package` under its own id and version, creating the id's
    /// bucket when it has none and shadowing an artifact already recorded
    /// under that version.
    ///
    /// `staged_version` is the version the staged source snapshot's
    /// package-config declares, parsed at the disk boundary after the
    /// artifact's files were staged; `None` when no local build was staged.
    /// A declared version differing from the package's own is the fatal
    /// integrity failure: nothing is recorded and the repository is
    /// unchanged.
    #[verifier::loop_isolation(false)]
    pub fn add_artifact(&mut self, package: SharedPackageConfig, staged_version: Option<Version>) -> (r: Result<
        (),
        RepositoryError,
    >)
        requires
            old(self).inv(),
        ensures
            final(self).inv(),
            (staged_version matches Some(v) && v != package@.config.info.version) ==> r == Err::<
                (),
                RepositoryError,
            >(
                RepositoryError::VersionMismatch {
                    expected: package@.config.info.version,
                    declared: staged_version->Some_0,
                },
            ) && final(self)@ == old(self)@,
            (staged_version is None || staged_version->Some_0 == package@.config.info.version)
                ==> r is Ok && final(self).as_map() == old(self).as_map().insert(
                package@.config.info.id,
                (if old(self).as_map().dom().contains(package@.config.info.id) {
                    old(self).as_map()[package@.config.info.id]
                } else {
                    Map::<Version, SharedPackageConfigView>::empty()
                }).insert(package@.config.info.version, package@),
            ),
    {
        let expected = package.config.info.version;
        if let Some(v) = staged_version {
            if v != expected {
                return Err(RepositoryError::VersionMismatch { expected, declared: v });
            }
        }
        let ghost id = package@.config.info.id;
        let ghost ver = package@.config.info.version;
        let ghost pkg_v = package@;
        let ghost pre = self@;

        let mut i: usize = 0;
        let mut found: bool = false;
        while i < self.artifacts.len()
            invariant
                self.inv(),
                self@ == pre,
                i <= self.artifacts.len(),
                found ==> i < self.artifacts.len() && pre[i as int].0 == id,
                !found ==> forall|j: int| 0 <= j < i ==> (#[trigger] pre[j]).0 != id,
            decreases self.artifacts.len() - i,
        {
            if self.artifacts[i].0 == package.config.info.id {
                found = true;
                break;
            }
            i += 1;
        }
        if found {
            let version = package.config.info.version;
            self.artifacts[i].1.push((version, package));
            proof {
                assert(self@[i as int].0 == pre[i as int].0);
                assert(self@[i as int].1 =~= pre[i as int].1.push((ver, pkg_v)));
                assert(forall|j: int|
                    0 <= j < pre.len() && j != i ==> #[trigger] self@[j] == pre[j]);
                lemma_add_artifact_existing(pre, self@, i as int, ver, pkg_v);
                assert(final(self).inv());
            }
            Ok(())
        } else {
            proof {
                lemma_fold_map_dom(buckets_folded(pre));
            }
            let version = package.config.info.version;
            let id_string = package.config.info.id.clone();
            let mut bucket: VersionedArtifacts = Vec::new();
            bucket.push((version, package));
            self.artifacts.push((id_string, bucket));
            proof {
                assert(bucket_view(bucket@) =~= Seq::<
                    (Version, SharedPackageConfigView),
                >::empty().push((ver, pkg_v)));
                assert(self@ =~= pre.push((id, bucket_view(bucket@))));
                lemma_add_artifact_new(pre, self@, id, ver, pkg_v);
                assert(!fold_map(buckets_folded(pre)).dom().contains(id));
                assert(final(self).inv());
            }
            Ok(())
        }
    }

    /// Law: the in-memory half of the persistence round trip. Re-adding every
    /// entry this repository records, in recorded order, to an empty
    /// repository yields one with equal folded content — what the persisted
    /// document's entries rebuild is exactly what was written, the JSON text
    /// encoding aside.
    #[verifier::loop_isolation(false)]
    pub fn reloaded(&self) -> (r: FileRepository)
        requires
            self.inv(),
            self.coherent(),
        ensures
            r.inv(),
            r.as_map() == self.as_map(),
    {
        let mut r = FileRepository::new();
        proof {
            assert(buckets_folded(self@.take(0)) =~= Seq::<
                (Seq<char>, Map<Version, SharedPackageConfigView>),
            >::empty());
        }
        let mut i: usize = 0;
        while i < self.artifacts.len()
            invariant
                i <= self.artifacts.len(),
                r.inv(),
                r.as_map() == fold_map(buckets_folded(self@.take(i as int))),
            decreases self.artifacts.len() - i,
        {
            let ghost id = self@[i as int].0;
            let ghost bucket = self@[i as int].1;
            proof {
                lemma_fold_map_dom(buckets_folded(self@.take(i as int)));
                assert(forall|k: int|
                    0 <= k < i ==> (#[trigger] buckets_folded(self@.take(i as int))[k]).0
                        == self@[k].0);
                assert(!fold_map(buckets_folded(self@.take(i as int))).dom().contains(id));
            }
            let mut j: usize = 0;
            while j < self.artifacts[i].1.len()
                invariant
                    i < self.artifacts.len(),
                    j <= bucket.len(),
                    r.inv(),
                    j == 0 ==> r.as_map() == fold_map(buckets_folded(self@.take(i as int))),
                    j >= 1 ==> r.as_map() == fold_map(
                        buckets_folded(self@.take(i as int)),
                    ).insert(id, fold_map(bucket.take(j as int))),
                decreases bucket.len() - j,
            {
                let pkg = self.artifacts[i].1[j].1.duplicate();
                proof {
                    assert(bucket[j as int] == (self.artifacts@[i as int].1@[j as int].0, self.artifacts@[i as int].1@[j as int].1@));
                    assert(pkg@ == bucket[j as int].1);
                    assert(pkg@.config.info.id == id);
                    assert(pkg@.config.info.version == bucket[j as int].0);
                    assert(bucket.take((j + 1) as int).drop_last() =~= bucket.take(j as int));
                    assert(bucket.take((j + 1) as int).last() == bucket[j as int]);
                }
                let ghost pre_map = r.as_map();
                let res = r.add_artifact(pkg, None);
                proof {
                    let base = fold_map(buckets_folded(self@.take(i as int)));
                    if j == 0 {
                        assert(bucket.take(0) =~= Seq::<
                            (Version, SharedPackageConfigView),
                        >::empty());
                        assert(fold_map(bucket.take(0)) == Map::<
                            Version,
                            SharedPackageConfigView,
                        >::empty());
                        assert(fold_map(bucket.take(1)) =~= Map::<
                            Version,
                            SharedPackageConfigView,
                        >::empty().insert(bucket[0].0, bucket[0].1));
                        assert(r.as_map() =~= base.insert(id, fold_map(bucket.take(1))));
                    } else {
                        assert(pre_map.dom().contains(id));
                        assert(pre_map[id] == fold_map(bucket.take(j as int)));
                        assert(fold_map(bucket.take((j + 1) as int)) == fold_map(
                            bucket.take(j as int),
                        ).insert(bucket[j as int].0, bucket[j as int].1));
                        assert(r.as_map() =~= base.insert(
                            id,
                            fold_map(bucket.take((j + 1) as int)),
                        ));
                    }
                }
                j += 1;
            }
            proof {
                assert(j >= 1);
                assert(bucket.take(j as int) =~= bucket);
                assert(buckets_folded(self@.take((i + 1) as int)).drop_last() =~= buckets_folded(
                    self@.take(i as int),
                ));
                assert(buckets_folded(self@.take((i + 1) as int)).last() == (id, fold_map(bucket)));
                assert(fold_map(buckets_folded(self@.take((i + 1) as int))) == fold_map(
                    buckets_folded(self@.take(i as int)),
                ).insert(id, fold_map(bucket)));
            }
            i += 1;
        }
        proof {
            assert(self@.take(self@.len() as int) =~= self@);
        }
        r
    }

    /// The per-user directory that holds the repository document: the
    /// machine's configuration directory with `QPM-Rust` appended. `None`
    /// when the machine reports no configuration directory.
    pub fn global_repository_dir() -> (r: Option<String>)
        ensures
            r matches Some(s) ==> exists|base: Seq<char>|
                s@ == path_append(base, seq!['Q', 'P', 'M', '-', 'R', 'u', 's', 't']),
    {
        match config_dir_string() {
            Some(base) => {
                proof {
                    reveal_strlit("QPM-Rust");
                    assert("QPM-Rust"@ =~= seq!['Q', 'P', 'M', '-', 'R', 'u', 's', 't']);
                }
                Some(join_path(&base, "QPM-Rust"))
            },
            None => None,
        }
    }

    /// The path of the repository document inside the repository directory:
    /// `qpm.repository.json` under [`FileRepository::global_repository_dir`].
    /// `None` when the machine reports no configuration directory.
    pub fn global_file_repository_path() -> (r: Option<String>)
        ensures
            r matches Some(s) ==> exists|dir: Seq<char>|
                s@ == path_append(
                    dir,
                    seq![
                        'q', 'p', 'm', '.', 'r', 'e', 'p', 'o', 's', 'i', 't', 'o', 'r', 'y', '.',
                        'j', 's', 'o', 'n',
                    ],
                ),
    {
        match Self::global_repository_dir() {
            Some(dir) => {
                proof {
                    reveal_strlit("qpm.repository.json");
                    assert("qpm.repository.json"@ =~= seq![
                        'q', 'p', 'm', '.', 'r', 'e', 'p', 'o', 's', 'i', 't', 'o', 'r', 'y', '.',
                        'j', 's', 'o', 'n',
                    ]);
                }
                Some(join_path(&dir, "qpm.repository.json"))
            },
            None => None,
        }
    }
}

/// After pushing a version entry onto the bucket at `i` (the only bucket
/// whose id is that bucket's id), the folded map is the old one with that
/// id's version map extended.
proof fn lemma_add_artifact_existing(
    pre: Seq<(Seq<char>, Seq<(Version, SharedPackageConfigView)>)>,
    post: Seq<(Seq<char>, Seq<(Version, SharedPackageConfigView)>)>,
    i: int,
    ver: Version,
    pkg: SharedPackageConfigView,
)
    requires
        0 <= i < pre.len(),
        post.len() == pre.len(),
        forall|j: int, k: int| 0 <= j < k < pre.len() ==> (#[trigger] pre[j]).0 != (#[trigger] pre[k]).0,
        forall|j: int| 0 <= j < pre.len() && j != i ==> post[j] == pre[j],
        post[i].0 == pre[i].0,
        post[i].1 == pre[i].1.push((ver, pkg)),
    ensures
        fold_map(buckets_folded(post)) == fold_map(buckets_folded(pre)).insert(
            pre[i].0,
            fold_map(pre[i].1).insert(ver, pkg),
        ),
        fold_map(buckets_folded(pre)).dom().contains(pre[i].0),
        fold_map(buckets_folded(pre))[pre[i].0] == fold_map(pre[i].1),
{
    lemma_fold_map_last(buckets_folded(pre), i);
    lemma_fold_map_last(buckets_folded(post), i);
    assert(post[i].1.drop_last() =~= pre[i].1);
    assert(fold_map(post[i].1) == fold_map(pre[i].1).insert(ver, pkg));
    lemma_fold_map_agree_except(buckets_folded(pre), buckets_folded(post), i);
    assert(fold_map(buckets_folded(post)) =~= fold_map(buckets_folded(pre)).insert(
        pre[i].0,
        fold_map(pre[i].1).insert(ver, pkg),
    ));
}

/// Two entry sequences that agree everywhere but at one index, where they
/// carry the same key, fold to maps that agree on every other key.
proof fn lemma_fold_map_agree_except<K, V>(a: Seq<(K, V)>, b: Seq<(K, V)>, i: int)
    requires
        a.len() == b.len(),
        0 <= i < a.len(),
        forall|j: int| 0 <= j < a.len() && j != i ==> a[j] == b[j],
        b[i].0 == a[i].0,
    ensures
        forall|k: K|
            k != a[i].0 ==> (#[trigger] fold_map(a).dom().contains(k) <==> fold_map(
                b,
            ).dom().contains(k)),
        forall|k: K|
            k != a[i].0 && fold_map(a).dom().contains(k) ==> #[trigger] fold_map(a)[k] == fold_map(
                b,
            )[k],
    decreases a.len(),
{
    if a.len() > 0 {
        if i == a.len() - 1 {
            assert(a.drop_last() =~= b.drop_last());
            assert(fold_map(a) == fold_map(a.drop_last()).insert(a.last().0, a.last().1));
            assert(fold_map(b) == fold_map(b.drop_last()).insert(b.last().0, b.last().1));
            assert(a.last().0 == a[i].0 && b.last().0 == a[i].0);
        } else {
            assert(forall|j: int|
                0 <= j < a.drop_last().len() && j != i ==> a.drop_last()[j] == b.drop_last()[j]);
            assert(b.drop_last()[i].0 == a.drop_last()[i].0);
            lemma_fold_map_agree_except(a.drop_last(), b.drop_last(), i);
            assert(a.last() == b.last());
            assert(fold_map(a) == fold_map(a.drop_last()).insert(a.last().0, a.last().1));
            assert(fold_map(b) == fold_map(b.drop_last()).insert(b.last().0, b.last().1));
            assert forall|k: K|
                k != a[i].0 implies (fold_map(a).dom().contains(k) <==> fold_map(
                b,
            ).dom().contains(k)) by {
                assert(a.drop_last()[i].0 == a[i].0);
            }
            assert forall|k: K|
                k != a[i].0 && fold_map(a).dom().contains(k) implies fold_map(a)[k] == fold_map(
                b,
            )[k] by {
                assert(a.drop_last()[i].0 == a[i].0);
                if k != a.last().0 {
                    assert(fold_map(a)[k] == fold_map(a.drop_last())[k]);
                    assert(fold_map(b)[k] == fold_map(b.drop_last())[k]);
                }
            }
        }
    }
}

/// After pushing a fresh bucket for an id no earlier bucket carries, the
/// folded map is the old one with that id bound to the new bucket's fold.
proof fn lemma_add_artifact_new(
    pre: Seq<(Seq<char>, Seq<(Version, SharedPackageConfigView)>)>,
    post: Seq<(Seq<char>, Seq<(Version, SharedPackageConfigView)>)>,
    id: Seq<char>,
    ver: Version,
    pkg: SharedPackageConfigView,
)
    requires
        post == pre.push(
            (id, Seq::<(Version, SharedPackageConfigView)>::empty().push((ver, pkg))),
        ),
    ensures
        fold_map(buckets_folded(post)) == fold_map(buckets_folded(pre)).insert(
            id,
            Map::<Version, SharedPackageConfigView>::empty().insert(ver, pkg),
        ),
{
    let inner = Seq::<(Version, SharedPackageConfigView)>::empty().push((ver, pkg));
    assert(inner.drop_last() =~= Seq::<(Version, SharedPackageConfigView)>::empty());
    assert(inner.last() == (ver, pkg));
    assert(fold_map(Seq::<(Version, SharedPackageConfigView)>::empty()) == Map::<
        Version,
        SharedPackageConfigView,
    >::empty());
    assert(fold_map(inner) == Map::<Version, SharedPackageConfigView>::empty().insert(ver, pkg));
    assert(buckets_folded(post).drop_last() =~= buckets_folded(pre));
    assert(buckets_folded(post).last() == (id, fold_map(inner)));
}

impl Default for FileRepository {
    /// An empty repository.
    fn default() -> (r: FileRepository)
        ensures
            r.inv(),
            r@ == Seq::<(Seq<char>, Seq<(Version, SharedPackageConfigView)>)>::empty(),
    {
        FileRepository::new()
    }
}

/// Relies on `dirs::config_dir`: the per-user configuration directory, which
/// depends on the machine and its environment; nothing is assumed of the
/// value. A path that is not valid UTF-8 is treated as absent.
#[verifier::external_body]
fn config_dir_string() -> (r: Option<String>) {
    match dirs::config_dir() {
        Some(p) => match p.into_os_string().into_string() {
            Ok(s) => Some(s),
            Err(_) => None,
        },
        None => None,
    }
}

} // verus!
