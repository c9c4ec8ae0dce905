use vstd::prelude::*;
use crate::package::{so_name_chars, PackageConfig, PackageConfigView};
use crate::paths::{join_path, path_append};
use crate::version::version_chars;

verus! {

/// The name of a cache entry's write-in-progress marker directory.
pub open spec fn tmp_name() -> Seq<char> {
    seq!['t', 'm', 'p']
}

/// The name of a cache entry's validated source snapshot directory.
pub open spec fn src_name() -> Seq<char> {
    seq!['s', 'r', 'c']
}

/// The name of a cache entry's built binaries directory.
pub open spec fn lib_name() -> Seq<char> {
    seq!['l', 'i', 'b']
}

/// The name of the package-config file inside a project and its snapshot.
pub open spec fn package_config_file_name() -> Seq<char> {
    seq!['q', 'p', 'm', '.', 'j', 's', 'o', 'n']
}

/// The root of one package version's cache entry:
/// `{cache_dir}/{id}/{version}`.
pub open spec fn base_path(c: PackageConfigView, cache_dir: Seq<char>) -> Seq<char> {
    path_append(path_append(cache_dir, c.info.id), version_chars(c.info.version))
}

/// The entry's write-in-progress marker directory.
pub open spec fn tmp_path(c: PackageConfigView, cache_dir: Seq<char>) -> Seq<char> {
    path_append(base_path(c, cache_dir), tmp_name())
}

/// The entry's source snapshot directory.
pub open spec fn src_path(c: PackageConfigView, cache_dir: Seq<char>) -> Seq<char> {
    path_append(base_path(c, cache_dir), src_name())
}

/// The entry's binaries directory.
pub open spec fn lib_path(c: PackageConfigView, cache_dir: Seq<char>) -> Seq<char> {
    path_append(base_path(c, cache_dir), lib_name())
}

/// One filesystem action of a cache-write plan, over plain path strings. The
/// disk work itself happens outside this library; the library says which
/// actions to take and in what order.
#[derive(Debug)]
pub enum CacheAction {
    /// Remove the directory and everything under it.
    RemoveDirAll(String),
    /// Create the directory and its missing parents.
    CreateDirAll(String),
    /// Copy the file at the first path to the second.
    CopyFile(String, String),
}

/// The mathematical value of a [`CacheAction`].
#[verifier::ext_equal]
pub enum CacheActionView {
    RemoveDirAll(Seq<char>),
    CreateDirAll(Seq<char>),
    CopyFile(Seq<char>, Seq<char>),
}

impl View for CacheAction {
    type V = CacheActionView;

    open spec fn view(&self) -> CacheActionView {
        match self {
            CacheAction::RemoveDirAll(p) => CacheActionView::RemoveDirAll(p@),
            CacheAction::CreateDirAll(p) => CacheActionView::CreateDirAll(p@),
            CacheAction::CopyFile(s, d) => CacheActionView::CopyFile(s@, d@),
        }
    }
}

/// The mathematical values of a sequence of actions.
pub open spec fn actions_view(s: Seq<CacheAction>) -> Seq<CacheActionView> {
    Seq::new(s.len(), |i: int| s[i]@)
}

/// The cache-write plan for one package version, in order:
/// - a leftover `tmp` directory (evidence of an interrupted earlier write) is
///   removed first;
/// - an existing `src` directory is removed too: every cache write is a full,
///   idempotent overwrite of the source snapshot;
/// - `src` is created and the package's shared-directory file and
///   package-config file are copied into it from the project folder;
/// - when a binary was built, `lib` is created and the binary is copied into
///   it under the package's computed binary file name.
pub open spec fn spec_cache_plan(
    c: PackageConfigView,
    cache_dir: Seq<char>,
    project: Seq<char>,
    binary: Option<Seq<char>>,
    tmp_exists: bool,
    src_exists: bool,
) -> Seq<CacheActionView> {
    let tmp = tmp_path(c, cache_dir);
    let src = src_path(c, cache_dir);
    let lib = lib_path(c, cache_dir);
    (if tmp_exists {
        seq![CacheActionView::RemoveDirAll(tmp)]
    } else {
        Seq::empty()
    }) + (if src_exists {
        seq![CacheActionView::RemoveDirAll(src)]
    } else {
        Seq::empty()
    }) + seq![
        CacheActionView::CreateDirAll(src),
        CacheActionView::CopyFile(path_append(project, c.shared_dir), path_append(src, c.shared_dir)),
        CacheActionView::CopyFile(
            path_append(project, package_config_file_name()),
            path_append(src, package_config_file_name()),
        ),
    ] + (match binary {
        Some(b) => seq![
            CacheActionView::CreateDirAll(lib),
            CacheActionView::CopyFile(b, path_append(lib, so_name_chars(c))),
        ],
        None => Seq::empty(),
    })
}

/// The cache-write plan for `package`'s entry under `cache_dir`, staging from
/// `project_folder`, exactly as [`spec_cache_plan`] lays it out.
/// `tmp_exists` and `src_exists` report what is on disk at the entry before
/// the write.
pub fn cache_write_plan(
    package: &PackageConfig,
    cache_dir: &String,
    project_folder: &String,
    binary_path: &Option<String>,
    tmp_exists: bool,
    src_exists: bool,
) -> (r: Vec<CacheAction>)
    ensures
        actions_view(r@) == spec_cache_plan(
            package@,
            cache_dir@,
            project_folder@,
            binary_path.deep_view(),
            tmp_exists,
            src_exists,
        ),
{
    proof {
        reveal_strlit("tmp");
        reveal_strlit("src");
        reveal_strlit("lib");
        reveal_strlit("qpm.json");
        assert("tmp"@ =~= tmp_name());
        assert("src"@ =~= src_name());
        assert("lib"@ =~= lib_name());
        assert("qpm.json"@ =~= package_config_file_name());
    }
    let id_level = join_path(cache_dir, package.info.id.as_str());
    let version_string = package.info.version.to_version_string();
    let base = join_path(&id_level, version_string.as_str());
    let tmp = join_path(&base, "tmp");
    let src = join_path(&base, "src");

    let mut plan: Vec<CacheAction> = Vec::new();
    if tmp_exists {
        plan.push(CacheAction::RemoveDirAll(tmp));
    }
    if src_exists {
        plan.push(CacheAction::RemoveDirAll(src.clone()));
    }
    plan.push(CacheAction::CreateDirAll(src.clone()));
    plan.push(
        CacheAction::CopyFile(
            join_path(project_folder, package.shared_dir.as_str()),
            join_path(&src, package.shared_dir.as_str()),
        ),
    );
    plan.push(
        CacheAction::CopyFile(join_path(project_folder, "qpm.json"), join_path(&src, "qpm.json")),
    );
    match binary_path {
        Some(b) => {
            let lib = join_path(&base, "lib");
            plan.push(CacheAction::CreateDirAll(lib.clone()));
            let so_name = package.get_so_name();
            plan.push(CacheAction::CopyFile(b.clone(), join_path(&lib, so_name.as_str())));
        },
        None => {},
    }
    proof {
        assert(actions_view(plan@) =~= spec_cache_plan(
            package@,
            cache_dir@,
            project_folder@,
            binary_path.deep_view(),
            tmp_exists,
            src_exists,
        ));
    }
    plan
}

/// A coarse picture of a filesystem: the set of paths that exist, files and
/// directories alike.
pub type FsState = Set<Seq<char>>;

/// Whether path `q` lies at or under path `p`.
pub open spec fn within(q: Seq<char>, p: Seq<char>) -> bool {
    q == p || (q.len() > p.len() && q.take(p.len() as int) == p && q[p.len() as int] == '/')
}

/// What one action, where it succeeds, leaves of a filesystem: removal takes
/// out everything at or under its path, creation adds the directory itself
/// (missing parents are not tracked in this coarse model), and a copy adds
/// the target path.
pub open spec fn apply_action(fs: FsState, a: CacheActionView) -> FsState {
    match a {
        CacheActionView::RemoveDirAll(p) => Set::new(|q: Seq<char>| fs.contains(q) && !within(q, p)),
        CacheActionView::CreateDirAll(p) => fs.insert(p),
        CacheActionView::CopyFile(s, d) => fs.insert(d),
    }
}

/// What a plan, run front to back, leaves of a filesystem.
pub open spec fn apply_plan(fs: FsState, plan: Seq<CacheActionView>) -> FsState
    decreases plan.len(),
{
    if plan.len() == 0 {
        fs
    } else {
        apply_plan(apply_action(fs, plan[0]), plan.drop_first())
    }
}

/// Whether an action adds a path at or under `p`.
pub open spec fn inserts_within(a: CacheActionView, p: Seq<char>) -> bool {
    match a {
        CacheActionView::RemoveDirAll(_) => false,
        CacheActionView::CreateDirAll(c) => within(c, p),
        CacheActionView::CopyFile(_, d) => within(d, p),
    }
}

/// A plan that never adds a path at or under `p`, run on a filesystem with no
/// path at or under `p`, leaves none there.
pub proof fn lemma_apply_plan_excludes(fs: FsState, plan: Seq<CacheActionView>, p: Seq<char>)
    requires
        forall|q: Seq<char>| #[trigger] fs.contains(q) ==> !within(q, p),
        forall|i: int| 0 <= i < plan.len() ==> !inserts_within(#[trigger] plan[i], p),
    ensures
        forall|q: Seq<char>| #[trigger] apply_plan(fs, plan).contains(q) ==> !within(q, p),
    decreases plan.len(),
{
    if plan.len() > 0 {
        let fs1 = apply_action(fs, plan[0]);
        assert(apply_plan(fs, plan) == apply_plan(fs1, plan.drop_first()));
        assert(forall|q: Seq<char>| #[trigger] fs1.contains(q) ==> !within(q, p));
        assert(forall|i: int|
            0 <= i < plan.drop_first().len() ==> !inserts_within(
                #[trigger] plan.drop_first()[i],
                p,
            ));
        lemma_apply_plan_excludes(fs1, plan.drop_first(), p);
    } else {
        assert(apply_plan(fs, plan) == fs);
    }
}

/// A path a filesystem holds survives a plan with no removal at or above it.
pub proof fn lemma_apply_plan_keeps(fs: FsState, plan: Seq<CacheActionView>, q: Seq<char>)
    requires
        fs.contains(q),
        forall|i: int|
            0 <= i < plan.len() ==> !((#[trigger] plan[i]) matches CacheActionView::RemoveDirAll(p)
                && within(q, p)),
    ensures
        apply_plan(fs, plan).contains(q),
    decreases plan.len(),
{
    if plan.len() > 0 {
        let fs1 = apply_action(fs, plan[0]);
        assert(apply_plan(fs, plan) == apply_plan(fs1, plan.drop_first()));
        assert(fs1.contains(q));
        lemma_apply_plan_keeps(fs1, plan.drop_first(), q);
    } else {
        assert(apply_plan(fs, plan) == fs);
    }
}

/// A path under `base/name` does not lie at or under `base/other` when the
/// two child names differ in their first character.
pub proof fn lemma_sibling_not_within(base: Seq<char>, tail: Seq<char>, other: Seq<char>)
    requires
        tail.len() > 0,
        other.len() > 0,
        tail[0] != other[0],
    ensures
        !within(path_append(base, tail), path_append(base, other)),
{
    let q = path_append(base, tail);
    let p = path_append(base, other);
    assert(q[base.len() as int + 1] == tail[0]);
    assert(p[base.len() as int + 1] == other[0]);
    if q == p {
        assert(false);
    }
    if q.len() > p.len() && q.take(p.len() as int) == p {
        assert(q.take(p.len() as int)[base.len() as int + 1] == q[base.len() as int + 1]);
        assert(false);
    }
}

/// Law: cache recovery. Running the cache-write plan for an entry whose `tmp`
/// directory was left behind by an interrupted write (and whose `src` is
/// absent) leaves no path at or under `tmp`, and leaves `src` populated: the
/// snapshot directory itself, its copy of the shared-directory file and its
/// copy of the package-config file all exist — whatever else was on disk.
pub proof fn lemma_cache_recovery(
    c: PackageConfigView,
    cache_dir: Seq<char>,
    project: Seq<char>,
    binary: Option<Seq<char>>,
    fs: FsState,
)
    ensures
        ({
            let end = apply_plan(fs, spec_cache_plan(c, cache_dir, project, binary, true, false));
            &&& forall|q: Seq<char>| #[trigger] end.contains(q) ==> !within(q, tmp_path(c, cache_dir))
            &&& end.contains(src_path(c, cache_dir))
            &&& end.contains(path_append(src_path(c, cache_dir), c.shared_dir))
            &&& end.contains(path_append(src_path(c, cache_dir), package_config_file_name()))
        }),
{
    let base = base_path(c, cache_dir);
    let tmp = tmp_path(c, cache_dir);
    let src = src_path(c, cache_dir);
    let lib = lib_path(c, cache_dir);
    let plan = spec_cache_plan(c, cache_dir, project, binary, true, false);
    let stage = seq![
        CacheActionView::CreateDirAll(src),
        CacheActionView::CopyFile(path_append(project, c.shared_dir), path_append(src, c.shared_dir)),
        CacheActionView::CopyFile(
            path_append(project, package_config_file_name()),
            path_append(src, package_config_file_name()),
        ),
    ];
    let binpart: Seq<CacheActionView> = match binary {
        Some(b) => seq![
            CacheActionView::CreateDirAll(lib),
            CacheActionView::CopyFile(b, path_append(lib, so_name_chars(c))),
        ],
        None => Seq::empty(),
    };
    let rest = stage + binpart;
    assert(plan =~= seq![CacheActionView::RemoveDirAll(tmp)] + rest);
    assert(plan[0] == CacheActionView::RemoveDirAll(tmp));
    assert(plan.drop_first() =~= rest);
    let fs1 = apply_action(fs, plan[0]);
    assert(apply_plan(fs, plan) == apply_plan(fs1, rest));

    // Paths under src or lib never lie under tmp: the child names start with
    // 's' and 'l' while tmp's starts with 't'.
    assert(path_append(src, c.shared_dir) =~= path_append(
        base,
        src_name() + seq!['/'] + c.shared_dir,
    ));
    assert(path_append(src, package_config_file_name()) =~= path_append(
        base,
        src_name() + seq!['/'] + package_config_file_name(),
    ));
    assert(path_append(lib, so_name_chars(c)) =~= path_append(
        base,
        lib_name() + seq!['/'] + so_name_chars(c),
    ));
    lemma_sibling_not_within(base, src_name(), tmp_name());
    lemma_sibling_not_within(base, src_name() + seq!['/'] + c.shared_dir, tmp_name());
    lemma_sibling_not_within(
        base,
        src_name() + seq!['/'] + package_config_file_name(),
        tmp_name(),
    );
    lemma_sibling_not_within(base, lib_name(), tmp_name());
    lemma_sibling_not_within(base, lib_name() + seq!['/'] + so_name_chars(c), tmp_name());

    assert(forall|q: Seq<char>| #[trigger] fs1.contains(q) ==> !within(q, tmp));
    assert(forall|i: int| 0 <= i < rest.len() ==> !inserts_within(#[trigger] rest[i], tmp));
    lemma_apply_plan_excludes(fs1, rest, tmp);

    // src and its two staged files survive the actions that follow their
    // creation: nothing after the first action removes anything.
    let fs2 = apply_action(fs1, rest[0]);
    let fs3 = apply_action(fs2, rest[1]);
    let fs4 = apply_action(fs3, rest[2]);
    assert(apply_plan(fs1, rest) == apply_plan(fs4, rest.skip(3))) by {
        let r1 = rest.drop_first();
        let r2 = r1.drop_first();
        let r3 = r2.drop_first();
        assert(r1[0] == rest[1]);
        assert(r2[0] == rest[2]);
        assert(r3 =~= rest.skip(3));
        assert(apply_plan(fs1, rest) == apply_plan(fs2, r1));
        assert(apply_plan(fs2, r1) == apply_plan(fs3, r2));
        assert(apply_plan(fs3, r2) == apply_plan(fs4, r3));
    }
    assert(fs4.contains(src));
    assert(fs4.contains(path_append(src, c.shared_dir)));
    assert(fs4.contains(path_append(src, package_config_file_name())));
    assert(forall|i: int|
        0 <= i < rest.skip(3).len() ==> !((#[trigger] rest.skip(3)[i])
            matches CacheActionView::RemoveDirAll(_)));
    lemma_apply_plan_keeps(fs4, rest.skip(3), src);
    lemma_apply_plan_keeps(fs4, rest.skip(3), path_append(src, c.shared_dir));
    lemma_apply_plan_keeps(fs4, rest.skip(3), path_append(src, package_config_file_name()));
}

} // verus!
