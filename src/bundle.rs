//! Bundles: a relocatable copy of one build artifact with what it needs at run time,
//! where it goes on the host, where it goes on a device, and which files an
//! incremental copy has to write.
use vstd::prelude::*;
use crate::errors::DinghyError;
use crate::text::{
    chars_of, file_name, file_name_of, has_prefix, join, join_path, parent, parent_of,
    split, split_spec, string_of, to_owned_string, views_of,
};

verus! {

/// One executable produced by a build, with the source tree it came from.
#[derive(Clone, Debug)]
pub struct Runnable {
    pub exe: String,
    pub source: String,
}

/// What a build produced: its runnables and the dynamic libraries they need.
#[derive(Clone, Debug)]
pub struct Build {
    pub runnables: Vec<Runnable>,
    pub dynamic_libraries: Vec<String>,
}

/// A staged bundle. `root_dir` is the directory that all its other paths lie under.
#[derive(Clone, Debug)]
pub struct BuildBundle {
    pub id: String,
    pub bundle_dir: String,
    pub bundle_exe: String,
    pub lib_dir: String,
    pub root_dir: String,
}

pub struct BundleView {
    pub id: Seq<char>,
    pub bundle_dir: Seq<char>,
    pub bundle_exe: Seq<char>,
    pub lib_dir: Seq<char>,
    pub root_dir: Seq<char>,
}

impl View for BuildBundle {
    type V = BundleView;

    open spec fn view(&self) -> BundleView {
        BundleView {
            id: self.id@,
            bundle_dir: self.bundle_dir@,
            bundle_exe: self.bundle_exe@,
            lib_dir: self.lib_dir@,
            root_dir: self.root_dir@,
        }
    }
}

/// The bundle of the executable at `exe`: `<exe-parent>/dinghy/<exe-name>/<exe-name>`,
/// libraries beside it. None where `exe` has no parent or no file name.
pub open spec fn bundle_spec(exe: Seq<char>) -> Option<BundleView> {
    match parent_of(exe) {
        None => None,
        Some(par) => {
            let name = file_name_of(exe);
            if name.len() == 0 {
                None
            } else {
                let root = join_path(par, "dinghy"@);
                let dir = join_path(root, name);
                Some(BundleView {
                    id: name,
                    bundle_dir: dir,
                    bundle_exe: join_path(dir, name),
                    lib_dir: dir,
                    root_dir: root,
                })
            }
        },
    }
}

/// `p` relative to `root`: empty for `root` itself, None where `p` is not under it.
pub open spec fn strip_root_spec(p: Seq<char>, root: Seq<char>) -> Option<Seq<char>> {
    if p == root {
        Some(Seq::empty())
    } else if has_prefix(p, root + seq!['/']) {
        Some(p.subrange(root.len() as int + 1, p.len() as int))
    } else {
        None
    }
}

/// `p` moved from under `root` to under `new_root`.
pub open spec fn rebase_spec(p: Seq<char>, root: Seq<char>, new_root: Seq<char>) -> Option<Seq<char>> {
    match strip_root_spec(p, root) {
        Some(rest) => Some(if rest.len() == 0 { new_root } else { join_path(new_root, rest) }),
        None => None,
    }
}

/// A bundle moved, path by path, from its root to `prefix`.
pub open spec fn rewrite_spec(b: BundleView, prefix: Seq<char>) -> Option<BundleView> {
    let d = rebase_spec(b.bundle_dir, b.root_dir, prefix);
    let e = rebase_spec(b.bundle_exe, b.root_dir, prefix);
    let l = rebase_spec(b.lib_dir, b.root_dir, prefix);
    if d is Some && e is Some && l is Some {
        Some(BundleView {
            id: b.id,
            bundle_dir: d.unwrap(),
            bundle_exe: e.unwrap(),
            lib_dir: l.unwrap(),
            root_dir: prefix,
        })
    } else {
        None
    }
}

/// A path to which others can be moved: not empty and without a trailing `/`.
pub open spec fn is_root_path(p: Seq<char>) -> bool {
    p.len() > 0 && p.last() != '/'
}

/// Moving a path to a root and then again to the same root changes nothing more.
pub proof fn lemma_rebase_idempotent(p: Seq<char>, root: Seq<char>, new_root: Seq<char>)
    requires
        is_root_path(new_root),
        rebase_spec(p, root, new_root) is Some,
    ensures
        rebase_spec(rebase_spec(p, root, new_root).unwrap(), new_root, new_root)
            == rebase_spec(p, root, new_root),
{
    let rest = strip_root_spec(p, root).unwrap();
    if rest.len() > 0 {
        let q = join_path(new_root, rest);
        assert(q == new_root + seq!['/'] + rest);
        assert(q.subrange(0, new_root.len() as int + 1) =~= new_root + seq!['/']);
        assert(q.subrange(new_root.len() as int + 1, q.len() as int) =~= rest);
        assert(q != new_root) by {
            assert(q.len() > new_root.len());
        }
    }
}

/// Bundle path derivation is a function of the bundle and the prefix, and rewriting
/// a rewritten bundle with the same prefix gives it back unchanged.
pub proof fn lemma_rewrite_idempotent(b: BundleView, prefix: Seq<char>)
    requires
        is_root_path(prefix),
        rewrite_spec(b, prefix) is Some,
    ensures
        rewrite_spec(rewrite_spec(b, prefix).unwrap(), prefix) == rewrite_spec(b, prefix),
{
    lemma_rebase_idempotent(b.bundle_dir, b.root_dir, prefix);
    lemma_rebase_idempotent(b.bundle_exe, b.root_dir, prefix);
    lemma_rebase_idempotent(b.lib_dir, b.root_dir, prefix);
}

/// Moving a path to a new root and back to the old one gives the path back, for
/// roots and a path without a trailing `/`.
pub proof fn lemma_rebase_inverse(p: Seq<char>, root: Seq<char>, new_root: Seq<char>)
    requires
        is_root_path(root),
        is_root_path(new_root),
        is_root_path(p),
        rebase_spec(p, root, new_root) is Some,
    ensures
        rebase_spec(rebase_spec(p, root, new_root).unwrap(), new_root, root) == Some(p),
{
    let rest = strip_root_spec(p, root).unwrap();
    if p == root {
        assert(rebase_spec(p, root, new_root) == Some(new_root));
    } else {
        assert(has_prefix(p, root + seq!['/']));
        assert(p.subrange(0, root.len() as int + 1) == root + seq!['/']);
        if rest.len() == 0 {
            assert(p.len() == root.len() + 1);
            assert(p.last() == (root + seq!['/'])[root.len() as int]);
        }
        let q = join_path(new_root, rest);
        assert(q == new_root + seq!['/'] + rest);
        assert(q.subrange(0, new_root.len() as int + 1) =~= new_root + seq!['/']);
        assert(q.subrange(new_root.len() as int + 1, q.len() as int) =~= rest);
        assert(q != new_root) by {
            assert(q.len() > new_root.len());
        }
        assert(join_path(root, rest) =~= p) by {
            assert(p =~= p.subrange(0, root.len() as int + 1) + p.subrange(root.len() as int + 1, p.len() as int));
        }
    }
}

/// Every path of a bundle lies under its root, and none ends with `/`.
pub open spec fn bundle_paths_plain(b: BundleView) -> bool {
    is_root_path(b.root_dir) && is_root_path(b.bundle_dir) && is_root_path(b.bundle_exe)
        && is_root_path(b.lib_dir)
}

/// Rewriting a bundle to a prefix is invertible: rewriting the result back to the
/// bundle's own root gives the bundle again.
pub proof fn lemma_rewrite_invertible(b: BundleView, prefix: Seq<char>)
    requires
        is_root_path(prefix),
        bundle_paths_plain(b),
        rewrite_spec(b, prefix) is Some,
    ensures
        rewrite_spec(rewrite_spec(b, prefix).unwrap(), b.root_dir) == Some(b),
{
    lemma_rebase_inverse(b.bundle_dir, b.root_dir, prefix);
    lemma_rebase_inverse(b.bundle_exe, b.root_dir, prefix);
    lemma_rebase_inverse(b.lib_dir, b.root_dir, prefix);
}

/// `p` moved from under `root` to under `new_root`.
pub fn rebase(p: &str, root: &str, new_root: &str) -> (r: Option<String>)
    ensures
        r matches Some(x) ==> rebase_spec(p@, root@, new_root@) == Some(x@),
        r is None ==> rebase_spec(p@, root@, new_root@) is None,
{
    let pv = chars_of(p);
    let rv = chars_of(root);
    let n = pv.len();
    let m = rv.len();
    if crate::text::same_text(p, root) {
        return Some(to_owned_string(new_root));
    }
    if m >= n || pv[m] != '/' {
        assert(!has_prefix(p@, root@ + seq!['/'])) by {
            if m < n && has_prefix(p@, root@ + seq!['/']) {
                assert(p@.subrange(0, m + 1)[m as int] == (root@ + seq!['/'])[m as int]);
            }
        }
        return None;
    }
    let mut i: usize = 0;
    while i < m
        invariant
            pv@ == p@,
            rv@ == root@,
            m == rv@.len(),
            m < n == pv@.len(),
            i <= m,
            forall|j: int| 0 <= j < i ==> pv@[j] == rv@[j],
        decreases m - i,
    {
        if pv[i] != rv[i] {
            assert(!has_prefix(p@, root@ + seq!['/'])) by {
                if has_prefix(p@, root@ + seq!['/']) {
                    assert(p@.subrange(0, m + 1)[i as int] == (root@ + seq!['/'])[i as int]);
                }
            }
            return None;
        }
        i = i + 1;
    }
    assert(p@.subrange(0, m + 1) =~= root@ + seq!['/']);
    let rest = string_of(&pv, m + 1, n);
    if m + 1 == n {
        Some(to_owned_string(new_root))
    } else {
        Some(join(new_root, &rest))
    }
}

impl BuildBundle {
    /// The same bundle with every path moved from under `root_dir` to under `prefix`.
    /// Fails where a path of the bundle does not lie under its root.
    pub fn replace_prefix_with(&self, prefix: &str) -> (r: Result<BuildBundle, DinghyError>)
        ensures
            r matches Ok(b) ==> rewrite_spec(self@, prefix@) == Some(b@),
            r is Err <==> rewrite_spec(self@, prefix@) is None,
    {
        let d = rebase(&self.bundle_dir, &self.root_dir, prefix);
        let e = rebase(&self.bundle_exe, &self.root_dir, prefix);
        let l = rebase(&self.lib_dir, &self.root_dir, prefix);
        match (d, e, l) {
            (Some(d), Some(e), Some(l)) => Ok(
                BuildBundle {
                    id: self.id.clone(),
                    bundle_dir: d,
                    bundle_exe: e,
                    lib_dir: l,
                    root_dir: to_owned_string(prefix),
                },
            ),
            _ => Err(
                DinghyError::InvalidPath(to_owned_string(&self.bundle_dir)),
            ),
        }
    }
}

/// What making a bundle takes: the files to copy (executable first, then each
/// dynamic library by its file name), the source tree and where it goes, and where
/// test data goes.
#[derive(Clone, Debug)]
pub struct BundlePlan {
    pub bundle: BuildBundle,
    pub copies: Vec<(String, String)>,
    pub source: String,
    pub source_dest: String,
    pub test_data_dest: String,
}

pub open spec fn copies_view(v: Seq<(String, String)>) -> Seq<(Seq<char>, Seq<char>)> {
    v.map_values(|p: (String, String)| (p.0@, p.1@))
}

/// Where each dynamic library lands in the bundle directory `dir`.
pub open spec fn lib_copies_spec(libs: Seq<Seq<char>>, dir: Seq<char>) -> Seq<(Seq<char>, Seq<char>)> {
    libs.map_values(|l: Seq<char>| (l, join_path(dir, file_name_of(l))))
}

/// Every library path names a file.
pub open spec fn libs_named(libs: Seq<Seq<char>>) -> bool {
    forall|i: int| 0 <= i < libs.len() ==> file_name_of(#[trigger] libs[i]).len() > 0
}

/// Plans the bundle of `runnable`: the executable and every dynamic library of `build`
/// copied into `<exe-parent>/dinghy/<exe-name>/`, the source tree into its `src`,
/// test data into its `test_data`. Fails where a path names no file.
pub fn make_app(build: &Build, runnable: &Runnable) -> (r: Result<BundlePlan, DinghyError>)
    ensures
        r is Ok <==> (bundle_spec(runnable.exe@) is Some && libs_named(
            views_of(build.dynamic_libraries@),
        )),
        r matches Ok(p) ==> {
            let b = bundle_spec(runnable.exe@).unwrap();
            &&& p.bundle@ == b
            &&& bundle_paths_plain(b)
            &&& copies_view(p.copies@) == seq![(runnable.exe@, b.bundle_exe)] + lib_copies_spec(
                views_of(build.dynamic_libraries@),
                b.bundle_dir,
            )
            &&& p.source@ == runnable.source@
            &&& p.source_dest@ == join_path(b.bundle_dir, "src"@)
            &&& p.test_data_dest@ == join_path(b.bundle_dir, "test_data"@)
        },
{
    let par = match parent(&runnable.exe) {
        Some(p) => p,
        None => {
            return Err(DinghyError::InvalidPath(to_owned_string(&runnable.exe)));
        },
    };
    let name = file_name(&runnable.exe);
    if chars_of(&name).len() == 0 {
        return Err(DinghyError::InvalidPath(to_owned_string(&runnable.exe)));
    }
    let root = join(&par, "dinghy");
    let dir = join(&root, &name);
    let exe = join(&dir, &name);
    let bundle = BuildBundle {
        id: name,
        bundle_dir: dir.clone(),
        bundle_exe: exe.clone(),
        lib_dir: dir.clone(),
        root_dir: root,
    };
    let ghost b = bundle_spec(runnable.exe@).unwrap();
    assert(bundle@ == b);
    proof {
        crate::text::lemma_file_name_has_no_slash(runnable.exe@);
        reveal_strlit("dinghy");
        let nm = file_name_of(runnable.exe@);
        assert(nm.last() != '/');
        assert(b.root_dir.last() == 'y');
        assert(b.bundle_dir.last() == nm.last());
        assert(b.bundle_exe.last() == nm.last());
    }
    let mut copies: Vec<(String, String)> = Vec::new();
    copies.push((to_owned_string(&runnable.exe), exe));
    let libs = &build.dynamic_libraries;
    let ghost lv = views_of(libs@);
    let mut i: usize = 0;
    while i < libs.len()
        invariant
            i <= libs@.len(),
            lv == views_of(libs@),
            lv == views_of(build.dynamic_libraries@),
            dir@ == b.bundle_dir,
            forall|j: int| 0 <= j < i ==> file_name_of(#[trigger] lv[j]).len() > 0,
            copies_view(copies@) == seq![(runnable.exe@, b.bundle_exe)] + lib_copies_spec(
                lv.subrange(0, i as int),
                b.bundle_dir,
            ),
        decreases libs@.len() - i,
    {
        let lib = &libs[i];
        assert(lv[i as int] == lib@);
        let lname = file_name(lib);
        if chars_of(&lname).len() == 0 {
            assert(lname@.len() == 0);
            assert(file_name_of(lv[i as int]).len() == 0);
            assert(!libs_named(views_of(build.dynamic_libraries@)));
            return Err(DinghyError::InvalidPath(to_owned_string(lib)));
        }
        let dest = join(&dir, &lname);
        let ghost before = copies_view(copies@);
        copies.push((to_owned_string(lib), dest));
        assert(lv.subrange(0, i + 1) =~= lv.subrange(0, i as int).push(lv[i as int]));
        assert(copies_view(copies@) =~= before.push((lv[i as int], join_path(b.bundle_dir, file_name_of(lv[i as int])))));
        assert(lib_copies_spec(lv.subrange(0, i + 1), b.bundle_dir) =~= lib_copies_spec(lv.subrange(0, i as int), b.bundle_dir).push(
            (lv[i as int], join_path(b.bundle_dir, file_name_of(lv[i as int]))),
        ));
        i = i + 1;
    }
    assert(lv.subrange(0, libs@.len() as int) =~= lv);
    let source_dest = join(&dir, "src");
    let test_data_dest = join(&dir, "test_data");
    Ok(BundlePlan { bundle, copies, source: to_owned_string(&runnable.source), source_dest, test_data_dest })
}

/// A test-data entry of the configuration: `source` is read relative to the directory
/// of the configuration file `base`, and lands under `test_data/<target>`.
#[derive(Clone, Debug)]
pub struct TestData {
    pub source: String,
    pub target: String,
    pub base: String,
    pub copy_git_ignored: bool,
}

/// Where a test-data entry is read from: its source next to the configuration file
/// that declared it (or under `/`).
pub open spec fn test_data_source_spec(td: TestData) -> Seq<char> {
    match parent_of(td.base@) {
        Some(d) => join_path(d, td.source@),
        None => join_path(seq!['/'], td.source@),
    }
}

impl TestData {
    /// The path that this entry is read from.
    pub fn source_path(&self) -> (r: String)
        ensures
            r@ == test_data_source_spec(*self),
    {
        match parent(&self.base) {
            Some(d) => join(&d, &self.source),
            None => {
                let mut root = String::new();
                root.push('/');
                assert(root@ =~= seq!['/']);
                join(&root, &self.source)
            },
        }
    }

    /// The path that this entry is copied to, under the test-data directory `dest`.
    pub fn target_path(&self, dest: &str) -> (r: String)
        ensures
            r@ == join_path(dest@, self.target@),
    {
        join(dest, &self.target)
    }
}

/// What is known of a file or directory on disk.
#[derive(Clone, Copy, Debug)]
pub struct FileMeta {
    pub is_dir: bool,
    pub len: u64,
    /// Modification time, in a unit that orders times.
    pub modified: u64,
}

/// One entry of a source tree walk, relative to its root, with what stands at the
/// same place in the destination, if anything.
#[derive(Clone, Debug)]
pub struct CopyEntry {
    pub rel_path: String,
    pub source: FileMeta,
    pub target: Option<FileMeta>,
}

/// One step of an incremental copy, on a path relative to both roots.
#[derive(Clone, Debug)]
pub enum CopyStep {
    Remove(String),
    MakeDir(String),
    CopyFile(String),
}

pub enum CopyStepView {
    Remove(Seq<char>),
    MakeDir(Seq<char>),
    CopyFile(Seq<char>),
}

impl View for CopyStep {
    type V = CopyStepView;

    open spec fn view(&self) -> CopyStepView {
        match self {
            CopyStep::Remove(p) => CopyStepView::Remove(p@),
            CopyStep::MakeDir(p) => CopyStepView::MakeDir(p@),
            CopyStep::CopyFile(p) => CopyStepView::CopyFile(p@),
        }
    }
}

/// A path with a component named `target`, which the copy leaves out.
pub open spec fn in_target_dir(rel: Seq<char>) -> bool {
    exists|i: int| 0 <= i < split_spec(rel, '/').len() && split_spec(rel, '/')[i] == "target"@
}

/// A file is copied unless the same file, as large and not older, is already there.
pub open spec fn needs_copy_spec(source: FileMeta, target: Option<FileMeta>) -> bool {
    match target {
        None => true,
        Some(t) => t.is_dir || t.len != source.len || t.modified < source.modified,
    }
}

/// The steps for one entry.
pub open spec fn entry_steps(e: CopyEntry) -> Seq<CopyStepView> {
    let p = e.rel_path@;
    if in_target_dir(p) {
        Seq::empty()
    } else if e.source.is_dir {
        match e.target {
            Some(t) => if !t.is_dir {
                seq![CopyStepView::Remove(p), CopyStepView::MakeDir(p)]
            } else {
                seq![CopyStepView::MakeDir(p)]
            },
            None => seq![CopyStepView::MakeDir(p)],
        }
    } else {
        let clear = match e.target {
            Some(t) => if t.is_dir { seq![CopyStepView::Remove(p)] } else { Seq::empty() },
            None => Seq::empty(),
        };
        if needs_copy_spec(e.source, e.target) {
            clear.push(CopyStepView::CopyFile(p))
        } else {
            clear
        }
    }
}

/// The steps for a whole walk, entry after entry.
pub open spec fn plan_spec(es: Seq<CopyEntry>) -> Seq<CopyStepView>
    decreases es.len(),
{
    if es.len() == 0 {
        Seq::empty()
    } else {
        plan_spec(es.drop_last()) + entry_steps(es.last())
    }
}

/// How many files a walk copies.
pub open spec fn copy_count(es: Seq<CopyEntry>) -> nat
    decreases es.len(),
{
    if es.len() == 0 {
        0
    } else {
        copy_count(es.drop_last()) + if copies_file(es.last()) { 1nat } else { 0nat }
    }
}

/// The entry is a file that is copied.
pub open spec fn copies_file(e: CopyEntry) -> bool {
    !in_target_dir(e.rel_path@) && !e.source.is_dir && needs_copy_spec(e.source, e.target)
}

/// The destination already holds this file as it is in the source.
pub open spec fn up_to_date(e: CopyEntry) -> bool {
    e.source.is_dir || match e.target {
        Some(t) => !t.is_dir && t.len == e.source.len && t.modified >= e.source.modified,
        None => false,
    }
}

/// How many file copies a list of steps holds.
pub open spec fn copy_steps(s: Seq<CopyStepView>) -> nat
    decreases s.len(),
{
    if s.len() == 0 {
        0
    } else {
        copy_steps(s.drop_last()) + if s.last() is CopyFile { 1nat } else { 0nat }
    }
}

proof fn lemma_copy_steps_concat(a: Seq<CopyStepView>, b: Seq<CopyStepView>)
    ensures
        copy_steps(a + b) == copy_steps(a) + copy_steps(b),
    decreases b.len(),
{
    if b.len() > 0 {
        lemma_copy_steps_concat(a, b.drop_last());
        assert((a + b).drop_last() =~= a + b.drop_last());
    } else {
        assert(a + b =~= a);
    }
}

/// The steps of a walk copy exactly the files that `copies_file` picks.
proof fn lemma_plan_copies(es: Seq<CopyEntry>)
    ensures
        copy_steps(plan_spec(es)) == copy_count(es),
    decreases es.len(),
{
    reveal_with_fuel(copy_steps, 3);
    if es.len() > 0 {
        lemma_plan_copies(es.drop_last());
        let e = es.last();
        lemma_copy_steps_concat(plan_spec(es.drop_last()), entry_steps(e));
        let st = entry_steps(e);
        let p = e.rel_path@;
        if !in_target_dir(p) && !e.source.is_dir {
            let clear: Seq<CopyStepView> = match e.target {
                Some(t) => if t.is_dir { seq![CopyStepView::Remove(p)] } else { Seq::empty() },
                None => Seq::empty(),
            };
            assert(copy_steps(clear) == 0) by {
                if clear.len() == 1 {
                    assert(clear.drop_last().len() == 0);
                }
            }
            if needs_copy_spec(e.source, e.target) {
                assert(st == clear.push(CopyStepView::CopyFile(p)));
                assert(st.drop_last() == clear);
            }
        } else if !in_target_dir(p) {
            assert(copy_steps(st) == 0) by {
                if st.len() == 2 {
                    assert(st.drop_last().drop_last().len() == 0);
                    assert(st.drop_last().last() is Remove);
                } else {
                    assert(st.drop_last().len() == 0);
                }
            }
        }
    }
}

/// An entry that an incremental copy leaves alone: already up to date in the
/// destination, or under a `target` directory, which is never copied.
pub open spec fn settled(e: CopyEntry) -> bool {
    up_to_date(e) || in_target_dir(e.rel_path@)
}

/// Copying again a tree that has not changed since it was copied copies no file.
pub proof fn lemma_unchanged_tree_copies_nothing(es: Seq<CopyEntry>)
    requires
        forall|i: int| 0 <= i < es.len() ==> settled(#[trigger] es[i]),
    ensures
        copy_steps(plan_spec(es)) == 0,
{
    lemma_unchanged_count(es);
    lemma_plan_copies(es);
}

proof fn lemma_unchanged_count(es: Seq<CopyEntry>)
    requires
        forall|i: int| 0 <= i < es.len() ==> settled(#[trigger] es[i]),
    ensures
        copy_count(es) == 0,
    decreases es.len(),
{
    if es.len() > 0 {
        assert(settled(es[es.len() - 1]));
        lemma_unchanged_count(es.drop_last());
    }
}

/// Where one file of an otherwise unchanged tree has changed, the copy copies exactly
/// one file.
pub proof fn lemma_one_change_one_copy(es: Seq<CopyEntry>, k: int)
    requires
        0 <= k < es.len(),
        forall|i: int| 0 <= i < es.len() && i != k ==> settled(#[trigger] es[i]),
        copies_file(es[k]),
    ensures
        copy_steps(plan_spec(es)) == 1,
{
    lemma_one_change_count(es, k);
    lemma_plan_copies(es);
}

proof fn lemma_one_change_count(es: Seq<CopyEntry>, k: int)
    requires
        0 <= k < es.len(),
        forall|i: int| 0 <= i < es.len() && i != k ==> settled(#[trigger] es[i]),
        copies_file(es[k]),
    ensures
        copy_count(es) == 1,
    decreases es.len(),
{
    if k == es.len() - 1 {
        lemma_unchanged_count(es.drop_last());
    } else {
        assert(settled(es[es.len() - 1]));
        lemma_one_change_count(es.drop_last(), k);
    }
}

/// Whether a relative path has a component named `target`.
pub fn has_target_component(rel: &str) -> (r: bool)
    ensures
        r == in_target_dir(rel@),
{
    let parts = split(rel, '/');
    let mut i: usize = 0;
    while i < parts.len()
        invariant
            i <= parts@.len(),
            views_of(parts@) == split_spec(rel@, '/'),
            forall|j: int| 0 <= j < i ==> split_spec(rel@, '/')[j] != "target"@,
        decreases parts@.len() - i,
    {
        if crate::text::same_text(&parts[i], "target") {
            assert(split_spec(rel@, '/')[i as int] == "target"@);
            return true;
        }
        i = i + 1;
    }
    false
}

/// Whether a file has to be copied over what the destination holds.
pub fn needs_copy(source: FileMeta, target: Option<FileMeta>) -> (r: bool)
    ensures
        r == needs_copy_spec(source, target),
{
    match target {
        None => true,
        Some(t) => t.is_dir || t.len != source.len || t.modified < source.modified,
    }
}

/// The steps of an incremental copy of a walked tree: directories made, files copied
/// only where missing, of another size, or newer than their copy, and nothing under a
/// `target` directory.
pub fn plan_copy(entries: &Vec<CopyEntry>) -> (r: Vec<CopyStep>)
    ensures
        r@.map_values(|s: CopyStep| s@) == plan_spec(entries@),
{
    let mut r: Vec<CopyStep> = Vec::new();
    let mut i: usize = 0;
    while i < entries.len()
        invariant
            i <= entries@.len(),
            r@.map_values(|s: CopyStep| s@) == plan_spec(entries@.subrange(0, i as int)),
        decreases entries@.len() - i,
    {
        let e = &entries[i];
        let ghost before = r@.map_values(|s: CopyStep| s@);
        let p = &e.rel_path;
        if has_target_component(p) {
        } else if e.source.is_dir {
            match e.target {
                Some(t) => {
                    if !t.is_dir {
                        r.push(CopyStep::Remove(p.clone()));
                    }
                },
                None => {},
            }
            r.push(CopyStep::MakeDir(p.clone()));
        } else {
            match e.target {
                Some(t) => {
                    if t.is_dir {
                        r.push(CopyStep::Remove(p.clone()));
                    }
                },
                None => {},
            }
            if needs_copy(e.source, e.target) {
                r.push(CopyStep::CopyFile(p.clone()));
            }
        }
        assert(entries@.subrange(0, i + 1).drop_last() =~= entries@.subrange(0, i as int));
        assert(r@.map_values(|s: CopyStep| s@) =~= before + entry_steps(entries@[i as int]));
        i = i + 1;
    }
    assert(entries@.subrange(0, entries@.len() as int) =~= entries@);
    r
}

} // verus!
