//! Overlays: directory trees of target-specific native libraries, where to look for
//! them, which of them win, and the pkg-config descriptors that make them visible to
//! the build.
use vstd::prelude::*;
use vstd::string::*;
use itertools::Itertools;
use crate::errors::DinghyError;
use crate::text::{
    chars_of, ends_with, file_name, file_name_of, find_first, find_in, has_prefix, has_suffix,
    join, join_path, parent, parent_of, starts_with, string_of, to_owned_string,
    views_of,
};
use crate::toolchain::{target_key, target_key_spec, envify, envify_spec, BuildEnv, EnvOpView};

verus! {

/// Where an overlay applies.
#[derive(Clone, Copy, Debug, PartialEq, Eq, Structural)]
pub enum OverlayScope {
    Application,
    System,
}

/// One directory tree of native libraries and headers, named by `id`.
#[derive(Clone, Debug)]
pub struct Overlay {
    pub id: String,
    pub path: String,
    pub scope: OverlayScope,
}

/// Keeps, of each run of overlays with the same id, the first one, in order.
pub open spec fn dedup_by_id(s: Seq<Overlay>) -> Seq<Overlay>
    decreases s.len(),
{
    if s.len() == 0 {
        Seq::empty()
    } else {
        let prev = dedup_by_id(s.drop_last());
        if exists|j: int| 0 <= j < s.len() - 1 && s[j].id@ == s.last().id@ {
            prev
        } else {
            prev.push(s.last())
        }
    }
}

/// Relies on itertools' `unique_by`, which yields each item whose key it has not
/// yielded before, in order: here the first overlay of each id.
#[verifier::external_body]
fn unique_by_id(overlays: Vec<Overlay>) -> (r: Vec<Overlay>)
    ensures
        r@ == dedup_by_id(overlays@),
{
    overlays.into_iter().unique_by(|o| o.id.clone()).collect_vec()
}

/// `s[k]` is the first overlay of its id in `s`.
pub open spec fn first_of_its_id(s: Seq<Overlay>, k: int) -> bool {
    0 <= k < s.len() && forall|j: int| 0 <= j < k ==> s[j].id@ != s[k].id@
}

/// What deduplication keeps: overlays of distinct ids, each the first of its id in the
/// input, and one for every id of the input.
pub open spec fn dedup_law(s: Seq<Overlay>, r: Seq<Overlay>) -> bool {
    &&& forall|a: int, b: int| 0 <= a < b < r.len() ==> r[a].id@ != r[b].id@
    &&& forall|a: int| #![trigger r[a]] 0 <= a < r.len() ==> exists|k: int| #![trigger s[k]] first_of_its_id(s, k) && r[a] == s[k]
    &&& forall|k: int| #![trigger s[k]] 0 <= k < s.len() ==> exists|a: int| #![trigger r[a]] 0 <= a < r.len() && r[a].id@ == s[k].id@
}

proof fn lemma_dedup_from_first(s: Seq<Overlay>)
    ensures
        forall|a: int| #![trigger dedup_by_id(s)[a]] 0 <= a < dedup_by_id(s).len() ==>
            exists|k: int| #![trigger s[k]] first_of_its_id(s, k) && dedup_by_id(s)[a] == s[k],
    decreases s.len(),
{
    if s.len() > 0 {
        let t = s.drop_last();
        lemma_dedup_from_first(t);
        let prev = dedup_by_id(t);
        let r = dedup_by_id(s);
        assert forall|a: int| #![trigger r[a]] 0 <= a < r.len() implies
            exists|k: int| #![trigger s[k]] first_of_its_id(s, k) && r[a] == s[k] by {
            if a < prev.len() {
                assert(r[a] == prev[a]);
                let k = choose|k: int| #![trigger t[k]] first_of_its_id(t, k) && prev[a] == t[k];
                assert forall|j: int| 0 <= j < k implies s[j].id@ != s[k].id@ by {
                    assert(t[j] == s[j]);
                }
                assert(first_of_its_id(s, k) && r[a] == s[k]);
            } else {
                let k = s.len() - 1;
                assert forall|j: int| 0 <= j < k implies s[j].id@ != s[k].id@ by {}
                assert(first_of_its_id(s, k) && r[a] == s[k]);
            }
        }
    }
}

proof fn lemma_dedup_distinct(s: Seq<Overlay>)
    ensures
        forall|a: int, b: int| 0 <= a < b < dedup_by_id(s).len() ==>
            (#[trigger] dedup_by_id(s)[a]).id@ != (#[trigger] dedup_by_id(s)[b]).id@,
    decreases s.len(),
{
    if s.len() > 0 {
        let t = s.drop_last();
        lemma_dedup_distinct(t);
        lemma_dedup_from_first(t);
        let prev = dedup_by_id(t);
        let r = dedup_by_id(s);
        assert forall|a: int, b: int| 0 <= a < b < r.len() implies (#[trigger] r[a]).id@ != (#[trigger] r[b]).id@ by {
            if b < prev.len() {
                assert(r[a] == prev[a] && r[b] == prev[b]);
            } else {
                assert(r[a] == prev[a]);
                let k = choose|k: int| #![trigger t[k]] first_of_its_id(t, k) && prev[a] == t[k];
                assert(t[k] == s[k]);
            }
        }
    }
}

proof fn lemma_dedup_covers(s: Seq<Overlay>)
    ensures
        forall|k: int| #![trigger s[k]] 0 <= k < s.len() ==>
            exists|a: int| #![trigger dedup_by_id(s)[a]] 0 <= a < dedup_by_id(s).len() && dedup_by_id(s)[a].id@ == s[k].id@,
    decreases s.len(),
{
    if s.len() > 0 {
        let t = s.drop_last();
        lemma_dedup_covers(t);
        let prev = dedup_by_id(t);
        let r = dedup_by_id(s);
        assert forall|k: int| #![trigger s[k]] 0 <= k < s.len() implies
            exists|a: int| #![trigger r[a]] 0 <= a < r.len() && r[a].id@ == s[k].id@ by {
            if k < s.len() - 1 {
                assert(t[k] == s[k]);
                let a = choose|a: int| #![trigger prev[a]] 0 <= a < prev.len() && prev[a].id@ == t[k].id@;
                assert(r[a] == prev[a]);
            } else if exists|j: int| 0 <= j < s.len() - 1 && s[j].id@ == s.last().id@ {
                let j = choose|j: int| 0 <= j < s.len() - 1 && s[j].id@ == s.last().id@;
                assert(t[j] == s[j]);
                let a = choose|a: int| #![trigger prev[a]] 0 <= a < prev.len() && prev[a].id@ == t[j].id@;
                assert(r[a] == prev[a]);
            } else {
                assert(r[r.len() - 1] == s[k]);
            }
        }
    }
}

/// Deduplication by id keeps exactly one overlay of each id, the one found first
/// (nearest to the project, or configured explicitly).
pub proof fn lemma_dedup_keeps_first(s: Seq<Overlay>)
    ensures
        dedup_law(s, dedup_by_id(s)),
{
    lemma_dedup_from_first(s);
    lemma_dedup_distinct(s);
    lemma_dedup_covers(s);
}

/// The overlay work: a platform, its triple, the sysroot that descriptors are made
/// relative to, and a scratch directory for synthesized descriptors.
#[derive(Clone, Debug)]
pub struct Overlayer {
    pub platform_id: String,
    pub rustc_triple: Option<String>,
    pub sysroot: String,
    pub work_dir: String,
}

/// `<dir>/.dinghy/overlay/<platform_id>`.
pub open spec fn overlay_dir_spec(dir: Seq<char>, platform_id: Seq<char>) -> Seq<char> {
    join_path(join_path(join_path(dir, ".dinghy"@), "overlay"@), platform_id)
}

/// The overlay directories of `p` and of each of its ancestors that has a parent,
/// nearest first.
pub open spec fn ancestor_dirs(p: Seq<char>, platform_id: Seq<char>) -> Seq<Seq<char>>
    decreases p.len(),
{
    match parent_of(p) {
        None => Seq::empty(),
        Some(q) => if q.len() < p.len() {
            seq![overlay_dir_spec(p, platform_id)] + ancestor_dirs(q, platform_id)
        } else {
            seq![overlay_dir_spec(p, platform_id)]
        },
    }
}

/// The directories searched for overlays: those of the project directory and its
/// ancestors, then that of the home directory unless it is already among them.
pub open spec fn candidate_paths_spec(project: Seq<char>, home: Option<Seq<char>>, platform_id: Seq<char>) -> Seq<Seq<char>> {
    let up = ancestor_dirs(project, platform_id);
    match home {
        Some(h) => if up.contains(overlay_dir_spec(h, platform_id)) {
            up
        } else {
            up.push(overlay_dir_spec(h, platform_id))
        },
        None => up,
    }
}

pub open spec fn opt_view(o: Option<String>) -> Option<Seq<char>> {
    match o {
        Some(s) => Some(s@),
        None => None,
    }
}

/// Where the parent of a path exists, it is shorter.
proof fn lemma_parent_shorter(p: Seq<char>)
    ensures
        parent_of(p) matches Some(q) ==> q.len() < p.len(),
{
    crate::text::lemma_last_index_in_bounds(p, '/');
    if p.len() == 1 && p[0] == '/' {
        assert(p =~= seq!['/']);
    }
}

/// The relative path from `from` to `to`: one `..` for each component of `from`, then
/// `to`, so that `to` is reached when the result is read under `from`.
pub open spec fn path_between_spec(from: Seq<char>, to: Seq<char>) -> Seq<char> {
    seq!['/'] + ups(component_count(from)) + strip_leading_slashes(to)
}

pub open spec fn ups(n: nat) -> Seq<char>
    decreases n,
{
    if n == 0 {
        Seq::empty()
    } else {
        ups((n - 1) as nat) + "../"@
    }
}

/// The number of non-empty components of a `/`-separated path.
pub open spec fn component_count(p: Seq<char>) -> nat
    decreases p.len(),
{
    if p.len() == 0 {
        0
    } else {
        component_count(p.drop_last()) + if p.last() != '/' && (p.len() == 1 || p[p.len() - 2] == '/') {
            1nat
        } else {
            0nat
        }
    }
}

pub open spec fn strip_leading_slashes(p: Seq<char>) -> Seq<char>
    decreases p.len(),
{
    if p.len() > 0 && p[0] == '/' {
        strip_leading_slashes(p.drop_first())
    } else {
        p
    }
}

/// The relative path from `from` to `to`.
pub fn path_between(from: &str, to: &str) -> (r: String)
    ensures
        r@ == path_between_spec(from@, to@),
{
    let f = chars_of(from);
    let mut r = String::new();
    r.push('/');
    let mut i: usize = 0;
    assert(r@ =~= seq!['/'] + ups(component_count(f@.subrange(0, 0))));
    while i < f.len()
        invariant
            f@ == from@,
            i <= f@.len(),
            r@ == seq!['/'] + ups(component_count(f@.subrange(0, i as int))),
        decreases f@.len() - i,
    {
        let ghost pre = f@.subrange(0, i + 1);
        assert(pre.drop_last() =~= f@.subrange(0, i as int));
        if f[i] != '/' && (i == 0 || f[i - 1] == '/') {
            r.append("../");
        }
        i = i + 1;
    }
    assert(f@.subrange(0, f@.len() as int) =~= f@);
    let t = chars_of(to);
    let mut k: usize = 0;
    assert(t@.subrange(0, t@.len() as int) =~= t@);
    while k < t.len() && t[k] == '/'
        invariant
            t@ == to@,
            k <= t@.len(),
            strip_leading_slashes(to@) == strip_leading_slashes(t@.subrange(k as int, t@.len() as int)),
        decreases t@.len() - k,
    {
        assert(t@.subrange(k as int, t@.len() as int).drop_first() =~= t@.subrange(k + 1, t@.len() as int));
        k = k + 1;
    }
    let rest = string_of(&t, k, t.len());
    r.append(&rest);
    r
}

/// The library name of a shared-library file: its name without a leading `lib` and
/// without everything from the first `.so` on. None where nothing is left.
pub open spec fn lib_name_spec(file: Seq<char>) -> Option<Seq<char>> {
    let start: int = if has_prefix(file, "lib"@) { 3 } else { 0 };
    let end: int = match find_first(file, ".so"@) {
        Some(i) => i,
        None => file.len() as int,
    };
    if start >= end {
        None
    } else {
        Some(file.subrange(start, end))
    }
}

/// A pkg-config descriptor to write.
#[derive(Clone, Debug)]
pub struct PcFile {
    pub path: String,
    pub content: String,
}

impl View for PcFile {
    type V = (Seq<char>, Seq<char>);

    open spec fn view(&self) -> (Seq<char>, Seq<char>) {
        (self.path@, self.content@)
    }
}

pub open spec fn pcs_view(v: Seq<PcFile>) -> Seq<(Seq<char>, Seq<char>)> {
    v.map_values(|p: PcFile| p@)
}

/// The descriptor synthesized for an overlay named `name` whose libraries are `libs`.
pub open spec fn pc_content_spec(name: Seq<char>, libs: Seq<Seq<char>>) -> Seq<char> {
    "prefix:/\nexec_prefix:${prefix}\nName: "@ + name + "\nDescription: "@ + name
        + "\nVersion: unspecified\nLibs: -L${prefix} "@ + lib_flags(libs) + "\nCflags: -I${prefix}"@
}

/// ` -l<lib>` for each library, in order.
pub open spec fn lib_flags(libs: Seq<Seq<char>>) -> Seq<char>
    decreases libs.len(),
{
    if libs.len() == 0 {
        Seq::empty()
    } else {
        lib_flags(libs.drop_last()) + " -l"@ + libs.last()
    }
}

/// The top-level files of an overlay that are shared libraries (`*.so`).
pub open spec fn so_files(files: Seq<Seq<char>>) -> Seq<Seq<char>>
    decreases files.len(),
{
    if files.len() == 0 {
        Seq::empty()
    } else if has_suffix(files.last(), ".so"@) {
        so_files(files.drop_last()).push(files.last())
    } else {
        so_files(files.drop_last())
    }
}

/// Every shared library of the list yields a library name.
pub open spec fn all_named(files: Seq<Seq<char>>) -> bool {
    forall|i: int| 0 <= i < files.len() ==> (#[trigger] lib_name_spec(file_name_of(files[i]))) is Some
}

pub open spec fn lib_names_spec(files: Seq<Seq<char>>) -> Seq<Seq<char>> {
    files.map_values(|f: Seq<char>| lib_name_spec(file_name_of(f)).unwrap())
}

/// What a walk of one overlay found: its pkg-config directories, and the files at its
/// top level.
#[derive(Clone, Debug)]
pub struct OverlayScan {
    pub pkg_config_dirs: Vec<String>,
    pub top_level_files: Vec<String>,
}

/// The variable that lists pkg-config directories, qualified by the triple if any.
pub open spec fn libdir_key_spec(triple: Option<String>) -> Seq<char> {
    match triple {
        Some(t) => target_key_spec("PKG_CONFIG_LIBDIR"@, t@),
        None => "PKG_CONFIG_LIBDIR"@,
    }
}

/// `PKG_CONFIG_<ID>_PREFIX`, the variable that overrides one descriptor's prefix.
pub open spec fn prefix_key_spec(id: Seq<char>) -> Seq<char> {
    envify_spec("PKG_CONFIG_"@ + id + "_PREFIX"@)
}

impl Overlayer {
    pub fn new(platform_id: &str, rustc_triple: Option<String>, sysroot: &str, work_dir: &str) -> (r: Overlayer)
        ensures
            r.platform_id@ == platform_id@,
            r.rustc_triple == rustc_triple,
            r.sysroot@ == sysroot@,
            r.work_dir@ == work_dir@,
    {
        Overlayer {
            platform_id: to_owned_string(platform_id),
            rustc_triple,
            sysroot: to_owned_string(sysroot),
            work_dir: to_owned_string(work_dir),
        }
    }

    /// The directories to search for overlays, nearest to the project first, the home
    /// directory's last.
    pub fn candidate_paths(&self, project_dir: &str, home: &Option<String>) -> (r: Vec<String>)
        ensures
            views_of(r@) == candidate_paths_spec(project_dir@, opt_view(*home), self.platform_id@),
    {
        let mut r: Vec<String> = Vec::new();
        let mut cur = to_owned_string(project_dir);
        loop
            invariant
                views_of(r@) + ancestor_dirs(cur@, self.platform_id@)
                    == ancestor_dirs(project_dir@, self.platform_id@),
            ensures
                views_of(r@) == ancestor_dirs(project_dir@, self.platform_id@),
            decreases cur@.len(),
        {
            proof {
                lemma_parent_shorter(cur@);
            }
            match parent(&cur) {
                None => {
                    assert(views_of(r@) =~= ancestor_dirs(project_dir@, self.platform_id@));
                    break;
                },
                Some(q) => {
                    let d = self.overlay_dir(&cur);
                    let ghost before = views_of(r@);
                    r.push(d);
                    assert(views_of(r@) =~= before.push(overlay_dir_spec(cur@, self.platform_id@)));
                    assert(views_of(r@) + ancestor_dirs(q@, self.platform_id@)
                        =~= before + ancestor_dirs(cur@, self.platform_id@));
                    cur = q;
                },
            }
        }
        if let Some(h) = home {
            let hd = self.overlay_dir(h);
            let mut found = false;
            let mut i: usize = 0;
            while i < r.len()
                invariant
                    i <= r@.len(),
                    views_of(r@) == ancestor_dirs(project_dir@, self.platform_id@),
                    found == exists|j: int| 0 <= j < i && r@[j]@ == hd@,
                decreases r@.len() - i,
            {
                if crate::text::same_text(&r[i], &hd) {
                    found = true;
                }
                i = i + 1;
            }
            let ghost up = views_of(r@);
            assert(found == up.contains(hd@)) by {
                if up.contains(hd@) {
                    let j = choose|j: int| 0 <= j < up.len() && up[j] == hd@;
                    assert(r@[j]@ == hd@);
                }
                if found {
                    let j = choose|j: int| 0 <= j < r@.len() && r@[j]@ == hd@;
                    assert(up[j] == hd@);
                }
            }
            if !found {
                r.push(hd);
                assert(views_of(r@) =~= up.push(hd@));
            }
        }
        r
    }

    fn overlay_dir(&self, dir: &str) -> (r: String)
        ensures
            r@ == overlay_dir_spec(dir@, self.platform_id@),
    {
        let a = join(dir, ".dinghy");
        let b = join(&a, "overlay");
        join(&b, &self.platform_id)
    }

    /// The overlays declared in configuration, as `(id, path)` pairs, in order.
    pub fn from_conf(overlays: &Vec<(String, String)>) -> (r: Vec<Overlay>)
        ensures
            r@.len() == overlays@.len(),
            forall|i: int| 0 <= i < r@.len() ==> {
                &&& (#[trigger] r@[i]).id@ == overlays@[i].0@
                &&& r@[i].path@ == overlays@[i].1@
                &&& r@[i].scope == OverlayScope::Application
            },
    {
        let mut r: Vec<Overlay> = Vec::new();
        let mut i: usize = 0;
        while i < overlays.len()
            invariant
                i <= overlays@.len(),
                r@.len() == i,
                forall|j: int| 0 <= j < i ==> {
                    &&& (#[trigger] r@[j]).id@ == overlays@[j].0@
                    &&& r@[j].path@ == overlays@[j].1@
                    &&& r@[j].scope == OverlayScope::Application
                },
            decreases overlays@.len() - i,
        {
            let (id, path) = &overlays[i];
            r.push(Overlay {
                id: to_owned_string(id),
                path: to_owned_string(path),
                scope: OverlayScope::Application,
            });
            i = i + 1;
        }
        r
    }

    /// The overlays found in an overlay directory: one per subdirectory, named after it.
    pub fn from_directory(overlay_root_dir: &str, subdirs: &Vec<String>) -> (r: Vec<Overlay>)
        ensures
            r@.len() == subdirs@.len(),
            forall|i: int| 0 <= i < r@.len() ==> {
                &&& (#[trigger] r@[i]).id@ == subdirs@[i]@
                &&& r@[i].path@ == join_path(overlay_root_dir@, subdirs@[i]@)
                &&& r@[i].scope == OverlayScope::Application
            },
    {
        let mut r: Vec<Overlay> = Vec::new();
        let mut i: usize = 0;
        while i < subdirs.len()
            invariant
                i <= subdirs@.len(),
                r@.len() == i,
                forall|j: int| 0 <= j < i ==> {
                    &&& (#[trigger] r@[j]).id@ == subdirs@[j]@
                    &&& r@[j].path@ == join_path(overlay_root_dir@, subdirs@[j]@)
                    &&& r@[j].scope == OverlayScope::Application
                },
            decreases subdirs@.len() - i,
        {
            let name = &subdirs[i];
            r.push(Overlay {
                id: to_owned_string(name),
                path: join(overlay_root_dir, name),
                scope: OverlayScope::Application,
            });
            i = i + 1;
        }
        r
    }

    /// The overlays in effect: those of the configuration, then those found in each
    /// searched directory in order, keeping only the first of each id.
    pub fn resolve(configured: Vec<Overlay>, found: Vec<Vec<Overlay>>) -> (r: Vec<Overlay>)
        ensures
            r@ == dedup_by_id(configured@ + found@.map_values(|v: Vec<Overlay>| v@).flatten()),
    {
        let mut all = configured;
        let mut i: usize = 0;
        let ghost start = all@;
        let ghost groups = found@.map_values(|v: Vec<Overlay>| v@);
        while i < found.len()
            invariant
                i <= found@.len(),
                groups == found@.map_values(|v: Vec<Overlay>| v@),
                all@ == start + groups.subrange(0, i as int).flatten(),
            decreases found@.len() - i,
        {
            let mut j: usize = 0;
            let ghost before = all@;
            while j < found[i].len()
                invariant
                    i < found@.len(),
                    j <= found@[i as int]@.len(),
                    all@ == before + found@[i as int]@.subrange(0, j as int),
                decreases found@[i as int]@.len() - j,
            {
                all.push(found[i][j].clone_overlay());
                assert(found@[i as int]@.subrange(0, j + 1) =~= found@[i as int]@.subrange(0, j as int).push(found@[i as int]@[j as int]));
                j = j + 1;
            }
            assert(found@[i as int]@.subrange(0, j as int) =~= found@[i as int]@);
            assert(groups.subrange(0, i + 1) =~= groups.subrange(0, i as int).push(groups[i as int]));
            proof {
                groups.subrange(0, i as int).lemma_flatten_push(groups[i as int]);
            }
            assert(all@ =~= start + groups.subrange(0, i + 1).flatten());
            i = i + 1;
        }
        assert(groups.subrange(0, found@.len() as int) =~= groups);
        unique_by_id(all)
    }

    /// The descriptor synthesized for `overlay` from the files at its top level: every
    /// `*.so` file listed as a library. Fails where one yields no library name.
    ///
    /// The descriptor is `<work_dir>/<overlay id>.pc`: pkg-config finds a package by the
    /// file name of its descriptor, and the package this one describes is named after
    /// the overlay. One file per overlay also keeps the descriptors of two overlays of
    /// the same platform from overwriting each other in the shared work directory.
    pub fn generate_pkg_config_file(&self, overlay: &Overlay, top_level_files: &Vec<String>) -> (r: Result<PcFile, DinghyError>)
        ensures
            r is Ok <==> all_named(so_files(views_of(top_level_files@))),
            r matches Ok(pc) ==> {
                &&& pc.path@ == join_path(self.work_dir@, overlay.id@ + ".pc"@)
                &&& pc.content@ == pc_content_spec(overlay.id@, lib_names_spec(so_files(views_of(top_level_files@))))
            },
    {
        let ghost fv = views_of(top_level_files@);
        let mut names: Vec<String> = Vec::new();
        let mut i: usize = 0;
        while i < top_level_files.len()
            invariant
                i <= top_level_files@.len(),
                fv == views_of(top_level_files@),
                all_named(so_files(fv.subrange(0, i as int))),
                views_of(names@) == lib_names_spec(so_files(fv.subrange(0, i as int))),
            decreases top_level_files@.len() - i,
        {
            let f = &top_level_files[i];
            assert(fv.subrange(0, i + 1).drop_last() =~= fv.subrange(0, i as int));
            assert(fv[i as int] == f@);
            if ends_with(f, ".so") {
                match Overlayer::lib_name(f) {
                    Ok(n) => {
                        let ghost before = views_of(names@);
                        names.push(n);
                        let ghost sf = so_files(fv.subrange(0, i + 1));
                        let ghost prev_sf = so_files(fv.subrange(0, i as int));
                        assert(sf == prev_sf.push(f@));
                        assert(lib_names_spec(sf) =~= lib_names_spec(prev_sf).push(n@));
                        assert(views_of(names@) =~= before.push(n@));
                        assert forall|k: int| 0 <= k < sf.len() implies (#[trigger] lib_name_spec(file_name_of(sf[k]))) is Some by {
                            if k < prev_sf.len() {
                                assert(sf[k] == prev_sf[k]);
                            }
                        }
                    },
                    Err(e) => {
                        proof {
                            lemma_so_prefix_named(fv, i as int + 1);
                        }
                        let ghost sf = so_files(fv.subrange(0, i + 1));
                        assert(sf.last() == f@);
                        assert(lib_name_spec(file_name_of(sf[sf.len() - 1])) is None);
                        return Err(e);
                    },
                }
            } else {
                assert(so_files(fv.subrange(0, i + 1)) == so_files(fv.subrange(0, i as int)));
            }
            i = i + 1;
        }
        assert(fv.subrange(0, top_level_files@.len() as int) =~= fv);
        let mut pc_name = to_owned_string(&overlay.id);
        pc_name.append(".pc");
        let path = join(&self.work_dir, &pc_name);
        let content = pc_content(&overlay.id, &names);
        Ok(PcFile { path, content })
    }

    /// The library name of the shared-library file at `file_path`.
    pub fn lib_name(file_path: &str) -> (r: Result<String, DinghyError>)
        ensures
            r matches Ok(n) ==> lib_name_spec(file_name_of(file_path@)) == Some(n@),
            r is Err <==> lib_name_spec(file_name_of(file_path@)) is None,
    {
        let name = file_name(file_path);
        let v = chars_of(&name);
        let start: usize = if starts_with(&name, "lib") { 3 } else { 0 };
        let pat = chars_of(".so");
        proof {
            reveal_strlit("lib");
        }
        let end: usize = match find_in(&v, &pat) {
            Some(i) => {
                proof {
                    crate::toolchain::lemma_find_first_occurs(v@, pat@);
                }
                i
            },
            None => v.len(),
        };
        if start >= end {
            Err(DinghyError::InvalidLibName(name))
        } else {
            Ok(string_of(&v, start, end))
        }
    }

    /// Plans the overlay pass: the scratch directory first on the pkg-config search
    /// path, then for each overlay its own pkg-config directories (or, where it has
    /// none, a synthesized descriptor) and its prefix relative to the sysroot. Returns
    /// the descriptors to write.
    pub fn apply_overlay(&self, env: &mut BuildEnv, overlays: &Vec<(Overlay, OverlayScan)>) -> (r: Result<Vec<PcFile>, DinghyError>)
        ensures
            r is Ok ==> final(env).ops_view() == old(env).ops_view().push(
                EnvOpView::AppendPath(libdir_key_spec(self.rustc_triple), self.work_dir@),
            ) + overlay_ops(overlays@, self.rustc_triple, self.sysroot@),
            r is Ok <==> forall|i: int| 0 <= i < overlays@.len() ==>
                (#[trigger] overlays@[i]).1.pkg_config_dirs@.len() > 0
                    || all_named(so_files(views_of(overlays@[i].1.top_level_files@))),
            r matches Ok(pcs) ==> pcs_view(pcs@) == self.descriptors(overlays@),
            final(env).shims == old(env).shims,
            final(env).root == old(env).root,
            final(env).shell == old(env).shell,
    {
        let key = self.libdir_key();
        env.append_path(&key, &self.work_dir);
        let ghost start = env.ops_view();
        let mut pcs: Vec<PcFile> = Vec::new();
        let mut i: usize = 0;
        while i < overlays.len()
            invariant
                i <= overlays@.len(),
                key@ == libdir_key_spec(self.rustc_triple),
                env.ops_view() == start + overlay_ops(overlays@.subrange(0, i as int), self.rustc_triple, self.sysroot@),
                forall|j: int| 0 <= j < i ==>
                    (#[trigger] overlays@[j]).1.pkg_config_dirs@.len() > 0
                        || all_named(so_files(views_of(overlays@[j].1.top_level_files@))),
                pcs_view(pcs@) == self.descriptors(overlays@.subrange(0, i as int)),
                env.shims == old(env).shims,
                env.root == old(env).root,
                env.shell == old(env).shell,
            decreases overlays@.len() - i,
        {
            let (overlay, scan) = &overlays[i];
            let ghost before = env.ops_view();
            let dirs = &scan.pkg_config_dirs;
            let mut j: usize = 0;
            while j < dirs.len()
                invariant
                    j <= dirs@.len(),
                    key@ == libdir_key_spec(self.rustc_triple),
                    env.ops_view() == before + views_of(dirs@.subrange(0, j as int)).map_values(
                        |d: Seq<char>| EnvOpView::AppendPath(key@, d),
                    ),
                    env.shims == old(env).shims,
                    env.root == old(env).root,
                    env.shell == old(env).shell,
                decreases dirs@.len() - j,
            {
                env.append_path(&key, &dirs[j]);
                assert(views_of(dirs@.subrange(0, j + 1)).map_values(|d: Seq<char>| EnvOpView::AppendPath(key@, d))
                    =~= views_of(dirs@.subrange(0, j as int)).map_values(|d: Seq<char>| EnvOpView::AppendPath(key@, d)).push(
                        EnvOpView::AppendPath(key@, dirs@[j as int]@)));
                j = j + 1;
            }
            assert(dirs@.subrange(0, dirs@.len() as int) =~= dirs@);
            assert(overlays@.subrange(0, i + 1).drop_last() =~= overlays@.subrange(0, i as int));
            let ghost pcs_before = pcs_view(pcs@);
            if dirs.len() == 0 {
                let pc = self.generate_pkg_config_file(overlay, &scan.top_level_files);
                match pc {
                    Ok(pc) => {
                        pcs.push(pc);
                        assert(pcs_view(pcs@) =~= pcs_before.push((pc@.0, pc@.1)));
                    },
                    Err(e) => return Err(e),
                }
            }
            assert(pcs_view(pcs@) == self.descriptors(overlays@.subrange(0, i + 1)));
            let mut pk = to_owned_string("PKG_CONFIG_");
            pk.append(&overlay.id);
            pk.append("_PREFIX");
            let pkey = envify(&pk);
            let between = path_between(&self.sysroot, &overlay.path);
            env.set_if_undefined(&pkey, &between);
            assert(overlays@.subrange(0, i + 1).drop_last() =~= overlays@.subrange(0, i as int));
            assert(env.ops_view() =~= start + overlay_ops(overlays@.subrange(0, i + 1), self.rustc_triple, self.sysroot@));
            i = i + 1;
        }
        assert(overlays@.subrange(0, overlays@.len() as int) =~= overlays@);
        Ok(pcs)
    }

    /// The descriptors that the overlay pass writes: one for each overlay without
    /// pkg-config directories, in order, as `generate_pkg_config_file` makes it.
    pub open spec fn descriptors(&self, items: Seq<(Overlay, OverlayScan)>) -> Seq<(Seq<char>, Seq<char>)>
        decreases items.len(),
    {
        if items.len() == 0 {
            Seq::empty()
        } else {
            let (o, scan) = items.last();
            let prev = self.descriptors(items.drop_last());
            if scan.pkg_config_dirs@.len() == 0 {
                prev.push((
                    join_path(self.work_dir@, o.id@ + ".pc"@),
                    pc_content_spec(o.id@, lib_names_spec(so_files(views_of(scan.top_level_files@)))),
                ))
            } else {
                prev
            }
        }
    }

    fn libdir_key(&self) -> (r: String)
        ensures
            r@ == libdir_key_spec(self.rustc_triple),
    {
        match &self.rustc_triple {
            Some(t) => target_key("PKG_CONFIG_LIBDIR", t),
            None => to_owned_string("PKG_CONFIG_LIBDIR"),
        }
    }
}

/// The environment changes of the overlay pass, overlay after overlay.
pub open spec fn overlay_ops(items: Seq<(Overlay, OverlayScan)>, triple: Option<String>, sysroot: Seq<char>) -> Seq<EnvOpView>
    decreases items.len(),
{
    if items.len() == 0 {
        Seq::empty()
    } else {
        let (o, scan) = items.last();
        overlay_ops(items.drop_last(), triple, sysroot)
            + views_of(scan.pkg_config_dirs@).map_values(|d: Seq<char>| EnvOpView::AppendPath(libdir_key_spec(triple), d))
            .push(EnvOpView::SetIfUndefined(prefix_key_spec(o.id@), path_between_spec(sysroot, o.path@)))
    }
}

/// Where the first `n` files hold a shared library with no name, not all are named.
proof fn lemma_so_prefix_named(fv: Seq<Seq<char>>, n: int)
    requires
        0 < n <= fv.len(),
        has_suffix(fv[n - 1], ".so"@),
        lib_name_spec(file_name_of(fv[n - 1])) is None,
    ensures
        !all_named(so_files(fv)),
    decreases fv.len(),
{
    if n == fv.len() {
        let sf = so_files(fv);
        assert(sf.last() == fv.last());
        assert(lib_name_spec(file_name_of(sf[sf.len() - 1])) is None);
    } else {
        lemma_so_prefix_named(fv.drop_last(), n);
        let a = so_files(fv.drop_last());
        let k = choose|k: int| 0 <= k < a.len() && !(lib_name_spec(file_name_of(a[k])) is Some);
        assert(so_files(fv)[k] == a[k]);
    }
}

impl Overlay {
    /// A copy of this overlay.
    pub fn clone_overlay(&self) -> (r: Overlay)
        ensures
            r == *self,
    {
        Overlay { id: self.id.clone(), path: self.path.clone(), scope: self.scope }
    }
}

/// Whether a directory holds pkg-config descriptors: it is named `pkgconfig`, or it
/// holds a `*.pc` file.
pub fn is_pkg_config_dir(dir_name: &str, file_names: &Vec<String>) -> (r: bool)
    ensures
        r == (dir_name@ == "pkgconfig"@ || exists|i: int| 0 <= i < file_names@.len() && has_suffix(file_names@[i]@, ".pc"@)),
{
    if crate::text::same_text(dir_name, "pkgconfig") {
        return true;
    }
    let mut i: usize = 0;
    while i < file_names.len()
        invariant
            i <= file_names@.len(),
            forall|j: int| 0 <= j < i ==> !has_suffix(file_names@[j]@, ".pc"@),
        decreases file_names@.len() - i,
    {
        if ends_with(&file_names[i], ".pc") {
            return true;
        }
        i = i + 1;
    }
    false
}

/// The synthesized descriptor of an overlay named `name` with libraries `libs`.
pub fn pc_content(name: &str, libs: &Vec<String>) -> (r: String)
    ensures
        r@ == pc_content_spec(name@, views_of(libs@)),
{
    let mut r = to_owned_string("prefix:/\nexec_prefix:${prefix}\nName: ");
    r.append(name);
    r.append("\nDescription: ");
    r.append(name);
    r.append("\nVersion: unspecified\nLibs: -L${prefix} ");
    let ghost head = r@;
    let mut i: usize = 0;
    while i < libs.len()
        invariant
            i <= libs@.len(),
            r@ == head + lib_flags(views_of(libs@).subrange(0, i as int)),
        decreases libs@.len() - i,
    {
        r.append(" -l");
        r.append(&libs[i]);
        assert(views_of(libs@).subrange(0, i + 1).drop_last() =~= views_of(libs@).subrange(0, i as int));
        i = i + 1;
    }
    assert(views_of(libs@).subrange(0, libs@.len() as int) =~= views_of(libs@));
    r.append("\nCflags: -I${prefix}");
    r
}

} // verus!
