//! Toolchain shims and the environment that steers the host build tool toward a
//! cross toolchain. Nothing here touches the process environment or the disk: each
//! step is recorded in a `BuildEnv`, which the caller applies once.
use vstd::prelude::*;
use vstd::string::*;
use crate::text::{
    chars_of, concat, find_first, find_in, has_prefix, join, join_all, join_path, join_with,
    occurs_at, split, split_spec, starts_with, string_of, to_owned_string, views_of,
};

verus! {

/// Upper-cases ASCII letters and turns `-` into `_`.
pub open spec fn envify_char(c: char) -> char {
    if c == '-' {
        '_'
    } else if 'a' <= c && c <= 'z' {
        (((c as u32) - 32) as u8) as char
    } else {
        c
    }
}

/// A name made fit for an environment variable: `aarch64-linux-android` gives
/// `AARCH64_LINUX_ANDROID`.
pub open spec fn envify_spec(s: Seq<char>) -> Seq<char> {
    s.map_values(|c: char| envify_char(c))
}

/// Turns every `-` of a triple into `_`, keeping case.
pub open spec fn underscored(s: Seq<char>) -> Seq<char> {
    s.map_values(|c: char| if c == '-' { '_' } else { c })
}

/// The name of `key` qualified by a target triple: `PKG_CONFIG_LIBDIR` for
/// `arm-linux-androideabi` gives `PKG_CONFIG_LIBDIR_arm_linux_androideabi`.
pub open spec fn target_key_spec(key: Seq<char>, triple: Seq<char>) -> Seq<char> {
    key + seq!['_'] + underscored(triple)
}

/// `s` with every occurrence of `from` (read left to right, not overlapping) replaced
/// by `to`; an empty `from` leaves `s` as it is.
#[verifier::opaque]
pub open spec fn replace_all(s: Seq<char>, from: Seq<char>, to: Seq<char>) -> Seq<char>
    decreases s.len(),
{
    if from.len() == 0 {
        s
    } else {
        match find_first(s, from) {
            Some(i) => if 0 <= i && i + from.len() <= s.len() {
                s.subrange(0, i) + to + replace_all(s.subrange(i + from.len(), s.len() as int), from, to)
            } else {
                s
            },
            None => s,
        }
    }
}

/// The syntax that a shim script uses to forward its arguments.
#[derive(Clone, Copy, Debug, PartialEq, Eq, Structural)]
pub enum HostShell {
    /// `/bin/sh` scripts, forwarding with `"$@"`.
    Posix,
    /// Batch files, forwarding with `%*`.
    Windows,
}

pub open spec fn glob_args_spec(shell: HostShell) -> Seq<char> {
    match shell {
        HostShell::Posix => seq!['"', '$', '@', '"'],
        HostShell::Windows => seq!['%', '*'],
    }
}

/// What a shim script holds: an interpreter line on POSIX hosts, then the command
/// with every argument forwarded, then an empty line.
pub open spec fn shim_script_spec(shell: HostShell, command: Seq<char>) -> Seq<char> {
    let header = match shell {
        HostShell::Posix => "#!/bin/sh\n"@,
        HostShell::Windows => Seq::empty(),
    };
    header + command + seq![' '] + glob_args_spec(shell) + seq!['\n', '\n']
}

/// The file name of a shim: batch files carry the `.bat` extension.
pub open spec fn shim_file_spec(shell: HostShell, name: Seq<char>) -> Seq<char> {
    match shell {
        HostShell::Posix => name,
        HostShell::Windows => name + ".bat"@,
    }
}

/// `<root>/target/<triple>/<id>`, where the shims of one platform live.
pub open spec fn target_shim_path_spec(root: Seq<char>, triple: Seq<char>, id: Seq<char>) -> Seq<char> {
    join_path(join_path(join_path(root, "target"@), triple), id)
}

/// One change to the environment of the build tool.
#[derive(Clone, Debug)]
pub enum EnvOp {
    /// Sets `key` to `value`.
    Assign { key: String, value: String },
    /// Sets `key` to `value` unless it already has a value.
    SetIfUndefined { key: String, value: String },
    /// Appends `value` to the `:`-separated list in `key` (or sets it if unset).
    AppendPath { key: String, value: String },
    /// Puts `value` in front of the `:`-separated list in `key` (or sets it if unset),
    /// so that what it holds is found before what the list held.
    PrependPath { key: String, value: String },
}

pub enum EnvOpView {
    Assign(Seq<char>, Seq<char>),
    SetIfUndefined(Seq<char>, Seq<char>),
    AppendPath(Seq<char>, Seq<char>),
    PrependPath(Seq<char>, Seq<char>),
}

impl View for EnvOp {
    type V = EnvOpView;

    open spec fn view(&self) -> EnvOpView {
        match self {
            EnvOp::Assign { key, value } => EnvOpView::Assign(key@, value@),
            EnvOp::SetIfUndefined { key, value } => EnvOpView::SetIfUndefined(key@, value@),
            EnvOp::AppendPath { key, value } => EnvOpView::AppendPath(key@, value@),
            EnvOp::PrependPath { key, value } => EnvOpView::PrependPath(key@, value@),
        }
    }
}

/// An executable wrapper script to write, at `path`, with `script` as its content.
#[derive(Clone, Debug)]
pub struct Shim {
    pub path: String,
    pub script: String,
}

impl View for Shim {
    type V = (Seq<char>, Seq<char>);

    open spec fn view(&self) -> (Seq<char>, Seq<char>) {
        (self.path@, self.script@)
    }
}

/// The environment prepared for one build: shims to write and variables to set, in
/// order, relative to a project root.
#[derive(Clone, Debug)]
pub struct BuildEnv {
    pub root: String,
    pub shell: HostShell,
    pub ops: Vec<EnvOp>,
    pub shims: Vec<Shim>,
}

impl BuildEnv {
    pub open spec fn ops_view(&self) -> Seq<EnvOpView> {
        self.ops@.map_values(|o: EnvOp| o@)
    }

    pub open spec fn shims_view(&self) -> Seq<(Seq<char>, Seq<char>)> {
        self.shims@.map_values(|s: Shim| s@)
    }

    /// An empty plan for a project rooted at `root`.
    pub fn new(root: &str, shell: HostShell) -> (r: BuildEnv)
        ensures
            r.root@ == root@,
            r.shell == shell,
            r.ops@.len() == 0,
            r.shims@.len() == 0,
    {
        BuildEnv { root: to_owned_string(root), shell, ops: Vec::new(), shims: Vec::new() }
    }

    fn push_op(&mut self, op: EnvOp)
        ensures
            final(self).ops_view() == old(self).ops_view().push(op@),
            final(self).shims == old(self).shims,
            final(self).root == old(self).root,
            final(self).shell == old(self).shell,
    {
        self.ops.push(op);
        assert(self.ops_view() =~= old(self).ops_view().push(op@));
    }

    /// Records that `key` is set to `value`.
    pub fn set(&mut self, key: &str, value: &str)
        ensures
            final(self).ops_view() == old(self).ops_view().push(EnvOpView::Assign(key@, value@)),
            final(self).shims == old(self).shims,
            final(self).root == old(self).root,
            final(self).shell == old(self).shell,
    {
        self.push_op(EnvOp::Assign { key: to_owned_string(key), value: to_owned_string(value) });
    }

    /// Records that `key` is set to `value` unless it already has a value.
    pub fn set_if_undefined(&mut self, key: &str, value: &str)
        ensures
            final(self).ops_view() == old(self).ops_view().push(
                EnvOpView::SetIfUndefined(key@, value@),
            ),
            final(self).shims == old(self).shims,
            final(self).root == old(self).root,
            final(self).shell == old(self).shell,
    {
        self.push_op(
            EnvOp::SetIfUndefined { key: to_owned_string(key), value: to_owned_string(value) },
        );
    }

    /// Records that `value` is appended to the path list in `key`.
    pub fn append_path(&mut self, key: &str, value: &str)
        ensures
            final(self).ops_view() == old(self).ops_view().push(
                EnvOpView::AppendPath(key@, value@),
            ),
            final(self).shims == old(self).shims,
            final(self).root == old(self).root,
            final(self).shell == old(self).shell,
    {
        self.push_op(EnvOp::AppendPath { key: to_owned_string(key), value: to_owned_string(value) });
    }

    /// Records that `value` is put in front of the path list in `key`.
    pub fn prepend_path(&mut self, key: &str, value: &str)
        ensures
            final(self).ops_view() == old(self).ops_view().push(
                EnvOpView::PrependPath(key@, value@),
            ),
            final(self).shims == old(self).shims,
            final(self).root == old(self).root,
            final(self).shell == old(self).shell,
    {
        self.push_op(EnvOp::PrependPath { key: to_owned_string(key), value: to_owned_string(value) });
    }

    /// Records a shim named `name` for the platform `id` of `triple` that runs
    /// `command` with the arguments it was given; returns the shim's path.
    pub fn add_shim(&mut self, triple: &str, id: &str, name: &str, command: &str) -> (r: String)
        ensures
            r@ == join_path(
                target_shim_path_spec(old(self).root@, triple@, id@),
                shim_file_spec(old(self).shell, name@),
            ),
            final(self).shims_view() == old(self).shims_view().push(
                (r@, shim_script_spec(old(self).shell, command@)),
            ),
            final(self).ops == old(self).ops,
            final(self).root == old(self).root,
            final(self).shell == old(self).shell,
    {
        let dir = target_shim_path(&self.root, triple, id);
        let file = shim_file_name(self.shell, name);
        let path = join(&dir, &file);
        let script = shim_script(self.shell, command);
        let ghost before = self.shims_view();
        self.shims.push(Shim { path: path.clone(), script });
        assert(self.shims_view() =~= before.push((path@, shim_script_spec(self.shell, command@))));
        path
    }
}

/// Makes a name fit for an environment variable.
pub fn envify(name: &str) -> (r: String)
    ensures
        r@ == envify_spec(name@),
{
    let v = chars_of(name);
    let mut r = String::new();
    let mut i: usize = 0;
    while i < v.len()
        invariant
            v@ == name@,
            i <= v@.len(),
            r@ == envify_spec(v@.subrange(0, i as int)),
        decreases v@.len() - i,
    {
        let c = v[i];
        let d = if c == '-' {
            '_'
        } else if 'a' <= c && c <= 'z' {
            (((c as u32) - 32) as u8) as char
        } else {
            c
        };
        r.push(d);
        i = i + 1;
        assert(envify_spec(v@.subrange(0, i as int)) =~= envify_spec(v@.subrange(0, i - 1)).push(d));
    }
    assert(v@.subrange(0, v@.len() as int) =~= v@);
    r
}

/// `key` qualified by a target triple.
pub fn target_key(key: &str, triple: &str) -> (r: String)
    ensures
        r@ == target_key_spec(key@, triple@),
{
    let v = chars_of(triple);
    let mut r = to_owned_string(key);
    r.push('_');
    let mut i: usize = 0;
    while i < v.len()
        invariant
            v@ == triple@,
            i <= v@.len(),
            r@ == key@ + seq!['_'] + underscored(v@.subrange(0, i as int)),
        decreases v@.len() - i,
    {
        let c = v[i];
        r.push(if c == '-' { '_' } else { c });
        i = i + 1;
        assert(underscored(v@.subrange(0, i as int)) =~= underscored(v@.subrange(0, i - 1)).push(
            if c == '-' { '_' } else { c },
        ));
    }
    assert(v@.subrange(0, v@.len() as int) =~= v@);
    r
}

/// The argument-forwarding syntax of a host shell.
pub fn glob_args(shell: HostShell) -> (r: &'static str)
    ensures
        r@ == glob_args_spec(shell),
{
    proof {
        reveal_strlit("\"$@\"");
        reveal_strlit("%*");
    }
    match shell {
        HostShell::Posix => "\"$@\"",
        HostShell::Windows => "%*",
    }
}

/// The content of a shim that runs `command` with its arguments.
pub fn shim_script(shell: HostShell, command: &str) -> (r: String)
    ensures
        r@ == shim_script_spec(shell, command@),
{
    let mut r = String::new();
    if shell == HostShell::Posix {
        r.append("#!/bin/sh\n");
    }
    r.append(command);
    r.push(' ');
    r.append(glob_args(shell));
    r.push('\n');
    r.push('\n');
    assert(r@ =~= shim_script_spec(shell, command@));
    r
}

/// The file name of a shim.
pub fn shim_file_name(shell: HostShell, name: &str) -> (r: String)
    ensures
        r@ == shim_file_spec(shell, name@),
{
    match shell {
        HostShell::Posix => to_owned_string(name),
        HostShell::Windows => concat(name, ".bat"),
    }
}

/// The directory of the shims of platform `id` for `triple` under `root`.
pub fn target_shim_path(root: &str, triple: &str, id: &str) -> (r: String)
    ensures
        r@ == target_shim_path_spec(root@, triple@, id@),
{
    let a = join(root, "target");
    let b = join(&a, triple);
    join(&b, id)
}

/// Where `find_first` finds `p`, `p` stands there.
pub proof fn lemma_find_first_occurs(s: Seq<char>, p: Seq<char>)
    ensures
        find_first(s, p) matches Some(i) ==> occurs_at(s, p, i),
{
    if exists|i: int| occurs_at(s, p, i) {
        let k = choose|i: int| occurs_at(s, p, i);
        crate::text::lemma_first_occurrence_exists(s, p, k);
    }
}

/// The first step of `replace_all` where `from` occurs.
proof fn lemma_replace_step(s: Seq<char>, from: Seq<char>, to: Seq<char>, i: int)
    requires
        from.len() > 0,
        find_first(s, from) == Some(i),
    ensures
        0 <= i && i + from.len() <= s.len(),
        replace_all(s, from, to) == s.subrange(0, i) + to + replace_all(
            s.subrange(i + from.len(), s.len() as int),
            from,
            to,
        ),
{
    lemma_find_first_occurs(s, from);
    reveal(replace_all);
}

/// `replace_all` changes nothing where `from` does not occur, or is empty.
proof fn lemma_replace_none(s: Seq<char>, from: Seq<char>, to: Seq<char>)
    requires
        from.len() == 0 || find_first(s, from) is None,
    ensures
        replace_all(s, from, to) == s,
{
    reveal(replace_all);
}

/// `s` with every occurrence of `from` replaced by `to`.
pub fn replace(s: &str, from: &str, to: &str) -> (r: String)
    ensures
        r@ == replace_all(s@, from@, to@),
{
    let f = chars_of(from);
    if f.len() == 0 {
        proof {
            lemma_replace_none(s@, from@, to@);
        }
        return to_owned_string(s);
    }
    let v = chars_of(s);
    let n = v.len();
    let mut r = String::new();
    let mut start: usize = 0;
    assert(v@.subrange(0, n as int) =~= v@);
    loop
        invariant
            v@ == s@,
            f@ == from@,
            n == v@.len(),
            f@.len() > 0,
            start <= n,
            r@ + replace_all(v@.subrange(start as int, n as int), f@, to@)
                == replace_all(v@, f@, to@),
        decreases n - start,
    {
        let tail = string_of(&v, start, n);
        let tv = chars_of(&tail);
        match find_in(&tv, &f) {
            Some(i) => {
                proof {
                    lemma_replace_step(tv@, f@, to@, i as int);
                }
                let part = string_of(&tv, 0, i);
                let ghost r0 = r@;
                r.append(&part);
                r.append(to);
                let next = start + i + f.len();
                assert(tv@.subrange(i + f@.len(), tv@.len() as int)
                    =~= v@.subrange(next as int, n as int));
                assert(r@ + replace_all(v@.subrange(next as int, n as int), f@, to@)
                    =~= r0 + replace_all(v@.subrange(start as int, n as int), f@, to@));
                start = next;
            },
            None => {
                proof {
                    lemma_replace_none(tv@, f@, to@);
                }
                r.append(&tail);
                return r;
            },
        }
    }
}

/// The library directories that a linker reports for `-print-search-dirs`: the
/// `:`-separated entries of each line that starts with `libraries: =`.
pub open spec fn library_dirs_spec(lines: Seq<Seq<char>>) -> Seq<Seq<char>>
    decreases lines.len(),
{
    if lines.len() == 0 {
        Seq::empty()
    } else {
        let l = lines.last();
        let key = "libraries: ="@;
        library_dirs_spec(lines.drop_last()) + if has_prefix(l, key) {
            split_spec(l.subrange(key.len() as int, l.len() as int), ':')
        } else {
            Seq::empty()
        }
    }
}

/// The library directories in what a linker printed for `-print-search-dirs`.
pub fn parse_library_dirs(output: &str) -> (r: Vec<String>)
    ensures
        views_of(r@) == library_dirs_spec(split_spec(output@, '\n')),
{
    let lines = split(output, '\n');
    let ghost lv = views_of(lines@);
    let mut r: Vec<String> = Vec::new();
    let mut i: usize = 0;
    proof {
        reveal_strlit("libraries: =");
    }
    while i < lines.len()
        invariant
            i <= lines@.len(),
            lv == views_of(lines@),
            "libraries: ="@.len() == 12,
            views_of(r@) == library_dirs_spec(lv.subrange(0, i as int)),
        decreases lines@.len() - i,
    {
        let line = &lines[i];
        assert(lv.subrange(0, i + 1).drop_last() =~= lv.subrange(0, i as int));
        assert(lv[i as int] == line@);
        if starts_with(line, "libraries: =") {
            let v = chars_of(line);
            let rest = string_of(&v, 12, v.len());
            let parts = split(&rest, ':');
            let ghost before = views_of(r@);
            let mut j: usize = 0;
            while j < parts.len()
                invariant
                    j <= parts@.len(),
                    views_of(r@) == before + views_of(parts@).subrange(0, j as int),
                decreases parts@.len() - j,
            {
                let ghost b2 = views_of(r@);
                r.push(parts[j].clone());
                assert(views_of(r@) =~= b2.push(parts@[j as int]@));
                assert(views_of(parts@).subrange(0, j + 1) =~= views_of(parts@).subrange(0, j as int).push(parts@[j as int]@));
                j = j + 1;
            }
            assert(views_of(parts@).subrange(0, parts@.len() as int) =~= views_of(parts@));
            assert(views_of(r@) =~= library_dirs_spec(lv.subrange(0, i + 1)));
        } else {
            assert(views_of(r@) =~= library_dirs_spec(lv.subrange(0, i + 1)));
        }
        i = i + 1;
    }
    assert(lv.subrange(0, lv.len() as int) =~= lv);
    r
}

/// The triple-agnostic half of a toolchain: enough to point the build tool at a
/// compiler, a linker and an archiver for `rustc_triple`.
#[derive(Clone, Debug)]
pub struct Toolchain {
    pub rustc_triple: String,
}

impl Toolchain {
    /// Points the build tool's archiver at `ar_command`.
    pub fn setup_ar(&self, env: &mut BuildEnv, ar_command: &str)
        ensures
            final(env).ops_view() == old(env).ops_view().push(
                EnvOpView::Assign("TARGET_AR"@, ar_command@),
            ),
            final(env).shims == old(env).shims,
            final(env).root == old(env).root,
            final(env).shell == old(env).shell,
    {
        env.set("TARGET_AR", ar_command);
    }

    /// Writes a `cc` shim running `compiler_command` and points `TARGET_CC` at it.
    pub fn setup_cc(&self, env: &mut BuildEnv, id: &str, compiler_command: &str)
        ensures
            ({
                let shim = join_path(
                    target_shim_path_spec(old(env).root@, self.rustc_triple@, id@),
                    shim_file_spec(old(env).shell, "cc"@),
                );
                &&& final(env).shims_view() == old(env).shims_view().push(
                    (shim, shim_script_spec(old(env).shell, compiler_command@)),
                )
                &&& final(env).ops_view() == old(env).ops_view().push(
                    EnvOpView::Assign("TARGET_CC"@, shim),
                )
            }),
            final(env).root == old(env).root,
            final(env).shell == old(env).shell,
    {
        let shim = env.add_shim(&self.rustc_triple, id, "cc", compiler_command);
        env.set("TARGET_CC", &shim);
    }

    /// Writes a `linker` shim running `linker_command` and points the build tool's
    /// linker for this triple at it.
    pub fn setup_linker(&self, env: &mut BuildEnv, id: &str, linker_command: &str)
        ensures
            ({
                let shim = join_path(
                    target_shim_path_spec(old(env).root@, self.rustc_triple@, id@),
                    shim_file_spec(old(env).shell, "linker"@),
                );
                &&& final(env).shims_view() == old(env).shims_view().push(
                    (shim, shim_script_spec(old(env).shell, linker_command@)),
                )
                &&& final(env).ops_view() == old(env).ops_view().push(
                    EnvOpView::Assign(linker_var_spec(self.rustc_triple@), shim),
                )
            }),
            final(env).root == old(env).root,
            final(env).shell == old(env).shell,
    {
        let shim = env.add_shim(&self.rustc_triple, id, "linker", linker_command);
        let var = linker_var(&self.rustc_triple);
        env.set(&var, &shim);
    }

    /// Lets pkg-config work for another target than the host's.
    pub fn setup_pkg_config(&self, env: &mut BuildEnv)
        ensures
            final(env).ops_view() == old(env).ops_view().push(
                EnvOpView::Assign("PKG_CONFIG_ALLOW_CROSS"@, "1"@),
            ),
            final(env).shims == old(env).shims,
            final(env).root == old(env).root,
            final(env).shell == old(env).shell,
    {
        env.set("PKG_CONFIG_ALLOW_CROSS", "1");
    }
}

/// `CARGO_TARGET_<TRIPLE>_LINKER`, the variable through which the build tool takes
/// the linker for a triple.
pub open spec fn linker_var_spec(triple: Seq<char>) -> Seq<char> {
    "CARGO_TARGET_"@ + envify_spec(triple) + "_LINKER"@
}

pub fn linker_var(triple: &str) -> (r: String)
    ensures
        r@ == linker_var_spec(triple@),
{
    let e = envify(triple);
    let mut r = concat("CARGO_TARGET_", &e);
    r.append("_LINKER");
    r
}

/// A cross toolchain installed in a directory: where its binaries are, how they are
/// prefixed, and the sysroot it builds against.
#[derive(Clone, Debug)]
pub struct ToolchainConfig {
    pub bin_dir: String,
    pub root: String,
    pub rustc_triple: String,
    pub sysroot: String,
    pub cc: String,
    pub binutils_prefix: String,
    pub cc_prefix: String,
}

/// `<bin_dir>/<prefix>-<name>`.
pub open spec fn prefixed_exe_spec(bin_dir: Seq<char>, prefix: Seq<char>, name: Seq<char>) -> Seq<char> {
    join_path(bin_dir, prefix + seq!['-'] + name)
}

fn prefixed_exe(bin_dir: &str, prefix: &str, name: &str) -> (r: String)
    ensures
        r@ == prefixed_exe_spec(bin_dir@, prefix@, name@),
{
    let mut file = to_owned_string(prefix);
    file.push('-');
    file.append(name);
    join(bin_dir, &file)
}

impl ToolchainConfig {
    /// The path of the binutils tool `name_without_triple` of this toolchain.
    pub fn executable(&self, name_without_triple: &str) -> (r: String)
        ensures
            r@ == prefixed_exe_spec(self.bin_dir@, self.binutils_prefix@, name_without_triple@),
    {
        prefixed_exe(&self.bin_dir, &self.binutils_prefix, name_without_triple)
    }

    /// The path of the compiler-driver tool `name_without_triple` of this toolchain.
    pub fn cc_executable(&self, name_without_triple: &str) -> (r: String)
        ensures
            r@ == prefixed_exe_spec(self.bin_dir@, self.cc_prefix@, name_without_triple@),
    {
        prefixed_exe(&self.bin_dir, &self.cc_prefix, name_without_triple)
    }

    /// Points pkg-config at the toolchain: cross use allowed, no default library
    /// path, the `pkgconfig` directories found under the toolchain root as its
    /// search path, and the sysroot.
    pub fn setup_pkg_config(&self, env: &mut BuildEnv, pkg_config_dirs: &Vec<String>)
        ensures
            final(env).ops_view() == old(env).ops_view()
                .push(EnvOpView::Assign("PKG_CONFIG_ALLOW_CROSS"@, "1"@))
                .push(EnvOpView::Assign(target_key_spec("PKG_CONFIG_LIBPATH"@, self.rustc_triple@), ""@))
                .push(EnvOpView::AppendPath(
                    target_key_spec("PKG_CONFIG_LIBDIR"@, self.rustc_triple@),
                    join_with(pkg_config_dirs@.map_values(|s: String| s@), ":"@),
                ))
                .push(EnvOpView::Assign(target_key_spec("PKG_CONFIG_SYSROOT_DIR"@, self.rustc_triple@), self.sysroot@)),
            final(env).shims == old(env).shims,
            final(env).root == old(env).root,
            final(env).shell == old(env).shell,
    {
        env.set("PKG_CONFIG_ALLOW_CROSS", "1");
        let k1 = target_key("PKG_CONFIG_LIBPATH", &self.rustc_triple);
        env.set(&k1, "");
        let k2 = target_key("PKG_CONFIG_LIBDIR", &self.rustc_triple);
        let dirs = join_all(pkg_config_dirs, ":");
        env.append_path(&k2, &dirs);
        let k3 = target_key("PKG_CONFIG_SYSROOT_DIR", &self.rustc_triple);
        env.set(&k3, &self.sysroot);
    }

    /// Publishes the sysroot as `TARGET_SYSROOT`.
    pub fn setup_sysroot(&self, env: &mut BuildEnv)
        ensures
            final(env).ops_view() == old(env).ops_view().push(
                EnvOpView::Assign("TARGET_SYSROOT"@, self.sysroot@),
            ),
            final(env).shims == old(env).shims,
            final(env).root == old(env).root,
            final(env).shell == old(env).shell,
    {
        env.set("TARGET_SYSROOT", &self.sysroot);
    }

    pub fn setup_ar(&self, env: &mut BuildEnv, ar_command: &str)
        ensures
            final(env).ops_view() == old(env).ops_view().push(
                EnvOpView::Assign("TARGET_AR"@, ar_command@),
            ),
            final(env).shims == old(env).shims,
            final(env).root == old(env).root,
            final(env).shell == old(env).shell,
    {
        self.as_toolchain().setup_ar(env, ar_command)
    }

    pub fn setup_cc(&self, env: &mut BuildEnv, id: &str, compiler_command: &str)
        ensures
            ({
                let shim = join_path(
                    target_shim_path_spec(old(env).root@, self.rustc_triple@, id@),
                    shim_file_spec(old(env).shell, "cc"@),
                );
                &&& final(env).shims_view() == old(env).shims_view().push(
                    (shim, shim_script_spec(old(env).shell, compiler_command@)),
                )
                &&& final(env).ops_view() == old(env).ops_view().push(
                    EnvOpView::Assign("TARGET_CC"@, shim),
                )
            }),
            final(env).root == old(env).root,
            final(env).shell == old(env).shell,
    {
        self.as_toolchain().setup_cc(env, id, compiler_command)
    }

    pub fn setup_linker(&self, env: &mut BuildEnv, id: &str, linker_command: &str)
        ensures
            ({
                let shim = join_path(
                    target_shim_path_spec(old(env).root@, self.rustc_triple@, id@),
                    shim_file_spec(old(env).shell, "linker"@),
                );
                &&& final(env).shims_view() == old(env).shims_view().push(
                    (shim, shim_script_spec(old(env).shell, linker_command@)),
                )
                &&& final(env).ops_view() == old(env).ops_view().push(
                    EnvOpView::Assign(linker_var_spec(self.rustc_triple@), shim),
                )
            }),
            final(env).root == old(env).root,
            final(env).shell == old(env).shell,
    {
        self.as_toolchain().setup_linker(env, id, linker_command)
    }

    /// The shim that stands for the toolchain binary `name`: named with the build
    /// tool's spelling of the triple, and running the binary itself.
    pub open spec fn exe_shim(&self, env: BuildEnv, id: Seq<char>, name: Seq<char>) -> (Seq<char>, Seq<char>) {
        (
            join_path(
                target_shim_path_spec(env.root@, self.rustc_triple@, id),
                shim_file_spec(env.shell, replace_all(name, self.binutils_prefix@, self.rustc_triple@)),
            ),
            shim_script_spec(env.shell, join_path(self.bin_dir@, name)),
        )
    }

    /// Shims every executable of the toolchain's `bin` directory (`exe_names`) under
    /// the build tool's spelling of the triple, then puts the shim directory in front of
    /// `PATH`, so that the shims are found before the host's own tools.
    pub fn shim_executables(&self, env: &mut BuildEnv, id: &str, exe_names: &Vec<String>)
        ensures
            final(env).shims_view() == old(env).shims_view() + exe_names@.map_values(
                |n: String| self.exe_shim(*old(env), id@, n@),
            ),
            final(env).ops_view() == old(env).ops_view().push(
                EnvOpView::PrependPath(
                    "PATH"@,
                    target_shim_path_spec(old(env).root@, self.rustc_triple@, id@),
                ),
            ),
            final(env).root == old(env).root,
            final(env).shell == old(env).shell,
    {
        let ghost start = *env;
        let ghost made = exe_names@.map_values(|n: String| self.exe_shim(start, id@, n@));
        let mut i: usize = 0;
        while i < exe_names.len()
            invariant
                i <= exe_names@.len(),
                start == *old(env),
                made == exe_names@.map_values(|n: String| self.exe_shim(start, id@, n@)),
                env.root == start.root,
                env.shell == start.shell,
                env.ops == start.ops,
                env.shims_view() == start.shims_view() + made.subrange(0, i as int),
            decreases exe_names@.len() - i,
        {
            let name = &exe_names[i];
            let exe_path = join(&self.bin_dir, name);
            let renamed = replace(name, &self.binutils_prefix, &self.rustc_triple);
            env.add_shim(&self.rustc_triple, id, &renamed, &exe_path);
            assert(made.subrange(0, i + 1) =~= made.subrange(0, i as int).push(made[i as int]));
            i = i + 1;
        }
        assert(made.subrange(0, i as int) =~= made);
        let dir = target_shim_path(&env.root, &self.rustc_triple, id);
        env.prepend_path("PATH", &dir);
    }

    fn as_toolchain(&self) -> (r: Toolchain)
        ensures
            r.rustc_triple@ == self.rustc_triple@,
    {
        Toolchain { rustc_triple: self.rustc_triple.clone() }
    }
}

} // verus!
