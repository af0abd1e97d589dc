//! Platforms (what a build targets), devices (what runs it), which of them go
//! together, and the orchestrator that holds what was discovered.
use vstd::prelude::*;
use vstd::string::*;
use crate::android::AndroidDevice;
use crate::command::CommandLine;
use crate::errors::DinghyError;
use crate::ssh::SshDevice;
use crate::text::{
    chars_of, concat, ends_with, find_first, find_in, has_suffix, join, join_path, join_with,
    same_text, to_owned_string, views_of,
};
use crate::toolchain::{
    linker_var_spec, replace, replace_all, shim_file_spec, shim_script_spec, target_key_spec,
    target_shim_path_spec, BuildEnv, EnvOpView, Toolchain, ToolchainConfig,
    prefixed_exe_spec,
};

verus! {

/// How one platform is configured.
#[derive(Clone, Debug)]
pub struct PlatformConfiguration {
    pub rustc_triple: Option<String>,
    pub toolchain: Option<String>,
    /// A Debian multiarch prefix: the toolchain is the system's, under `/usr/bin`.
    pub deb_multiarch: Option<String>,
    /// Overlays declared explicitly, as `(id, path)`.
    pub overlays: Vec<(String, String)>,
    /// Variables set for every build of the platform.
    pub env: Vec<(String, String)>,
}

/// A cross-compilation platform over a toolchain directory or a multiarch prefix.
#[derive(Clone, Debug)]
pub struct RegularPlatform {
    pub configuration: PlatformConfiguration,
    pub id: String,
    pub toolchain: ToolchainConfig,
}

/// Whether a file of a toolchain's `bin` directory is its C compiler driver.
pub open spec fn is_gcc_name(n: Seq<char>) -> bool {
    has_suffix(n, "-gcc"@) || has_suffix(n, "-gcc.exe"@)
}

/// The binary prefix of a toolchain: the name of the first compiler driver of its
/// `bin` directory without `.exe` and `-gcc`.
pub open spec fn gcc_prefix_spec(names: Seq<Seq<char>>) -> Option<Seq<char>>
    decreases names.len(),
{
    if names.len() == 0 {
        None
    } else if is_gcc_name(names[0]) {
        Some(replace_all(replace_all(names[0], ".exe"@, Seq::empty()), "-gcc"@, Seq::empty()))
    } else {
        gcc_prefix_spec(names.drop_first())
    }
}

/// The binary prefix of a toolchain from the file names of its `bin` directory.
pub fn gcc_prefix(names: &Vec<String>) -> (r: Option<String>)
    ensures
        r matches Some(p) ==> gcc_prefix_spec(views_of(names@)) == Some(p@),
        r is None ==> gcc_prefix_spec(views_of(names@)) is None,
{
    let ghost nv = views_of(names@);
    let mut i: usize = 0;
    proof {
        reveal_strlit("");
    }
    assert(nv.subrange(0, nv.len() as int) =~= nv);
    while i < names.len()
        invariant
            i <= names@.len(),
            nv == views_of(names@),
            gcc_prefix_spec(nv) == gcc_prefix_spec(nv.subrange(i as int, nv.len() as int)),
        decreases names@.len() - i,
    {
        let ghost rest = nv.subrange(i as int, nv.len() as int);
        assert(rest[0] == names@[i as int]@);
        assert(rest.drop_first() =~= nv.subrange(i + 1, nv.len() as int));
        let n = &names[i];
        if ends_with(n, "-gcc") || ends_with(n, "-gcc.exe") {
            proof {
                reveal_strlit("");
                assert(""@ =~= Seq::<char>::empty());
            }
            let a = replace(n, ".exe", "");
            return Some(replace(&a, "-gcc", ""));
        }
        i = i + 1;
    }
    None
}

/// The directories that may hold a toolchain's sysroot, in the order they are tried:
/// `<toolchain>/sysroot`, then `<toolchain>/<entry>/sysroot` for each entry.
pub fn sysroot_candidates(toolchain_path: &str, entries: &Vec<String>) -> (r: Vec<String>)
    ensures
        r@.len() == entries@.len() + 1,
        r@[0]@ == join_path(toolchain_path@, "sysroot"@),
        forall|i: int| 0 <= i < entries@.len() ==>
            (#[trigger] r@[i + 1])@ == join_path(join_path(toolchain_path@, entries@[i]@), "sysroot"@),
{
    let mut r: Vec<String> = Vec::new();
    r.push(join(toolchain_path, "sysroot"));
    let mut i: usize = 0;
    while i < entries.len()
        invariant
            i <= entries@.len(),
            r@.len() == i + 1,
            r@[0]@ == join_path(toolchain_path@, "sysroot"@),
            forall|j: int| 0 <= j < i ==>
                (#[trigger] r@[j + 1])@ == join_path(join_path(toolchain_path@, entries@[j]@), "sysroot"@),
        decreases entries@.len() - i,
    {
        let d = join(toolchain_path, &entries[i]);
        r.push(join(&d, "sysroot"));
        i = i + 1;
    }
    r
}

/// The toolchain of a Debian multiarch prefix.
pub open spec fn multiarch_toolchain(tc: ToolchainConfig, triple: Seq<char>, prefix: Seq<char>) -> bool {
    &&& tc.bin_dir@ == "/usr/bin"@
    &&& tc.rustc_triple@ == triple
    &&& tc.root@ == "/"@
    &&& tc.sysroot@ == "/"@
    &&& tc.cc@ == "gcc"@
    &&& tc.binutils_prefix@ == prefix
    &&& tc.cc_prefix@ == prefix
}

/// The toolchain installed at `path`, whose binaries carry `prefix`.
pub open spec fn directory_toolchain(tc: ToolchainConfig, triple: Seq<char>, path: Seq<char>, prefix: Seq<char>, sysroot: Seq<char>) -> bool {
    &&& tc.bin_dir@ == join_path(path, "bin"@)
    &&& tc.rustc_triple@ == triple
    &&& tc.root@ == path
    &&& tc.sysroot@ == sysroot
    &&& tc.cc@ == "gcc"@
    &&& tc.binutils_prefix@ == prefix
    &&& tc.cc_prefix@ == prefix
}

/// What a regular build needs to know of the toolchain's optional binaries: which of
/// archiver, assembler, C++ compiler, preprocessor and Fortran compiler exist.
#[derive(Clone, Copy, Debug)]
pub struct ToolsPresent {
    pub ar: bool,
    pub assembler: bool,
    pub cxx: bool,
    pub cpp: bool,
    pub fortran: bool,
}

/// ` -l<name>` for each forced overlay.
pub open spec fn forced_flags(forced: Seq<Seq<char>>) -> Seq<char>
    decreases forced.len(),
{
    if forced.len() == 0 {
        Seq::empty()
    } else {
        forced_flags(forced.drop_last()) + " -l"@ + forced.last()
    }
}

/// The linker command of a regular build: the compiler driver, verbose when asked,
/// against the sysroot, with the forced overlays linked.
pub open spec fn linker_command_spec(cc: Seq<char>, verbose: bool, sysroot: Seq<char>, forced: Seq<Seq<char>>) -> Seq<char> {
    cc + " "@ + (if verbose { "-Wl,--verbose -v"@ } else { Seq::empty() }) + " --sysroot "@ + sysroot
        + forced_flags(forced)
}

pub open spec fn env_pairs_ops(pairs: Seq<(String, String)>) -> Seq<EnvOpView> {
    pairs.map_values(|p: (String, String)| EnvOpView::Assign(p.0@, p.1@))
}

impl RegularPlatform {
    /// The platform `id` for `rustc_triple`: over the system toolchain where the
    /// configuration names a multiarch prefix, else over the toolchain at
    /// `toolchain_path`, whose `bin` directory holds `bin_names` and whose sysroot is
    /// `sysroot` if one was found. Fails where no compiler driver or no sysroot is
    /// there.
    pub fn new(configuration: PlatformConfiguration, id: &str, rustc_triple: &str, toolchain_path: &str, bin_names: &Vec<String>, sysroot: Option<String>) -> (r: Result<RegularPlatform, DinghyError>)
        ensures
            configuration.deb_multiarch matches Some(p) ==> r matches Ok(rp)
                && multiarch_toolchain(rp.toolchain, rustc_triple@, p@) && rp.id@ == id@,
            configuration.deb_multiarch is None ==> (r is Ok <==> (gcc_prefix_spec(views_of(bin_names@)) is Some && sysroot is Some)),
            configuration.deb_multiarch is None ==> (r matches Err(e) ==> e is ToolchainMalformed),
            configuration.deb_multiarch is None ==> (r matches Ok(rp) ==> rp.id@ == id@ && directory_toolchain(
                rp.toolchain, rustc_triple@, toolchain_path@, gcc_prefix_spec(views_of(bin_names@)).unwrap(), sysroot.unwrap()@,
            )),
    {
        match &configuration.deb_multiarch {
            Some(prefix) => {
                let tc = ToolchainConfig {
                    bin_dir: to_owned_string("/usr/bin"),
                    rustc_triple: to_owned_string(rustc_triple),
                    root: to_owned_string("/"),
                    sysroot: to_owned_string("/"),
                    cc: to_owned_string("gcc"),
                    binutils_prefix: prefix.clone(),
                    cc_prefix: prefix.clone(),
                };
                return Ok(RegularPlatform { configuration: clone_configuration(&configuration), id: to_owned_string(id), toolchain: tc });
            },
            None => {},
        }
        let prefix = match gcc_prefix(bin_names) {
            Some(p) => p,
            None => {
                return Err(DinghyError::ToolchainMalformed(concat("no bin/*-gcc found in toolchain ", toolchain_path)));
            },
        };
        let sysroot = match sysroot {
            Some(s) => s,
            None => {
                return Err(DinghyError::ToolchainMalformed(concat("no sysroot found in toolchain ", toolchain_path)));
            },
        };
        let tc = ToolchainConfig {
            bin_dir: join(toolchain_path, "bin"),
            rustc_triple: to_owned_string(rustc_triple),
            root: to_owned_string(toolchain_path),
            sysroot,
            cc: to_owned_string("gcc"),
            binutils_prefix: prefix.clone(),
            cc_prefix: prefix,
        };
        Ok(RegularPlatform { configuration, id: to_owned_string(id), toolchain: tc })
    }

    pub fn id(&self) -> (r: String)
        ensures
            r@ == self.id@,
    {
        self.id.clone()
    }

    pub fn rustc_triple(&self) -> (r: &str)
        ensures
            r@ == self.toolchain.rustc_triple@,
    {
        self.toolchain.rustc_triple.as_str()
    }

    /// The path of the binutils tool `name` of the platform's toolchain.
    pub fn binary(&self, name: &str) -> (r: String)
        ensures
            r@ == prefixed_exe_spec(self.toolchain.bin_dir@, self.toolchain.binutils_prefix@, name@),
    {
        self.toolchain.executable(name)
    }

    /// The linker command of a build.
    pub fn linker_command(&self, verbose: bool, forced_overlays: &Vec<String>) -> (r: String)
        ensures
            r@ == linker_command_spec(
                prefixed_exe_spec(self.toolchain.bin_dir@, self.toolchain.cc_prefix@, self.toolchain.cc@),
                verbose,
                self.toolchain.sysroot@,
                views_of(forced_overlays@),
            ),
    {
        let mut r = self.toolchain.cc_executable(&self.toolchain.cc);
        r.append(" ");
        if verbose {
            r.append("-Wl,--verbose -v");
        }
        r.append(" --sysroot ");
        r.append(&self.toolchain.sysroot);
        let ghost head = r@;
        let ghost fv = views_of(forced_overlays@);
        let mut i: usize = 0;
        while i < forced_overlays.len()
            invariant
                i <= forced_overlays@.len(),
                fv == views_of(forced_overlays@),
                r@ == head + forced_flags(fv.subrange(0, i as int)),
            decreases forced_overlays@.len() - i,
        {
            r.append(" -l");
            r.append(&forced_overlays[i]);
            assert(fv.subrange(0, i + 1).drop_last() =~= fv.subrange(0, i as int));
            i = i + 1;
        }
        assert(fv.subrange(0, fv.len() as int) =~= fv);
        proof {
            reveal_strlit("");
        }
        r
    }

    /// The command that strips a binary with the toolchain's `strip`. A failure to strip
    /// is reported, and stops nothing: the other binaries are still stripped.
    pub fn strip_command(&self, exe: &str) -> (r: CommandLine)
        ensures
            r.program@ == prefixed_exe_spec(self.toolchain.bin_dir@, self.toolchain.binutils_prefix@, "strip"@),
            r.args_view() == seq![exe@],
            !r.must_succeed,
    {
        let mut args: Vec<String> = Vec::new();
        args.push(to_owned_string(exe));
        let r = CommandLine { program: self.binary("strip"), args, must_succeed: false, quiet: false };
        assert(r.args_view() =~= seq![exe@]);
        r
    }

    /// Prepares the environment of a build: library paths cleared, the platform's own
    /// variables, the compiler shim, the optional tools that exist, the linker shim,
    /// pkg-config, the sysroot, and a shim for every toolchain binary.
    pub fn prepare_build(&self, env: &mut BuildEnv, verbose: bool, forced_overlays: &Vec<String>, tools: ToolsPresent, pkg_config_dirs: &Vec<String>, bin_names: &Vec<String>)
        ensures
            final(env).root == old(env).root,
            final(env).shell == old(env).shell,
            final(env).shims_view() == old(env).shims_view()
                .push((self.shim_path(*old(env), "cc"@), shim_script_spec(old(env).shell, self.cc_path("gcc"@))))
                .push((self.shim_path(*old(env), "linker"@), shim_script_spec(old(env).shell, linker_command_spec(
                    self.cc_path(self.toolchain.cc@), verbose, self.toolchain.sysroot@, views_of(forced_overlays@)))))
                + bin_names@.map_values(|n: String| self.toolchain.exe_shim(*old(env), self.id@, n@)),
            final(env).ops_view() == self.with_tool_ops(
                (old(env).ops_view()
                    .push(EnvOpView::Assign("LIBRARY_PATH"@, ""@))
                    .push(EnvOpView::Assign("LD_LIBRARY_PATH"@, ""@))
                    + env_pairs_ops(self.configuration.env@))
                    .push(EnvOpView::Assign("TARGET_CC"@, self.shim_path(*old(env), "cc"@))),
                tools,
            )
                .push(EnvOpView::Assign(linker_var_spec(self.toolchain.rustc_triple@), self.shim_path(*old(env), "linker"@)))
                .push(EnvOpView::Assign("PKG_CONFIG_ALLOW_CROSS"@, "1"@))
                .push(EnvOpView::Assign(target_key_spec("PKG_CONFIG_LIBPATH"@, self.toolchain.rustc_triple@), ""@))
                .push(EnvOpView::AppendPath(
                    target_key_spec("PKG_CONFIG_LIBDIR"@, self.toolchain.rustc_triple@),
                    join_with(views_of(pkg_config_dirs@), ":"@),
                ))
                .push(EnvOpView::Assign(target_key_spec("PKG_CONFIG_SYSROOT_DIR"@, self.toolchain.rustc_triple@), self.toolchain.sysroot@))
                .push(EnvOpView::Assign("TARGET_SYSROOT"@, self.toolchain.sysroot@))
                .push(EnvOpView::PrependPath("PATH"@, target_shim_path_spec(old(env).root@, self.toolchain.rustc_triple@, self.id@))),
    {
        let ghost e0 = *env;
        self.prepare_head(env, tools);
        self.prepare_tail(env, verbose, forced_overlays, pkg_config_dirs, bin_names);
    }

    fn prepare_head(&self, env: &mut BuildEnv, tools: ToolsPresent)
        ensures
            final(env).root == old(env).root,
            final(env).shell == old(env).shell,
            final(env).shims_view() == old(env).shims_view()
                .push((self.shim_path(*old(env), "cc"@), shim_script_spec(old(env).shell, self.cc_path("gcc"@)))),
            final(env).ops_view() == self.with_tool_ops(
                (old(env).ops_view()
                    .push(EnvOpView::Assign("LIBRARY_PATH"@, ""@))
                    .push(EnvOpView::Assign("LD_LIBRARY_PATH"@, ""@))
                    + env_pairs_ops(self.configuration.env@))
                    .push(EnvOpView::Assign("TARGET_CC"@, self.shim_path(*old(env), "cc"@))),
                tools,
            ),
    {
        env.set("LIBRARY_PATH", "");
        env.set("LD_LIBRARY_PATH", "");
        let ghost e0 = *env;
        let mut i: usize = 0;
        let ghost o1 = env.ops_view();
        let pairs = &self.configuration.env;
        while i < pairs.len()
            invariant
                i <= pairs@.len(),
                pairs == &self.configuration.env,
                env.root == e0.root,
                env.shell == e0.shell,
                env.shims == e0.shims,
                env.ops_view() == o1 + env_pairs_ops(pairs@.subrange(0, i as int)),
            decreases pairs@.len() - i,
        {
            let (k, v) = &pairs[i];
            env.set(k, v);
            assert(env_pairs_ops(pairs@.subrange(0, i + 1)) =~= env_pairs_ops(pairs@.subrange(0, i as int)).push(
                EnvOpView::Assign(pairs@[i as int].0@, pairs@[i as int].1@)));
            i = i + 1;
        }
        assert(pairs@.subrange(0, pairs@.len() as int) =~= pairs@);
        let cc = self.toolchain.cc_executable("gcc");
        self.toolchain.setup_cc(env, &self.id, &cc);
        self.setup_tools(env, tools);
    }

    fn set_if(&self, env: &mut BuildEnv, present: bool, key: &str, value: &str)
        ensures
            final(env).root == old(env).root,
            final(env).shell == old(env).shell,
            final(env).shims == old(env).shims,
            final(env).ops_view() == old(env).ops_view() + self.opt_op(present, key@, value@),
    {
        let ghost o = env.ops_view();
        if present {
            env.set(key, value);
            assert(env.ops_view() =~= o + self.opt_op(present, key@, value@));
        } else {
            assert(env.ops_view() =~= o + self.opt_op(present, key@, value@));
        }
    }

    fn setup_tools(&self, env: &mut BuildEnv, tools: ToolsPresent)
        ensures
            final(env).root == old(env).root,
            final(env).shell == old(env).shell,
            final(env).shims == old(env).shims,
            final(env).ops_view() == self.with_tool_ops(old(env).ops_view(), tools),
    {
        self.set_if(env, tools.ar, "TARGET_AR", &self.toolchain.executable("ar"));
        self.set_if(env, tools.assembler, "TARGET_AS", &self.toolchain.executable("as"));
        self.set_if(env, tools.cxx, "TARGET_CXX", &self.toolchain.cc_executable("c++"));
        self.set_if(env, tools.cpp, "TARGET_CPP", &self.toolchain.cc_executable("cpp"));
        self.set_if(env, tools.fortran, "TARGET_FC", &self.toolchain.executable("gfortran"));
    }

    fn prepare_tail(&self, env: &mut BuildEnv, verbose: bool, forced_overlays: &Vec<String>, pkg_config_dirs: &Vec<String>, bin_names: &Vec<String>)
        ensures
            final(env).root == old(env).root,
            final(env).shell == old(env).shell,
            final(env).shims_view() == old(env).shims_view()
                .push((self.shim_path(*old(env), "linker"@), shim_script_spec(old(env).shell, linker_command_spec(
                    self.cc_path(self.toolchain.cc@), verbose, self.toolchain.sysroot@, views_of(forced_overlays@)))))
                + bin_names@.map_values(|n: String| self.toolchain.exe_shim(*old(env), self.id@, n@)),
            final(env).ops_view() == old(env).ops_view()
                .push(EnvOpView::Assign(linker_var_spec(self.toolchain.rustc_triple@), self.shim_path(*old(env), "linker"@)))
                .push(EnvOpView::Assign("PKG_CONFIG_ALLOW_CROSS"@, "1"@))
                .push(EnvOpView::Assign(target_key_spec("PKG_CONFIG_LIBPATH"@, self.toolchain.rustc_triple@), ""@))
                .push(EnvOpView::AppendPath(
                    target_key_spec("PKG_CONFIG_LIBDIR"@, self.toolchain.rustc_triple@),
                    join_with(views_of(pkg_config_dirs@), ":"@),
                ))
                .push(EnvOpView::Assign(target_key_spec("PKG_CONFIG_SYSROOT_DIR"@, self.toolchain.rustc_triple@), self.toolchain.sysroot@))
                .push(EnvOpView::Assign("TARGET_SYSROOT"@, self.toolchain.sysroot@))
                .push(EnvOpView::PrependPath("PATH"@, target_shim_path_spec(old(env).root@, self.toolchain.rustc_triple@, self.id@))),
    {
        let ghost e0 = *env;
        let linker = self.linker_command(verbose, forced_overlays);
        self.toolchain.setup_linker(env, &self.id, &linker);
        self.toolchain.setup_pkg_config(env, pkg_config_dirs);
        self.toolchain.setup_sysroot(env);
        let ghost e4 = *env;
        self.toolchain.shim_executables(env, &self.id, bin_names);
        assert(bin_names@.map_values(|n: String| self.toolchain.exe_shim(e4, self.id@, n@))
            =~= bin_names@.map_values(|n: String| self.toolchain.exe_shim(e0, self.id@, n@)));
    }

    /// Where the shim `name` of this platform goes.
    pub open spec fn shim_path(&self, env: BuildEnv, name: Seq<char>) -> Seq<char> {
        join_path(target_shim_path_spec(env.root@, self.toolchain.rustc_triple@, self.id@), shim_file_spec(env.shell, name))
    }

    /// The compiler-driver tool `name` of this platform's toolchain.
    pub open spec fn cc_path(&self, name: Seq<char>) -> Seq<char> {
        prefixed_exe_spec(self.toolchain.bin_dir@, self.toolchain.cc_prefix@, name)
    }

    /// `ops` followed by the variables set for the optional tools that exist.
    pub open spec fn with_tool_ops(&self, ops: Seq<EnvOpView>, tools: ToolsPresent) -> Seq<EnvOpView> {
        ops + self.opt_op(tools.ar, "TARGET_AR"@, self.bu_path("ar"@))
            + self.opt_op(tools.assembler, "TARGET_AS"@, self.bu_path("as"@))
            + self.opt_op(tools.cxx, "TARGET_CXX"@, self.cc_path("c++"@))
            + self.opt_op(tools.cpp, "TARGET_CPP"@, self.cc_path("cpp"@))
            + self.opt_op(tools.fortran, "TARGET_FC"@, self.bu_path("gfortran"@))
    }

    pub open spec fn bu_path(&self, name: Seq<char>) -> Seq<char> {
        prefixed_exe_spec(self.toolchain.bin_dir@, self.toolchain.binutils_prefix@, name)
    }

    pub open spec fn opt_op(&self, present: bool, key: Seq<char>, value: Seq<char>) -> Seq<EnvOpView> {
        if present { seq![EnvOpView::Assign(key, value)] } else { Seq::empty() }
    }
}

fn clone_pairs(v: &Vec<(String, String)>) -> (r: Vec<(String, String)>)
    ensures
        r@ == v@,
{
    let mut r: Vec<(String, String)> = Vec::new();
    let mut i: usize = 0;
    while i < v.len()
        invariant
            i <= v@.len(),
            r@ == v@.subrange(0, i as int),
        decreases v@.len() - i,
    {
        let (a, b) = &v[i];
        r.push((a.clone(), b.clone()));
        assert(r@ =~= v@.subrange(0, i + 1));
        i = i + 1;
    }
    assert(r@ =~= v@);
    r
}

fn clone_opt(o: &Option<String>) -> (r: Option<String>)
    ensures
        r == *o,
{
    match o {
        Some(s) => Some(s.clone()),
        None => None,
    }
}

fn clone_configuration(c: &PlatformConfiguration) -> (r: PlatformConfiguration)
    ensures
        r.rustc_triple == c.rustc_triple,
        r.toolchain == c.toolchain,
        r.deb_multiarch == c.deb_multiarch,
        r.overlays@ == c.overlays@,
        r.env@ == c.env@,
{
    PlatformConfiguration {
        rustc_triple: clone_opt(&c.rustc_triple),
        toolchain: clone_opt(&c.toolchain),
        deb_multiarch: clone_opt(&c.deb_multiarch),
        overlays: clone_pairs(&c.overlays),
        env: clone_pairs(&c.env),
    }
}

/// A platform that builds with the host's SDK for iOS devices or the simulator.
#[derive(Clone, Debug)]
pub struct IosPlatform {
    pub id: String,
    pub sim: bool,
    pub toolchain: Toolchain,
    pub configuration: PlatformConfiguration,
}

impl IosPlatform {
    /// The platform `id` for `rustc_triple`; an x86 triple targets the simulator.
    pub fn new(id: &str, rustc_triple: &str, configuration: PlatformConfiguration) -> (r: IosPlatform)
        ensures
            r.id@ == id@,
            r.toolchain.rustc_triple@ == rustc_triple@,
            r.sim == find_first(rustc_triple@, "86"@) is Some,
    {
        let v = chars_of(rustc_triple);
        let pat = chars_of("86");
        let sim = find_in(&v, &pat).is_some();
        IosPlatform {
            id: to_owned_string(id),
            sim,
            toolchain: Toolchain { rustc_triple: to_owned_string(rustc_triple) },
            configuration,
        }
    }

    /// The SDK the platform builds against.
    pub fn sdk_name(&self) -> (r: &'static str)
        ensures
            self.sim ==> r@ == "iphonesimulator"@,
            !self.sim ==> r@ == "iphoneos"@,
    {
        if self.sim { "iphonesimulator" } else { "iphoneos" }
    }

    /// A one-line description of what the platform targets.
    pub fn description(&self) -> (r: &'static str)
        ensures
            self.sim ==> r@ == "XCode targetting Ios Simulator"@,
            !self.sim ==> r@ == "XCode targetting Ios Device"@,
    {
        if self.sim { "XCode targetting Ios Simulator" } else { "XCode targetting Ios Device" }
    }

    /// The command that strips a binary with the SDK's `strip`. A failure to strip is
    /// reported, and stops nothing: the other binaries are still stripped.
    pub fn strip_command(&self, exe: &str) -> (r: CommandLine)
        ensures
            r.program@ == "xcrun"@,
            r.args_view() == seq!["strip"@, exe@],
            !r.must_succeed,
    {
        let mut args: Vec<String> = Vec::new();
        args.push(to_owned_string("strip"));
        args.push(to_owned_string(exe));
        let r = CommandLine { program: to_owned_string("xcrun"), args, must_succeed: false, quiet: false };
        assert(r.args_view() =~= seq!["strip"@, exe@]);
        r
    }

    /// The command whose output is the SDK's path.
    pub fn sysroot_command(&self) -> (r: CommandLine)
        ensures
            r.program@ == "xcrun"@,
            r.args_view() == seq!["--sdk"@, if self.sim { "iphonesimulator"@ } else { "iphoneos"@ }, "--show-sdk-path"@],
            r.must_succeed,
    {
        let mut args: Vec<String> = Vec::new();
        args.push(to_owned_string("--sdk"));
        let sdk = self.sdk_name();
        args.push(to_owned_string(sdk));
        args.push(to_owned_string("--show-sdk-path"));
        let r = CommandLine { program: to_owned_string("xcrun"), args, must_succeed: true, quiet: false };
        assert(r.args_view() =~= seq!["--sdk"@, if self.sim { "iphonesimulator"@ } else { "iphoneos"@ }, "--show-sdk-path"@]);
        r
    }

    /// Prepares the environment of a build against the SDK at `sysroot`.
    pub fn prepare_build(&self, env: &mut BuildEnv, sysroot: &str)
        ensures
            final(env).root == old(env).root,
            final(env).shell == old(env).shell,
            final(env).shims_view() == old(env).shims_view() + seq![
                (join_path(target_shim_path_spec(old(env).root@, self.toolchain.rustc_triple@, self.id@), shim_file_spec(old(env).shell, "cc"@)),
                    shim_script_spec(old(env).shell, "gcc"@)),
                (join_path(target_shim_path_spec(old(env).root@, self.toolchain.rustc_triple@, self.id@), shim_file_spec(old(env).shell, "linker"@)),
                    shim_script_spec(old(env).shell, "cc -isysroot "@ + sysroot@)),
            ],
            final(env).ops_view() == old(env).ops_view() + seq![
                EnvOpView::Assign("TARGET_CC"@, join_path(target_shim_path_spec(old(env).root@, self.toolchain.rustc_triple@, self.id@), shim_file_spec(old(env).shell, "cc"@))),
                EnvOpView::Assign("TARGET_SYSROOT"@, sysroot@),
                EnvOpView::Assign(linker_var_spec(self.toolchain.rustc_triple@), join_path(target_shim_path_spec(old(env).root@, self.toolchain.rustc_triple@, self.id@), shim_file_spec(old(env).shell, "linker"@))),
                EnvOpView::Assign("PKG_CONFIG_ALLOW_CROSS"@, "1"@),
            ],
    {
        let ghost e0 = *env;
        self.toolchain.setup_cc(env, &self.id, "gcc");
        env.set("TARGET_SYSROOT", sysroot);
        let linker = concat("cc -isysroot ", sysroot);
        self.toolchain.setup_linker(env, &self.id, &linker);
        self.toolchain.setup_pkg_config(env);
        assert(env.shims_view() =~= e0.shims_view() + seq![
            (join_path(target_shim_path_spec(e0.root@, self.toolchain.rustc_triple@, self.id@), shim_file_spec(e0.shell, "cc"@)),
                shim_script_spec(e0.shell, "gcc"@)),
            (join_path(target_shim_path_spec(e0.root@, self.toolchain.rustc_triple@, self.id@), shim_file_spec(e0.shell, "linker"@)),
                shim_script_spec(e0.shell, "cc -isysroot "@ + sysroot@)),
        ]);
        assert(env.ops_view() =~= e0.ops_view() + seq![
            EnvOpView::Assign("TARGET_CC"@, join_path(target_shim_path_spec(e0.root@, self.toolchain.rustc_triple@, self.id@), shim_file_spec(e0.shell, "cc"@))),
            EnvOpView::Assign("TARGET_SYSROOT"@, sysroot@),
            EnvOpView::Assign(linker_var_spec(self.toolchain.rustc_triple@), join_path(target_shim_path_spec(e0.root@, self.toolchain.rustc_triple@, self.id@), shim_file_spec(e0.shell, "linker"@))),
            EnvOpView::Assign("PKG_CONFIG_ALLOW_CROSS"@, "1"@),
        ]);
    }
}

/// A toolchain directory on its own: where its binaries are, their prefix, and its
/// sysroot.
#[derive(Clone, Debug)]
pub struct RegularToolchain {
    pub root: String,
    pub bin: String,
    pub bin_prefix: String,
    pub sysroot: String,
}

impl RegularToolchain {
    /// The toolchain at `toolchain`, whose `bin` directory holds `bin_names` and whose
    /// sysroot is `sysroot` if one was found. Fails where no compiler driver or no
    /// sysroot is there.
    pub fn new(toolchain: &str, bin_names: &Vec<String>, sysroot: Option<String>) -> (r: Result<RegularToolchain, DinghyError>)
        ensures
            r is Ok <==> (gcc_prefix_spec(views_of(bin_names@)) is Some && sysroot is Some),
            r matches Err(e) ==> e is ToolchainMalformed,
            r matches Ok(t) ==> {
                &&& t.root@ == toolchain@
                &&& t.bin@ == join_path(toolchain@, "bin"@)
                &&& t.bin_prefix@ == gcc_prefix_spec(views_of(bin_names@)).unwrap()
                &&& t.sysroot@ == sysroot.unwrap()@
            },
    {
        let prefix = match gcc_prefix(bin_names) {
            Some(p) => p,
            None => {
                return Err(DinghyError::ToolchainMalformed(concat("no bin/*-gcc found in toolchain ", toolchain)));
            },
        };
        match sysroot {
            Some(sysroot) => Ok(RegularToolchain {
                root: to_owned_string(toolchain),
                bin: join(toolchain, "bin"),
                bin_prefix: prefix,
                sysroot,
            }),
            None => Err(DinghyError::ToolchainMalformed(concat("no sysroot found in toolchain ", toolchain))),
        }
    }

    /// The path of the tool `name` of this toolchain.
    pub fn binary(&self, name: &str) -> (r: String)
        ensures
            r@ == prefixed_exe_spec(self.bin@, self.bin_prefix@, name@),
    {
        let mut file = self.bin_prefix.clone();
        file.push('-');
        file.append(name);
        join(&self.bin, &file)
    }

    /// The compiler command.
    pub fn cc_command(&self) -> (r: String)
        ensures
            r@ == prefixed_exe_spec(self.bin@, self.bin_prefix@, "gcc"@),
    {
        self.binary("gcc")
    }

    /// The linker command: the compiler driver against the sysroot.
    pub fn linker_command(&self) -> (r: String)
        ensures
            r@ == prefixed_exe_spec(self.bin@, self.bin_prefix@, "gcc"@) + " --sysroot "@ + self.sysroot@,
    {
        let mut r = self.binary("gcc");
        r.append(" --sysroot ");
        r.append(&self.sysroot);
        r
    }

    /// Publishes the sysroot and the archiver.
    pub fn setup_more_env(&self, env: &mut BuildEnv)
        ensures
            final(env).ops_view() == old(env).ops_view()
                .push(EnvOpView::Assign("TARGET_SYSROOT"@, self.sysroot@))
                .push(EnvOpView::Assign("TARGET_AR"@, prefixed_exe_spec(self.bin@, self.bin_prefix@, "ar"@))),
            final(env).shims == old(env).shims,
            final(env).root == old(env).root,
            final(env).shell == old(env).shell,
    {
        env.set("TARGET_SYSROOT", &self.sysroot);
        env.set("TARGET_AR", &self.binary("ar"));
    }
}

/// The host itself, as a platform.
#[derive(Clone, Debug)]
pub struct HostPlatform {
    pub id: String,
}

/// The host itself, as a device.
#[derive(Clone, Copy, Debug)]
pub struct HostDevice {}

/// Finds iOS devices; none are found on this host.
#[derive(Clone, Copy, Debug)]
pub struct IosManager {}

/// An iOS device.
#[derive(Clone, Copy, Debug)]
pub struct IosDevice {}

impl IosManager {
    /// No iOS manager is available here: its discovery needs the host's own
    /// frameworks.
    pub fn new() -> (r: Result<Option<IosManager>, DinghyError>)
        ensures
            r matches Ok(None),
    {
        Ok(None)
    }
}

/// A platform of any kind.
#[derive(Clone, Debug)]
pub enum Platform {
    Regular(RegularPlatform),
    Host(HostPlatform),
    Ios(IosPlatform),
}

/// A device of any kind.
#[derive(Clone, Debug)]
pub enum Device {
    Host(HostDevice),
    Android(AndroidDevice),
    Ssh(SshDevice),
}

/// Which devices run which platforms' builds: an Android device those of the triples
/// it declares, an SSH device those of the platform it is configured for, the host
/// those of the host platform; any other pair does not go together.
pub open spec fn compatible_spec(d: Device, p: Platform) -> bool {
    match (d, p) {
        (Device::Android(a), Platform::Regular(r)) => views_of(a.supported_targets@).contains(r.toolchain.rustc_triple@),
        (Device::Ssh(s), Platform::Regular(r)) => match s.conf.platform {
            Some(pid) => pid@ == r.id@,
            None => false,
        },
        (Device::Host(_), Platform::Host(_)) => true,
        _ => false,
    }
}

/// A device that declares a set of triples goes with a regular platform exactly when
/// the platform's triple is one of them.
pub proof fn lemma_compatible_by_triple(a: AndroidDevice, r: RegularPlatform)
    ensures
        compatible_spec(Device::Android(a), Platform::Regular(r))
            <==> exists|i: int| 0 <= i < a.supported_targets@.len() && a.supported_targets@[i]@ == r.toolchain.rustc_triple@,
{
    let v = views_of(a.supported_targets@);
    if exists|i: int| 0 <= i < a.supported_targets@.len() && a.supported_targets@[i]@ == r.toolchain.rustc_triple@ {
        let i = choose|i: int| 0 <= i < a.supported_targets@.len() && a.supported_targets@[i]@ == r.toolchain.rustc_triple@;
        assert(v[i] == r.toolchain.rustc_triple@);
    }
}

/// Asks a device whether it runs what a platform of each kind builds; a platform asks
/// with the method of its own kind.
pub trait DeviceCompatibility {
    /// The device among the kinds of devices.
    spec fn as_device(&self) -> Device;

    fn is_compatible_with_regular_platform(&self, platform: &RegularPlatform) -> (r: bool)
        ensures
            r == compatible_spec(self.as_device(), Platform::Regular(*platform)),
    ;

    fn is_compatible_with_host_platform(&self, platform: &HostPlatform) -> (r: bool)
        ensures
            r == compatible_spec(self.as_device(), Platform::Host(*platform)),
    ;

    fn is_compatible_with_ios_platform(&self, platform: &IosPlatform) -> (r: bool)
        ensures
            r == compatible_spec(self.as_device(), Platform::Ios(*platform)),
    ;
}

impl DeviceCompatibility for AndroidDevice {
    open spec fn as_device(&self) -> Device {
        Device::Android(*self)
    }

    fn is_compatible_with_regular_platform(&self, platform: &RegularPlatform) -> (r: bool) {
        self.can_run(&platform.toolchain.rustc_triple)
    }

    fn is_compatible_with_host_platform(&self, platform: &HostPlatform) -> (r: bool) {
        false
    }

    fn is_compatible_with_ios_platform(&self, platform: &IosPlatform) -> (r: bool) {
        false
    }
}

impl DeviceCompatibility for SshDevice {
    open spec fn as_device(&self) -> Device {
        Device::Ssh(*self)
    }

    fn is_compatible_with_regular_platform(&self, platform: &RegularPlatform) -> (r: bool) {
        match &self.conf.platform {
            Some(pid) => same_text(pid, &platform.id),
            None => false,
        }
    }

    fn is_compatible_with_host_platform(&self, platform: &HostPlatform) -> (r: bool) {
        false
    }

    fn is_compatible_with_ios_platform(&self, platform: &IosPlatform) -> (r: bool) {
        false
    }
}

impl DeviceCompatibility for HostDevice {
    open spec fn as_device(&self) -> Device {
        Device::Host(*self)
    }

    fn is_compatible_with_regular_platform(&self, platform: &RegularPlatform) -> (r: bool) {
        false
    }

    fn is_compatible_with_host_platform(&self, platform: &HostPlatform) -> (r: bool) {
        true
    }

    fn is_compatible_with_ios_platform(&self, platform: &IosPlatform) -> (r: bool) {
        false
    }
}

/// Whether a device runs what a platform builds.
pub fn is_compatible(d: &Device, p: &Platform) -> (r: bool)
    ensures
        r == compatible_spec(*d, *p),
{
    match d {
        Device::Android(a) => platform_asks(a, p),
        Device::Ssh(s) => platform_asks(s, p),
        Device::Host(h) => platform_asks(h, p),
    }
}

/// The platform asks the device with the method of its own kind.
fn platform_asks<D: DeviceCompatibility>(d: &D, p: &Platform) -> (r: bool)
    ensures
        r == compatible_spec(d.as_device(), *p),
{
    match p {
        Platform::Regular(r) => d.is_compatible_with_regular_platform(r),
        Platform::Host(h) => d.is_compatible_with_host_platform(h),
        Platform::Ios(i) => d.is_compatible_with_ios_platform(i),
    }
}

/// How a configured platform is built: on the host, for iOS, or with a toolchain.
#[derive(Clone, Copy, Debug, PartialEq, Eq, Structural)]
pub enum PlatformKind {
    Host,
    Ios,
    Regular,
}

/// A configuration without a triple builds on the host; an `-ios` triple with the
/// host's SDK; any other triple with its toolchain, which it must name.
pub fn platform_kind(name: &str, conf: &PlatformConfiguration) -> (r: Result<PlatformKind, DinghyError>)
    ensures
        conf.rustc_triple is None ==> r matches Ok(PlatformKind::Host),
        conf.rustc_triple matches Some(t) ==> (has_suffix(t@, "-ios"@) ==> r matches Ok(PlatformKind::Ios)),
        conf.rustc_triple matches Some(t) ==> (!has_suffix(t@, "-ios"@) ==> (
            (conf.toolchain is Some ==> r matches Ok(PlatformKind::Regular))
            && (conf.toolchain is None ==> r matches Err(DinghyError::Configuration(_))))),
{
    match &conf.rustc_triple {
        None => Ok(PlatformKind::Host),
        Some(t) => {
            if ends_with(t, "-ios") {
                Ok(PlatformKind::Ios)
            } else if conf.toolchain.is_some() {
                Ok(PlatformKind::Regular)
            } else {
                Err(DinghyError::Configuration(concat("Toolchain missing for platform ", name)))
            }
        },
    }
}

/// The platforms and devices found at start.
#[derive(Clone, Debug)]
pub struct Dinghy {
    pub platforms: Vec<(String, Platform)>,
    pub devices: Vec<Device>,
}

impl Dinghy {
    pub fn new(platforms: Vec<(String, Platform)>, devices: Vec<Device>) -> (r: Dinghy)
        ensures
            r.platforms == platforms,
            r.devices == devices,
    {
        Dinghy { platforms, devices }
    }

    /// The index of the first platform named `name`.
    pub fn platform_by_name(&self, name: &str) -> (r: Option<usize>)
        ensures
            r matches Some(i) ==> i < self.platforms@.len() && self.platforms@[i as int].0@ == name@
                && forall|j: int| 0 <= j < i ==> self.platforms@[j].0@ != name@,
            r is None ==> forall|j: int| 0 <= j < self.platforms@.len() ==> self.platforms@[j].0@ != name@,
    {
        let mut i: usize = 0;
        while i < self.platforms.len()
            invariant
                i <= self.platforms@.len(),
                forall|j: int| 0 <= j < i ==> self.platforms@[j].0@ != name@,
            decreases self.platforms@.len() - i,
        {
            if same_text(&self.platforms[i].0, name) {
                return Some(i);
            }
            i = i + 1;
        }
        None
    }

    /// The index of the first device that runs what `platform` builds; where none
    /// does, that is reported before anything is built.
    pub fn device_for(&self, platform: &Platform) -> (r: Result<usize, DinghyError>)
        ensures
            r matches Ok(i) ==> i < self.devices@.len() && compatible_spec(self.devices@[i as int], *platform)
                && forall|j: int| 0 <= j < i ==> !compatible_spec(self.devices@[j], *platform),
            r matches Err(e) ==> e is CompatibilityMismatch
                && forall|j: int| 0 <= j < self.devices@.len() ==> !compatible_spec(self.devices@[j], *platform),
    {
        let mut i: usize = 0;
        while i < self.devices.len()
            invariant
                i <= self.devices@.len(),
                forall|j: int| 0 <= j < i ==> !compatible_spec(self.devices@[j], *platform),
            decreases self.devices@.len() - i,
        {
            if is_compatible(&self.devices[i], platform) {
                return Ok(i);
            }
            i = i + 1;
        }
        Err(DinghyError::CompatibilityMismatch(to_owned_string("no device can run this platform's builds")))
    }
}

} // verus!
