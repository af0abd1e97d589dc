//! Devices reached over SSH: bundles go over with `rsync`, and run through `ssh`.
use vstd::prelude::*;
use vstd::string::*;
use crate::bundle::{
    bundle_paths_plain, is_root_path, lemma_rewrite_idempotent, lemma_rewrite_invertible,
    rewrite_spec, BuildBundle, BundleView,
};
use crate::command::CommandLine;
use crate::errors::DinghyError;
use crate::text::{concat, join, join_path, join_all, join_with, to_owned_string, views_of};

verus! {

/// The digit of a number below ten.
pub open spec fn digit(d: nat) -> char {
    ((d + 48) as u8) as char
}

/// A number in decimal, without leading zeros.
pub open spec fn decimal(n: nat) -> Seq<char>
    decreases n,
{
    if n < 10 {
        seq![digit(n)]
    } else {
        decimal(n / 10).push(digit(n % 10))
    }
}

/// A number in decimal.
pub fn decimal_string(n: u16) -> (r: String)
    ensures
        r@ == decimal(n as nat),
    decreases n,
{
    if n < 10 {
        let mut r = String::new();
        r.push(((n as u8) + 48) as char);
        assert(r@ =~= seq![digit(n as nat)]);
        r
    } else {
        let mut r = decimal_string(n / 10);
        r.push((((n % 10) as u8) + 48) as char);
        r
    }
}

/// Relies on isatty's `stdout_isatty`: whether standard output is a terminal, which
/// depends on how the process was started.
#[verifier::external_body]
fn stdout_is_tty() -> (r: bool) {
    isatty::stdout_isatty()
}

/// A configured SSH device.
#[derive(Clone, Debug)]
pub struct SshDeviceConfiguration {
    pub hostname: String,
    pub username: String,
    pub port: Option<u16>,
    /// Where bundles go on the device; `/tmp` if unset.
    pub path: Option<String>,
    /// The id of the platform whose builds the device runs.
    pub platform: Option<String>,
    pub toolchain: Option<String>,
}

pub open spec fn user_at_host(c: SshDeviceConfiguration) -> Seq<char> {
    c.username@ + seq!['@'] + c.hostname@
}

/// The arguments of `ssh` that reach the device: the port if set, and a terminal
/// (quietly) where the local side has one.
pub open spec fn ssh_args_spec(c: SshDeviceConfiguration, tty: bool) -> Seq<Seq<char>> {
    seq![user_at_host(c)]
        + match c.port {
            Some(p) => seq!["-p"@, decimal(p as nat)],
            None => Seq::empty(),
        }
        + if tty { seq!["-t"@, "-o"@, "LogLevel=QUIET"@] } else { Seq::empty() }
}

/// The arguments of `rsync` that copy the content of `from` into `to` on the device.
pub open spec fn rsync_args_spec(c: SshDeviceConfiguration, from: Seq<char>, to: Seq<char>) -> Seq<Seq<char>> {
    seq!["-a"@, "-v"@]
        + match c.port {
            Some(p) => seq!["-e"@, "ssh -p "@ + decimal(p as nat)],
            None => Seq::empty(),
        }
        + seq![from + seq!['/'], user_at_host(c) + seq![':'] + to + seq!['/']]
}

/// `<path or /tmp>/dinghy`, the root of bundles on the device.
pub open spec fn remote_prefix_spec(c: SshDeviceConfiguration) -> Seq<char> {
    join_path(
        match c.path {
            Some(p) => p@,
            None => "/tmp"@,
        },
        "dinghy"@,
    )
}

/// The bundle root of a device is a path that others can be moved under.
pub proof fn lemma_remote_prefix_is_root(c: SshDeviceConfiguration)
    ensures
        is_root_path(remote_prefix_spec(c)),
{
    let base = match c.path {
        Some(p) => p@,
        None => "/tmp"@,
    };
    reveal_strlit("dinghy");
    let pre = remote_prefix_spec(c);
    assert(pre.last() == 'y') by {
        if base.len() == 0 {
            assert(pre == "dinghy"@);
        } else if base.last() == '/' {
            assert(pre == base + "dinghy"@);
        } else {
            assert(pre == base + seq!['/'] + "dinghy"@);
        }
    }
}

/// The remote bundle of a device is derived from the host bundle and the device's
/// prefix alone, and deriving it again from itself changes nothing.
pub proof fn lemma_remote_bundle_idempotent(c: SshDeviceConfiguration, b: BundleView)
    requires
        rewrite_spec(b, remote_prefix_spec(c)) is Some,
    ensures
        rewrite_spec(rewrite_spec(b, remote_prefix_spec(c)).unwrap(), remote_prefix_spec(c))
            == rewrite_spec(b, remote_prefix_spec(c)),
{
    lemma_remote_prefix_is_root(c);
    lemma_rewrite_idempotent(b, remote_prefix_spec(c));
}

/// Putting the host root back in place of the device's prefix turns the remote bundle
/// into the host bundle again (for bundles whose paths have no trailing `/`, as
/// `make_app` makes them).
pub proof fn lemma_remote_bundle_invertible(c: SshDeviceConfiguration, b: BundleView)
    requires
        bundle_paths_plain(b),
        rewrite_spec(b, remote_prefix_spec(c)) is Some,
    ensures
        rewrite_spec(rewrite_spec(b, remote_prefix_spec(c)).unwrap(), b.root_dir) == Some(b),
{
    lemma_remote_prefix_is_root(c);
    lemma_rewrite_invertible(b, remote_prefix_spec(c));
}

/// The shell line that runs a bundle on the device: in the bundle directory, with the
/// caller's variables, the marker variable and the library path set.
pub open spec fn run_line_spec(remote: BundleView, envs: Seq<Seq<char>>) -> Seq<char> {
    "cd '"@ + remote.bundle_dir + "' ; "@ + join_with(envs, " "@)
        + " RUST_BACKTRACE=1 DINGHY=1 LD_LIBRARY_PATH=\""@ + remote.lib_dir
        + ":$LD_LIBRARY_PATH\" "@ + remote.bundle_exe
}

/// A device reached over SSH, named `id` in the configuration.
#[derive(Clone, Debug)]
pub struct SshDevice {
    pub id: String,
    pub conf: SshDeviceConfiguration,
}

fn push_all(v: &mut Vec<String>, more: &Vec<String>)
    ensures
        views_of(final(v)@) == views_of(old(v)@) + views_of(more@),
{
    let ghost start = views_of(v@);
    let mut i: usize = 0;
    while i < more.len()
        invariant
            i <= more@.len(),
            views_of(v@) == start + views_of(more@).subrange(0, i as int),
        decreases more@.len() - i,
    {
        let ghost before = views_of(v@);
        v.push(more[i].clone());
        assert(views_of(v@) =~= before.push(more@[i as int]@));
        assert(views_of(more@).subrange(0, i + 1) =~= views_of(more@).subrange(0, i as int).push(more@[i as int]@));
        i = i + 1;
    }
    assert(views_of(more@).subrange(0, more@.len() as int) =~= views_of(more@));
}

impl SshDevice {
    pub fn id(&self) -> (r: &str)
        ensures
            r@ == self.id@,
    {
        self.id.as_str()
    }

    pub fn name(&self) -> (r: &str)
        ensures
            r@ == self.id@,
    {
        self.id.as_str()
    }

    /// A one-line description of the device.
    pub fn description(&self) -> (r: String)
        ensures
            r@ == "Ssh { \"id\": \""@ + self.id@ + "\", \"hostname\": \""@ + self.conf.hostname@
                + "\", \"username\": \""@ + self.conf.username@ + "\", \"port\": \""@
                + match self.conf.port {
                    Some(p) => decimal(p as nat),
                    None => "none"@,
                } + "\" }"@,
    {
        let mut r = concat("Ssh { \"id\": \"", &self.id);
        r.append("\", \"hostname\": \"");
        r.append(&self.conf.hostname);
        r.append("\", \"username\": \"");
        r.append(&self.conf.username);
        r.append("\", \"port\": \"");
        match self.conf.port {
            Some(p) => r.append(&decimal_string(p)),
            None => r.append("none"),
        }
        r.append("\" }");
        r
    }

    /// The configuration of this device.
    pub fn ssh_config(&self) -> (r: &SshDeviceConfiguration)
        ensures
            *r == self.conf,
    {
        &self.conf
    }

    fn user_at_host(&self) -> (r: String)
        ensures
            r@ == user_at_host(self.conf),
    {
        let mut r = self.conf.username.clone();
        r.push('@');
        r.append(&self.conf.hostname);
        r
    }

    /// `ssh` to the device, with a terminal requested when `tty` holds.
    pub fn ssh_command_with(&self, tty: bool) -> (r: CommandLine)
        ensures
            r.program@ == "ssh"@,
            r.args_view() == ssh_args_spec(self.conf, tty),
            r.must_succeed,
            !r.quiet,
    {
        let mut args: Vec<String> = Vec::new();
        args.push(self.user_at_host());
        match self.conf.port {
            Some(p) => {
                args.push(to_owned_string("-p"));
                args.push(decimal_string(p));
            },
            None => {},
        }
        if tty {
            args.push(to_owned_string("-t"));
            args.push(to_owned_string("-o"));
            args.push(to_owned_string("LogLevel=QUIET"));
        }
        let r = CommandLine { program: to_owned_string("ssh"), args, must_succeed: true, quiet: false };
        assert(r.args_view() =~= ssh_args_spec(self.conf, tty));
        r
    }

    /// `ssh` to the device, with a terminal requested where standard output is one.
    pub fn ssh_command(&self) -> (r: CommandLine)
        ensures
            r.program@ == "ssh"@,
            exists|tty: bool| r.args_view() == ssh_args_spec(self.conf, tty),
    {
        let tty = stdout_is_tty();
        self.ssh_command_with(tty)
    }

    /// `rsync` of the content of the local directory `from` into `to` on the device;
    /// its output is shown only when `debug` holds.
    pub fn rsync(&self, from: &str, to: &str, debug: bool) -> (r: CommandLine)
        ensures
            r.program@ == "/usr/bin/rsync"@,
            r.args_view() == rsync_args_spec(self.conf, from@, to@),
            r.must_succeed,
            r.quiet == !debug,
    {
        let mut args: Vec<String> = Vec::new();
        args.push(to_owned_string("-a"));
        args.push(to_owned_string("-v"));
        match self.conf.port {
            Some(p) => {
                args.push(to_owned_string("-e"));
                args.push(concat("ssh -p ", &decimal_string(p)));
                assert(views_of(args@) =~= seq!["-a"@, "-v"@, "-e"@, "ssh -p "@ + decimal(p as nat)]);
            },
            None => {
                assert(views_of(args@) =~= seq!["-a"@, "-v"@]);
            },
        }
        let ghost head = views_of(args@);
        assert(head == seq!["-a"@, "-v"@] + match self.conf.port {
            Some(p) => seq!["-e"@, "ssh -p "@ + decimal(p as nat)],
            None => Seq::<Seq<char>>::empty(),
        });
        let mut src = to_owned_string(from);
        src.push('/');
        let ghost s1 = src@;
        args.push(src);
        assert(views_of(args@) =~= head.push(s1));
        let mut dst = self.user_at_host();
        dst.push(':');
        dst.append(to);
        dst.push('/');
        let ghost d1 = dst@;
        args.push(dst);
        assert(views_of(args@) =~= head.push(s1).push(d1));
        assert(s1 =~= from@ + seq!['/']);
        assert(d1 =~= user_at_host(self.conf) + seq![':'] + to@ + seq!['/']);
        assert(views_of(args@) =~= head + seq![from@ + seq!['/'], user_at_host(self.conf) + seq![':'] + to@ + seq!['/']]);
        let r = CommandLine { program: to_owned_string("/usr/bin/rsync"), args, must_succeed: true, quiet: !debug };
        assert(r.args_view() =~= rsync_args_spec(self.conf, from@, to@));
        r
    }

    fn remote_prefix(&self) -> (r: String)
        ensures
            r@ == remote_prefix_spec(self.conf),
    {
        match &self.conf.path {
            Some(p) => join(p, "dinghy"),
            None => join("/tmp", "dinghy"),
        }
    }

    /// Where a bundle staged on the host lives on the device: the same layout, under
    /// the device's bundle root.
    pub fn to_remote_bundle(&self, build_bundle: &BuildBundle) -> (r: Result<BuildBundle, DinghyError>)
        ensures
            r matches Ok(b) ==> rewrite_spec(build_bundle@, remote_prefix_spec(self.conf)) == Some(b@),
            r is Err <==> rewrite_spec(build_bundle@, remote_prefix_spec(self.conf)) is None,
    {
        let prefix = self.remote_prefix();
        build_bundle.replace_prefix_with(&prefix)
    }

    /// The steps that install a bundle: make its directory on the device (whatever
    /// that returns), then copy the bundle directory and the library directory.
    pub fn install_commands(&self, build_bundle: &BuildBundle, debug: bool, tty: bool) -> (r: Result<Vec<CommandLine>, DinghyError>)
        ensures
            r is Err <==> rewrite_spec(build_bundle@, remote_prefix_spec(self.conf)) is None,
            r matches Ok(cs) ==> {
                let remote = rewrite_spec(build_bundle@, remote_prefix_spec(self.conf)).unwrap();
                &&& cs@.len() == 3
                &&& cs@[0].program@ == "ssh"@ && !cs@[0].must_succeed
                &&& cs@[0].args_view() == ssh_args_spec(self.conf, tty) + seq!["mkdir"@, "-p"@, remote.bundle_dir]
                &&& cs@[1].program@ == "/usr/bin/rsync"@ && cs@[1].must_succeed && cs@[1].quiet == !debug
                &&& cs@[1].args_view() == rsync_args_spec(self.conf, build_bundle.bundle_dir@, remote.bundle_dir)
                &&& cs@[2].program@ == "/usr/bin/rsync"@ && cs@[2].must_succeed && cs@[2].quiet == !debug
                &&& cs@[2].args_view() == rsync_args_spec(self.conf, build_bundle.lib_dir@, remote.lib_dir)
            },
    {
        let remote = self.to_remote_bundle(build_bundle)?;
        let mut mkdir = self.ssh_command_with(tty);
        let mut tail: Vec<String> = Vec::new();
        tail.push(to_owned_string("mkdir"));
        tail.push(to_owned_string("-p"));
        tail.push(remote.bundle_dir.clone());
        assert(views_of(tail@) =~= seq!["mkdir"@, "-p"@, remote.bundle_dir@]);
        push_all(&mut mkdir.args, &tail);
        mkdir.must_succeed = false;
        let mut cs: Vec<CommandLine> = Vec::new();
        cs.push(mkdir);
        cs.push(self.rsync(&build_bundle.bundle_dir, &remote.bundle_dir, debug));
        cs.push(self.rsync(&build_bundle.lib_dir, &remote.lib_dir, debug));
        Ok(cs)
    }

    /// The command that runs an installed bundle with `args`, in its directory on the
    /// device, with `envs`, the marker variable and the library path set.
    pub fn run_command(&self, build_bundle: &BuildBundle, args: &Vec<String>, envs: &Vec<String>, tty: bool) -> (r: Result<CommandLine, DinghyError>)
        ensures
            r is Err <==> rewrite_spec(build_bundle@, remote_prefix_spec(self.conf)) is None,
            r matches Ok(c) ==> {
                let remote = rewrite_spec(build_bundle@, remote_prefix_spec(self.conf)).unwrap();
                &&& c.program@ == "ssh"@ && c.must_succeed
                &&& c.args_view() == ssh_args_spec(self.conf, tty)
                    + seq![run_line_spec(remote, views_of(envs@))] + views_of(args@)
            },
    {
        let remote = self.to_remote_bundle(build_bundle)?;
        let mut line = concat("cd '", &remote.bundle_dir);
        line.append("' ; ");
        line.append(&join_all(envs, " "));
        line.append(" RUST_BACKTRACE=1 DINGHY=1 LD_LIBRARY_PATH=\"");
        line.append(&remote.lib_dir);
        line.append(":$LD_LIBRARY_PATH\" ");
        line.append(&remote.bundle_exe);
        let mut c = self.ssh_command_with(tty);
        let ghost head = c.args_view();
        c.args.push(line);
        assert(c.args_view() =~= head.push(run_line_spec(remote@, views_of(envs@))));
        push_all(&mut c.args, args);
        Ok(c)
    }

    /// The command that removes an installed bundle from the device.
    pub fn clean_command(&self, build_bundle: &BuildBundle, tty: bool) -> (r: Result<CommandLine, DinghyError>)
        ensures
            r is Err <==> rewrite_spec(build_bundle@, remote_prefix_spec(self.conf)) is None,
            r matches Ok(c) ==> {
                let remote = rewrite_spec(build_bundle@, remote_prefix_spec(self.conf)).unwrap();
                &&& c.program@ == "ssh"@ && c.must_succeed
                &&& c.args_view() == ssh_args_spec(self.conf, tty).push("rm -rf "@ + remote.bundle_dir)
            },
    {
        let remote = self.to_remote_bundle(build_bundle)?;
        let mut c = self.ssh_command_with(tty);
        let ghost head = c.args_view();
        c.args.push(concat("rm -rf ", &remote.bundle_dir));
        assert(c.args_view() =~= head.push("rm -rf "@ + remote.bundle_dir@));
        Ok(c)
    }

    /// Remote debugging is not offered on this transport.
    pub fn debug_app(&self, build_bundle: &BuildBundle) -> (r: Result<(), DinghyError>)
        ensures
            r matches Err(DinghyError::UnsupportedOperation(_)),
    {
        Err(DinghyError::UnsupportedOperation(to_owned_string("debugging over ssh")))
    }
}

/// The SSH devices of the configuration.
#[derive(Clone, Debug)]
pub struct SshDeviceManager {
    pub conf: Vec<(String, SshDeviceConfiguration)>,
}

impl SshDeviceManager {
    /// A manager for the configured SSH devices; there is always one.
    pub fn probe(conf: Vec<(String, SshDeviceConfiguration)>) -> (r: Option<SshDeviceManager>)
        ensures
            r matches Some(m) && m.conf == conf,
    {
        Some(SshDeviceManager { conf })
    }

    /// One device per configured entry, in order, named by its key.
    pub fn devices(&self) -> (r: Vec<SshDevice>)
        ensures
            r@.len() == self.conf@.len(),
            forall|i: int| 0 <= i < r@.len() ==> (#[trigger] r@[i]).id@ == self.conf@[i].0@
                && r@[i].conf == self.conf@[i].1,
    {
        let mut r: Vec<SshDevice> = Vec::new();
        let mut i: usize = 0;
        while i < self.conf.len()
            invariant
                i <= self.conf@.len(),
                r@.len() == i,
                forall|j: int| 0 <= j < i ==> (#[trigger] r@[j]).id@ == self.conf@[j].0@
                    && r@[j].conf == self.conf@[j].1,
            decreases self.conf@.len() - i,
        {
            let (k, c) = &self.conf[i];
            r.push(SshDevice { id: k.clone(), conf: clone_conf(c) });
            i = i + 1;
        }
        r
    }
}

fn clone_opt(o: &Option<String>) -> (r: Option<String>)
    ensures
        r == *o,
{
    match o {
        Some(s) => Some(s.clone()),
        None => None,
    }
}

fn clone_conf(c: &SshDeviceConfiguration) -> (r: SshDeviceConfiguration)
    ensures
        r == *c,
{
    SshDeviceConfiguration {
        hostname: c.hostname.clone(),
        username: c.username.clone(),
        port: c.port,
        path: clone_opt(&c.path),
        platform: clone_opt(&c.platform),
        toolchain: clone_opt(&c.toolchain),
    }
}

} // verus!
