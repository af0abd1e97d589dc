//! Android devices reached through `adb`, and the NDK toolchains that build for them.
use vstd::prelude::*;
use vstd::string::*;
use crate::bundle::{BuildBundle, BundleView};
use crate::command::CommandLine;
use crate::errors::DinghyError;
use crate::text::{
    chars_of, concat, has_suffix, is_space, join, join_path, join_all, join_with, same_text,
    split, split_spec, string_of, to_owned_string, trim, trim_spec, views_of,
};

verus! {

/// The target triple that runs on an Android ABI, for the ABIs that have one.
pub open spec fn abi_triple_spec(abi: Seq<char>) -> Option<Seq<char>> {
    if abi == "arm64-v8a"@ {
        Some("aarch64-linux-android"@)
    } else if abi == "armeabi-v7a"@ {
        Some("armv7-linux-androideabi"@)
    } else if abi == "armeabi"@ {
        Some("arm-linux-androideabi"@)
    } else if abi == "x86"@ {
        Some("i686-linux-android"@)
    } else {
        None
    }
}

/// The triples of the known ABIs of a list, in the list's order; unknown ABIs are
/// left out.
pub open spec fn map_abi_spec(abis: Seq<Seq<char>>) -> Seq<Seq<char>>
    decreases abis.len(),
{
    if abis.len() == 0 {
        Seq::empty()
    } else {
        match abi_triple_spec(abis.last()) {
            Some(t) => map_abi_spec(abis.drop_last()).push(t),
            None => map_abi_spec(abis.drop_last()),
        }
    }
}

/// One of the triples that an ABI maps to.
pub open spec fn is_known_triple(t: Seq<char>) -> bool {
    t == "aarch64-linux-android"@ || t == "armv7-linux-androideabi"@
        || t == "arm-linux-androideabi"@ || t == "i686-linux-android"@
}

/// `sub` keeps some of the items of `s`, in their order: `idx` says where each is.
pub open spec fn ordered_image(s: Seq<Seq<char>>, sub: Seq<Seq<char>>, idx: Seq<int>) -> bool {
    &&& idx.len() == sub.len()
    &&& forall|a: int| 0 <= a < idx.len() ==> 0 <= #[trigger] idx[a] < s.len()
    &&& forall|a: int, b: int| 0 <= a < b < idx.len() ==> #[trigger] idx[a] < #[trigger] idx[b]
    &&& forall|a: int| 0 <= a < idx.len() ==> abi_triple_spec(s[#[trigger] idx[a]]) == Some(sub[a])
}

/// Mapping an ABI list yields only known triples, each the mapping of an ABI of the
/// list, in the list's order; an ABI without a mapping is dropped, never an error.
pub proof fn lemma_map_abi_list(abis: Seq<Seq<char>>)
    ensures
        forall|i: int| 0 <= i < map_abi_spec(abis).len() ==> is_known_triple(#[trigger] map_abi_spec(abis)[i]),
        exists|idx: Seq<int>| ordered_image(abis, map_abi_spec(abis), idx),
        forall|i: int| 0 <= i < abis.len() && (#[trigger] abi_triple_spec(abis[i])) is None ==>
            map_abi_spec(abis) == map_abi_spec(abis.remove(i)),
    decreases abis.len(),
{
    if abis.len() == 0 {
        assert(ordered_image(abis, map_abi_spec(abis), Seq::<int>::empty()));
    } else {
        let t = abis.drop_last();
        lemma_map_abi_list(t);
        let prev = map_abi_spec(t);
        let idx0 = choose|idx: Seq<int>| ordered_image(t, prev, idx);
        match abi_triple_spec(abis.last()) {
            Some(x) => {
                let idx = idx0.push(abis.len() - 1);
                assert(ordered_image(abis, map_abi_spec(abis), idx)) by {
                    assert(idx.len() == map_abi_spec(abis).len());
                    assert forall|a: int| 0 <= a < idx.len() implies 0 <= #[trigger] idx[a] < abis.len() by {
                        if a < idx0.len() {
                            assert(idx[a] == idx0[a]);
                        }
                    }
                    assert forall|a: int, b: int| 0 <= a < b < idx.len() implies #[trigger] idx[a] < #[trigger] idx[b] by {
                        assert(idx[a] == idx0[a]);
                        if b < idx0.len() {
                            assert(idx[b] == idx0[b]);
                        }
                    }
                    assert forall|a: int| 0 <= a < idx.len() implies abi_triple_spec(abis[#[trigger] idx[a]]) == Some(map_abi_spec(abis)[a]) by {
                        if a < idx0.len() {
                            assert(abis[idx0[a]] == t[idx0[a]]);
                        }
                    }
                }
            },
            None => {
                assert(ordered_image(abis, map_abi_spec(abis), idx0)) by {
                    assert forall|a: int| 0 <= a < idx0.len() implies abi_triple_spec(abis[#[trigger] idx0[a]]) == Some(map_abi_spec(abis)[a]) by {
                        assert(abis[idx0[a]] == t[idx0[a]]);
                    }
                }
            },
        }
        assert forall|i: int| 0 <= i < abis.len() && (#[trigger] abi_triple_spec(abis[i])) is None implies
            map_abi_spec(abis) == map_abi_spec(abis.remove(i)) by {
            if i == abis.len() - 1 {
                assert(abis.remove(i) =~= t);
            } else {
                assert(t[i] == abis[i]);
                assert(abis.remove(i).drop_last() =~= t.remove(i));
                assert(abis.remove(i).last() == abis.last());
            }
        }
    }
}

/// The triple for one ABI.
pub fn abi_triple(abi: &str) -> (r: Option<String>)
    ensures
        r matches Some(t) ==> abi_triple_spec(abi@) == Some(t@),
        r is None ==> abi_triple_spec(abi@) is None,
{
    if same_text(abi, "arm64-v8a") {
        Some(to_owned_string("aarch64-linux-android"))
    } else if same_text(abi, "armeabi-v7a") {
        Some(to_owned_string("armv7-linux-androideabi"))
    } else if same_text(abi, "armeabi") {
        Some(to_owned_string("arm-linux-androideabi"))
    } else if same_text(abi, "x86") {
        Some(to_owned_string("i686-linux-android"))
    } else {
        None
    }
}

/// The triples of the known ABIs of `abis`, in order.
pub fn map_abi_list(abis: &Vec<String>) -> (r: Vec<String>)
    ensures
        views_of(r@) == map_abi_spec(views_of(abis@)),
{
    let ghost av = views_of(abis@);
    let mut r: Vec<String> = Vec::new();
    let mut i: usize = 0;
    while i < abis.len()
        invariant
            i <= abis@.len(),
            av == views_of(abis@),
            views_of(r@) == map_abi_spec(av.subrange(0, i as int)),
        decreases abis@.len() - i,
    {
        assert(av.subrange(0, i + 1).drop_last() =~= av.subrange(0, i as int));
        assert(av[i as int] == abis@[i as int]@);
        match abi_triple(&abis[i]) {
            Some(t) => {
                let ghost before = views_of(r@);
                r.push(t);
                assert(views_of(r@) =~= before.push(t@));
            },
            None => {},
        }
        i = i + 1;
    }
    assert(av.subrange(0, abis@.len() as int) =~= av);
    r
}

/// `t` between double quotes.
pub open spec fn quoted(t: Seq<char>) -> Seq<char> {
    seq!['"'] + t + seq!['"']
}

/// `/data/local/tmp/dinghy/<id>`, where a bundle lives on a device.
pub open spec fn remote_dir_spec(b: BundleView) -> Seq<char> {
    "/data/local/tmp/dinghy/"@ + b.id
}

pub open spec fn remote_exe_spec(b: BundleView) -> Seq<char> {
    remote_dir_spec(b) + seq!['/'] + b.id
}

/// An Android device: the `adb` that reaches it, its serial, and the triples it runs.
#[derive(Clone, Debug)]
pub struct AndroidDevice {
    pub adb: String,
    pub id: String,
    pub supported_targets: Vec<String>,
}

impl AndroidDevice {
    /// The device `id`, reached through `adb`, whose ABI list property reads `abilist`:
    /// a comma-separated list, white space around it ignored.
    pub fn from_abilist(adb: &str, id: &str, abilist: &str) -> (r: AndroidDevice)
        ensures
            r.adb@ == adb@,
            r.id@ == id@,
            views_of(r.supported_targets@) == map_abi_spec(split_spec(trim_spec(abilist@), ',')),
    {
        let t = trim(abilist);
        let abis = split(&t, ',');
        AndroidDevice {
            adb: to_owned_string(adb),
            id: to_owned_string(id),
            supported_targets: map_abi_list(&abis),
        }
    }

    /// The command that reads the ABI list of device `id`.
    pub fn abilist_command(adb: &str, id: &str) -> (r: CommandLine)
        ensures
            r.program@ == adb@,
            r.args_view() == seq!["-s"@, id@, "shell"@, "getprop"@, "ro.product.cpu.abilist"@],
            r.must_succeed,
    {
        let mut args: Vec<String> = Vec::new();
        args.push(to_owned_string("-s"));
        args.push(to_owned_string(id));
        args.push(to_owned_string("shell"));
        args.push(to_owned_string("getprop"));
        args.push(to_owned_string("ro.product.cpu.abilist"));
        let r = CommandLine { program: to_owned_string(adb), args, must_succeed: true, quiet: false };
        assert(r.args_view() =~= seq!["-s"@, id@, "shell"@, "getprop"@, "ro.product.cpu.abilist"@]);
        r
    }

    pub fn id(&self) -> (r: &str)
        ensures
            r@ == self.id@,
    {
        self.id.as_str()
    }

    /// A one-line description of the device and the triples it runs.
    pub fn description(&self) -> (r: String)
        ensures
            r@ == "Android { \"id\": \""@ + self.id@ + "\", \"supported_targets\": ["@
                + join_with(views_of(self.supported_targets@).map_values(|t: Seq<char>| quoted(t)), ", "@)
                + "] }"@,
    {
        let mut quoted_targets: Vec<String> = Vec::new();
        let mut i: usize = 0;
        while i < self.supported_targets.len()
            invariant
                i <= self.supported_targets@.len(),
                views_of(quoted_targets@) == views_of(self.supported_targets@).subrange(0, i as int).map_values(
                    |t: Seq<char>| quoted(t),
                ),
            decreases self.supported_targets@.len() - i,
        {
            let mut q = String::new();
            q.push('"');
            q.append(&self.supported_targets[i]);
            q.push('"');
            let ghost before = views_of(quoted_targets@);
            assert(q@ =~= quoted(self.supported_targets@[i as int]@));
            quoted_targets.push(q);
            assert(views_of(quoted_targets@) =~= before.push(quoted(self.supported_targets@[i as int]@)));
            assert(views_of(quoted_targets@) =~= views_of(self.supported_targets@).subrange(0, i + 1).map_values(
                |t: Seq<char>| quoted(t),
            ));
            i = i + 1;
        }
        assert(views_of(self.supported_targets@).subrange(0, self.supported_targets@.len() as int)
            =~= views_of(self.supported_targets@));
        let mut r = concat("Android { \"id\": \"", &self.id);
        r.append("\", \"supported_targets\": [");
        r.append(&join_all(&quoted_targets, ", "));
        r.append("] }");
        r
    }

    pub fn name(&self) -> (r: &'static str)
        ensures
            r@ == "android device"@,
    {
        "android device"
    }

    /// Whether the device runs code built for `target`.
    pub fn can_run(&self, target: &str) -> (r: bool)
        ensures
            r == views_of(self.supported_targets@).contains(target@),
    {
        let mut i: usize = 0;
        while i < self.supported_targets.len()
            invariant
                i <= self.supported_targets@.len(),
                forall|j: int| 0 <= j < i ==> self.supported_targets@[j]@ != target@,
            decreases self.supported_targets@.len() - i,
        {
            if same_text(&self.supported_targets[i], target) {
                assert(views_of(self.supported_targets@)[i as int] == target@);
                return true;
            }
            i = i + 1;
        }
        assert(!views_of(self.supported_targets@).contains(target@)) by {
            if views_of(self.supported_targets@).contains(target@) {
                let j = choose|j: int| 0 <= j < views_of(self.supported_targets@).len() && views_of(self.supported_targets@)[j] == target@;
                assert(self.supported_targets@[j]@ == target@);
            }
        }
        false
    }

    /// The triple to build for by default: `arm-linux-androideabi` where the device
    /// runs it, else the first it runs, else none (empty).
    pub fn target(&self) -> (r: String)
        ensures
            views_of(self.supported_targets@).contains("arm-linux-androideabi"@) ==> r@ == "arm-linux-androideabi"@,
            !views_of(self.supported_targets@).contains("arm-linux-androideabi"@) ==> r@ == (
                if self.supported_targets@.len() > 0 { self.supported_targets@[0]@ } else { Seq::empty() }
            ),
    {
        if self.can_run("arm-linux-androideabi") {
            to_owned_string("arm-linux-androideabi")
        } else if self.supported_targets.len() > 0 {
            self.supported_targets[0].clone()
        } else {
            String::new()
        }
    }

    fn adb_command(&self, tail: Vec<String>, must_succeed: bool) -> (r: CommandLine)
        ensures
            r.program@ == self.adb@,
            r.args_view() == seq!["-s"@, self.id@] + views_of(tail@),
            r.must_succeed == must_succeed,
            !r.quiet,
    {
        let mut args: Vec<String> = Vec::new();
        args.push(to_owned_string("-s"));
        args.push(self.id.clone());
        let mut i: usize = 0;
        while i < tail.len()
            invariant
                i <= tail@.len(),
                views_of(args@) == seq!["-s"@, self.id@] + views_of(tail@).subrange(0, i as int),
            decreases tail@.len() - i,
        {
            let ghost before = views_of(args@);
            args.push(tail[i].clone());
            assert(views_of(args@) =~= before.push(tail@[i as int]@));
            assert(views_of(tail@).subrange(0, i + 1) =~= views_of(tail@).subrange(0, i as int).push(tail@[i as int]@));
            i = i + 1;
        }
        assert(views_of(tail@).subrange(0, tail@.len() as int) =~= views_of(tail@));
        CommandLine { program: self.adb.clone(), args, must_succeed, quiet: false }
    }

    /// The steps that install a bundle: clear the remote directory (whatever that
    /// returns), push the bundle directory there, and make the executable runnable.
    pub fn install_commands(&self, bundle: &BuildBundle) -> (r: Vec<CommandLine>)
        ensures
            r@.len() == 3,
            r@[0].program@ == self.adb@ && !r@[0].must_succeed
                && r@[0].args_view() == seq!["-s"@, self.id@, "shell"@, "rm"@, "-rf"@, remote_dir_spec(bundle@)],
            r@[1].program@ == self.adb@ && r@[1].must_succeed
                && r@[1].args_view() == seq!["-s"@, self.id@, "push"@, bundle.bundle_dir@, remote_dir_spec(bundle@)],
            r@[2].program@ == self.adb@ && r@[2].must_succeed
                && r@[2].args_view() == seq!["-s"@, self.id@, "shell"@, "chmod"@, "755"@, remote_exe_spec(bundle@)],
    {
        let dir = remote_dir(bundle);
        let exe = remote_exe(bundle);
        let c0 = self.adb_command(strings4("shell", "rm", "-rf", &dir), false);
        let c1 = self.adb_command(strings3("push", &bundle.bundle_dir, &dir), true);
        let c2 = self.adb_command(strings4("shell", "chmod", "755", &exe), true);
        let mut r: Vec<CommandLine> = Vec::new();
        r.push(c0);
        r.push(c1);
        r.push(c2);
        assert(r@[0].args_view() =~= seq!["-s"@, self.id@, "shell"@, "rm"@, "-rf"@, remote_dir_spec(bundle@)]);
        assert(r@[1].args_view() =~= seq!["-s"@, self.id@, "push"@, bundle.bundle_dir@, remote_dir_spec(bundle@)]);
        assert(r@[2].args_view() =~= seq!["-s"@, self.id@, "shell"@, "chmod"@, "755"@, remote_exe_spec(bundle@)]);
        r
    }

    /// The command that removes an installed bundle.
    pub fn clean_command(&self, bundle: &BuildBundle) -> (r: CommandLine)
        ensures
            r.program@ == self.adb@ && r.must_succeed,
            r.args_view() == seq!["-s"@, self.id@, "shell"@, "rm"@, "-rf"@, remote_dir_spec(bundle@)],
    {
        let dir = remote_dir(bundle);
        let r = self.adb_command(strings4("shell", "rm", "-rf", &dir), true);
        assert(r.args_view() =~= seq!["-s"@, self.id@, "shell"@, "rm"@, "-rf"@, remote_dir_spec(bundle@)]);
        r
    }

    /// The command that runs an installed bundle: in its directory, with the marker
    /// variable and `envs` set, the executable with `args`.
    pub fn run_command(&self, bundle: &BuildBundle, args: &Vec<String>, envs: &Vec<String>) -> (r: CommandLine)
        ensures
            r.program@ == self.adb@ && r.must_succeed,
            r.args_view() == seq!["-s"@, self.id@, "shell"@,
                "cd \""@ + remote_dir_spec(bundle@) + "\"; DINGHY=1 "@ + join_with(views_of(envs@), " "@),
                remote_exe_spec(bundle@)] + views_of(args@),
    {
        let dir = remote_dir(bundle);
        let exe = remote_exe(bundle);
        let mut line = concat("cd \"", &dir);
        line.append("\"; DINGHY=1 ");
        let e = join_all(envs, " ");
        line.append(&e);
        let mut tail: Vec<String> = Vec::new();
        tail.push(to_owned_string("shell"));
        tail.push(line);
        tail.push(exe);
        let mut i: usize = 0;
        while i < args.len()
            invariant
                i <= args@.len(),
                tail@.len() == 3 + i,
                views_of(tail@).subrange(0, 3) == seq!["shell"@,
                    "cd \""@ + remote_dir_spec(bundle@) + "\"; DINGHY=1 "@ + join_with(views_of(envs@), " "@),
                    remote_exe_spec(bundle@)],
                views_of(tail@).subrange(3, 3 + i as int) == views_of(args@).subrange(0, i as int),
            decreases args@.len() - i,
        {
            let ghost before = views_of(tail@);
            tail.push(args[i].clone());
            assert(views_of(tail@) =~= before.push(args@[i as int]@));
            assert(views_of(tail@).subrange(0, 3) =~= before.subrange(0, 3));
            assert(views_of(tail@).subrange(3, 3 + i + 1) =~= views_of(args@).subrange(0, i + 1));
            i = i + 1;
        }
        let ghost tv = views_of(tail@);
        assert(tv =~= tv.subrange(0, 3) + tv.subrange(3, 3 + args@.len() as int));
        assert(views_of(args@).subrange(0, args@.len() as int) =~= views_of(args@));
        let r = self.adb_command(tail, true);
        assert(r.args_view() =~= seq!["-s"@, self.id@, "shell"@,
            "cd \""@ + remote_dir_spec(bundle@) + "\"; DINGHY=1 "@ + join_with(views_of(envs@), " "@),
            remote_exe_spec(bundle@)] + views_of(args@));
        r
    }

    /// Remote debugging is not offered on this transport.
    pub fn debug_app(&self, bundle: &BuildBundle) -> (r: Result<(), DinghyError>)
        ensures
            r matches Err(DinghyError::UnsupportedOperation(_)),
    {
        Err(DinghyError::UnsupportedOperation(to_owned_string("debugging an android device")))
    }
}

fn remote_dir(bundle: &BuildBundle) -> (r: String)
    ensures
        r@ == remote_dir_spec(bundle@),
{
    concat("/data/local/tmp/dinghy/", &bundle.id)
}

fn remote_exe(bundle: &BuildBundle) -> (r: String)
    ensures
        r@ == remote_exe_spec(bundle@),
{
    let mut r = remote_dir(bundle);
    r.push('/');
    r.append(&bundle.id);
    r
}

fn strings3(a: &str, b: &str, c: &str) -> (r: Vec<String>)
    ensures
        views_of(r@) == seq![a@, b@, c@],
{
    let mut r: Vec<String> = Vec::new();
    r.push(to_owned_string(a));
    r.push(to_owned_string(b));
    r.push(to_owned_string(c));
    assert(views_of(r@) =~= seq![a@, b@, c@]);
    r
}

fn strings4(a: &str, b: &str, c: &str, d: &str) -> (r: Vec<String>)
    ensures
        views_of(r@) == seq![a@, b@, c@, d@],
{
    let mut r = strings3(a, b, c);
    let ghost before = views_of(r@);
    r.push(to_owned_string(d));
    assert(views_of(r@) =~= before.push(d@));
    r
}

/// A line of `adb devices` that announces a ready device: a serial without white
/// space, a tab, `device`, and maybe a carriage return.
pub open spec fn device_line_spec(line: Seq<char>) -> Option<Seq<char>> {
    let cr = "\tdevice\r"@;
    let plain = "\tdevice"@;
    if has_suffix(line, cr) && serial_ok(line.subrange(0, line.len() - cr.len())) {
        Some(line.subrange(0, line.len() - cr.len()))
    } else if has_suffix(line, plain) && serial_ok(line.subrange(0, line.len() - plain.len())) {
        Some(line.subrange(0, line.len() - plain.len()))
    } else {
        None
    }
}

pub open spec fn serial_ok(s: Seq<char>) -> bool {
    s.len() > 0 && forall|i: int| 0 <= i < s.len() ==> !is_space(#[trigger] s[i])
}

/// The serials of the ready devices in the output of `adb devices`: the lines after
/// the first, in order.
pub open spec fn device_ids_spec(lines: Seq<Seq<char>>) -> Seq<Seq<char>>
    decreases lines.len(),
{
    if lines.len() == 0 {
        Seq::empty()
    } else {
        match device_line_spec(lines.last()) {
            Some(id) => device_ids_spec(lines.drop_last()).push(id),
            None => device_ids_spec(lines.drop_last()),
        }
    }
}

pub open spec fn parse_devices_spec(output: Seq<char>) -> Seq<Seq<char>> {
    device_ids_spec(split_spec(output, '\n').drop_first())
}

/// The serial announced by one line of `adb devices`, if it announces a ready device.
pub fn device_line(line: &str) -> (r: Option<String>)
    ensures
        r matches Some(x) ==> device_line_spec(line@) == Some(x@),
        r is None ==> device_line_spec(line@) is None,
{
    let v = chars_of(line);
    let n = v.len();
    proof {
        reveal_strlit("\tdevice\r");
        reveal_strlit("\tdevice");
    }
    if crate::text::ends_with(line, "\tdevice\r") {
        let id = string_of(&v, 0, n - 8);
        if serial(&id) {
            return Some(id);
        }
        assert(!has_suffix(line@, "\tdevice"@)) by {
            assert(line@.subrange(line@.len() - 8, line@.len() as int)[7] == '\r');
            if has_suffix(line@, "\tdevice"@) {
                assert(line@.subrange(line@.len() - 7, line@.len() as int)[6] == 'e');
            }
        }
        return None;
    }
    if crate::text::ends_with(line, "\tdevice") {
        let id = string_of(&v, 0, n - 7);
        if serial(&id) {
            return Some(id);
        }
    }
    None
}

fn serial(s: &str) -> (r: bool)
    ensures
        r == serial_ok(s@),
{
    let v = chars_of(s);
    if v.len() == 0 {
        return false;
    }
    let mut i: usize = 0;
    while i < v.len()
        invariant
            v@ == s@,
            i <= v@.len(),
            forall|j: int| 0 <= j < i ==> !is_space(#[trigger] v@[j]),
        decreases v@.len() - i,
    {
        if crate::text::char_is_space(v[i]) {
            return false;
        }
        i = i + 1;
    }
    true
}

/// Finds `adb` and lists the Android devices it reaches.
#[derive(Clone, Debug)]
pub struct AndroidManager {
    pub adb: String,
}

impl AndroidManager {
    /// The programs tried as `adb`, in order: `fb-adb`, `adb`, then the SDK's copy
    /// under the home directory, if there is one.
    pub fn adb_candidates(home: &Option<String>) -> (r: Vec<String>)
        ensures
            home is None ==> views_of(r@) == seq!["fb-adb"@, "adb"@],
            home matches Some(h) ==> views_of(r@) == seq!["fb-adb"@, "adb"@,
                h@ + "/Library/Android/sdk/platform-tools/adb"@],
    {
        let mut r: Vec<String> = Vec::new();
        r.push(to_owned_string("fb-adb"));
        r.push(to_owned_string("adb"));
        match home {
            Some(h) => {
                r.push(concat(h, "/Library/Android/sdk/platform-tools/adb"));
                assert(views_of(r@) =~= seq!["fb-adb"@, "adb"@, h@ + "/Library/Android/sdk/platform-tools/adb"@]);
            },
            None => {
                assert(views_of(r@) =~= seq!["fb-adb"@, "adb"@]);
            },
        }
        r
    }

    /// A manager for the `adb` that was found, if one was; without it, Android is
    /// left out.
    pub fn probe(found_adb: Option<String>) -> (r: Option<AndroidManager>)
        ensures
            found_adb is None ==> r is None,
            found_adb matches Some(a) ==> r matches Some(m) && m.adb@ == a@,
    {
        match found_adb {
            Some(adb) => Some(AndroidManager { adb }),
            None => None,
        }
    }

    /// The command that lists devices.
    pub fn devices_command(&self) -> (r: CommandLine)
        ensures
            r.program@ == self.adb@,
            r.args_view() == seq!["devices"@],
            r.must_succeed,
    {
        let mut args: Vec<String> = Vec::new();
        args.push(to_owned_string("devices"));
        let r = CommandLine { program: self.adb.clone(), args, must_succeed: true, quiet: false };
        assert(r.args_view() =~= seq!["devices"@]);
        r
    }

    /// The serials of the ready devices that `adb devices` printed.
    pub fn parse_devices(output: &str) -> (r: Vec<String>)
        ensures
            views_of(r@) == parse_devices_spec(output@),
    {
        let lines = split(output, '\n');
        let ghost lv = views_of(lines@);
        proof {
            crate::text::lemma_split_nonempty(output@, '\n');
        }
        let ghost rest = lv.drop_first();
        let mut r: Vec<String> = Vec::new();
        let mut i: usize = 1;
        while i < lines.len()
            invariant
                1 <= i <= lines@.len(),
                lv == views_of(lines@),
                rest == lv.drop_first(),
                views_of(r@) == device_ids_spec(rest.subrange(0, i - 1)),
            decreases lines@.len() - i,
        {
            assert(rest.subrange(0, i as int).drop_last() =~= rest.subrange(0, i - 1));
            assert(rest[i - 1] == lines@[i as int]@);
            match device_line(&lines[i]) {
                Some(id) => {
                    let ghost before = views_of(r@);
                    r.push(id);
                    assert(views_of(r@) =~= before.push(id@));
                },
                None => {},
            }
            i = i + 1;
        }
        assert(rest.subrange(0, rest.len() as int) =~= rest);
        r
    }

    /// The device `id` with the ABI list `abilist`, reached through this manager's `adb`.
    pub fn device(&self, id: &str, abilist: &str) -> (r: AndroidDevice)
        ensures
            r.adb@ == self.adb@,
            r.id@ == id@,
            views_of(r.supported_targets@) == map_abi_spec(split_spec(trim_spec(abilist@), ',')),
    {
        AndroidDevice::from_abilist(&self.adb, id, abilist)
    }
}

/// The NDK toolchain for one Android target.
#[derive(Clone, Debug)]
pub struct AndroidNdk {
    pub toolchain: String,
    pub gcc: String,
    pub arch: String,
    pub home: String,
    pub api: String,
    pub prebuilt_dir: String,
}

/// The NDK toolchain directory, compiler prefix and platform architecture of a target.
pub open spec fn ndk_details_spec(t: Seq<char>) -> (Seq<char>, Seq<char>, Seq<char>) {
    if t == "armv7-linux-androideabi"@ {
        ("arm-linux-androideabi"@, "arm-linux-androideabi"@, "arch-arm"@)
    } else if t == "aarch64-linux-android"@ {
        (t, t, "arch-arm64"@)
    } else if t == "i686-linux-android"@ {
        ("x86"@, t, "arch-x86"@)
    } else {
        (t, t, "arch-arm"@)
    }
}

/// The default API level of an NDK platform architecture.
pub open spec fn default_api_spec(arch: Seq<char>) -> Option<Seq<char>> {
    if arch == "arch-arm"@ || arch == "arch-mips"@ || arch == "arch-x86"@ {
        Some("android-18"@)
    } else if arch == "arch-arm64"@ || arch == "arch-mips64"@ || arch == "arch-x86_64"@ {
        Some("android-21"@)
    } else {
        None
    }
}

/// `<prebuilt>/bin/<gcc>-gcc`, the compiler driver of an NDK toolchain.
pub open spec fn ndk_gcc_spec(prebuilt_dir: Seq<char>, gcc: Seq<char>) -> Seq<char> {
    join_path(join_path(prebuilt_dir, "bin"@), gcc + "-gcc"@)
}

impl AndroidNdk {
    pub fn ndk_details(rust_target: &str) -> (r: (String, String, String))
        ensures
            (r.0@, r.1@, r.2@) == ndk_details_spec(rust_target@),
    {
        let t = to_owned_string(rust_target);
        if same_text(rust_target, "armv7-linux-androideabi") {
            (to_owned_string("arm-linux-androideabi"), to_owned_string("arm-linux-androideabi"), to_owned_string("arch-arm"))
        } else if same_text(rust_target, "aarch64-linux-android") {
            (t.clone(), t, to_owned_string("arch-arm64"))
        } else if same_text(rust_target, "i686-linux-android") {
            (to_owned_string("x86"), t, to_owned_string("arch-x86"))
        } else {
            (t.clone(), t, to_owned_string("arch-arm"))
        }
    }

    /// The default API level of an architecture; an unknown one is an error.
    pub fn default_api_for_arch(android_arch: &str) -> (r: Result<String, DinghyError>)
        ensures
            r matches Ok(a) ==> default_api_spec(android_arch@) == Some(a@),
            r matches Err(e) ==> default_api_spec(android_arch@) is None && e is UnknownArch,
    {
        if same_text(android_arch, "arch-arm") || same_text(android_arch, "arch-mips")
            || same_text(android_arch, "arch-x86") {
            Ok(to_owned_string("android-18"))
        } else if same_text(android_arch, "arch-arm64") || same_text(android_arch, "arch-mips64")
            || same_text(android_arch, "arch-x86_64") {
            Ok(to_owned_string("android-21"))
        } else {
            Err(DinghyError::UnknownArch(to_owned_string(android_arch)))
        }
    }

    /// `<ndk>/toolchains/<toolchain>-4.9/prebuilt`, whose single entry is the
    /// toolchain for the host.
    pub fn prebuilt_parent(ndk_home: &str, device_target: &str) -> (r: String)
        ensures
            r@ == join_path(join_path(join_path(ndk_home@, "toolchains"@), ndk_details_spec(device_target@).0 + "-4.9"@), "prebuilt"@),
    {
        let (toolchain, _gcc, _arch) = AndroidNdk::ndk_details(device_target);
        let a = join(ndk_home, "toolchains");
        let b = join(&a, &concat(&toolchain, "-4.9"));
        join(&b, "prebuilt")
    }

    /// The toolchain of the NDK at `ndk_home` for `device_target`, at API level
    /// `api` or the architecture's default, with its host toolchain at `prebuilt_dir`.
    pub fn for_target(device_target: &str, ndk_home: &str, api: Option<String>, prebuilt_dir: &str) -> (r: Result<AndroidNdk, DinghyError>)
        ensures
            r is Ok <==> (api is Some || default_api_spec(ndk_details_spec(device_target@).2) is Some),
            r matches Ok(n) ==> {
                &&& (n.toolchain@, n.gcc@, n.arch@) == ndk_details_spec(device_target@)
                &&& n.home@ == ndk_home@
                &&& n.prebuilt_dir@ == prebuilt_dir@
                &&& n.api@ == match api {
                    Some(a) => a@,
                    None => default_api_spec(ndk_details_spec(device_target@).2).unwrap(),
                }
            },
    {
        let (toolchain, gcc, arch) = AndroidNdk::ndk_details(device_target);
        let api = match api {
            Some(a) => a,
            None => AndroidNdk::default_api_for_arch(&arch)?,
        };
        Ok(AndroidNdk {
            toolchain,
            gcc,
            arch,
            home: to_owned_string(ndk_home),
            api,
            prebuilt_dir: to_owned_string(prebuilt_dir),
        })
    }

    fn gcc_path(&self) -> (r: String)
        ensures
            r@ == ndk_gcc_spec(self.prebuilt_dir@, self.gcc@),
    {
        let bin = join(&self.prebuilt_dir, "bin");
        join(&bin, &concat(&self.gcc, "-gcc"))
    }

    /// The compiler command: the quoted compiler driver.
    pub fn cc_command(&self) -> (r: String)
        ensures
            r@ == seq!['"'] + ndk_gcc_spec(self.prebuilt_dir@, self.gcc@) + seq!['"'],
    {
        let mut r = String::new();
        r.push('"');
        r.append(&self.gcc_path());
        r.push('"');
        r
    }

    /// The linker command: the compiler driver against the NDK platform's sysroot,
    /// `<ndk>/platforms/<api>/<arch>`.
    pub fn linker_command(&self) -> (r: String)
        ensures
            r@ == seq!['"'] + ndk_gcc_spec(self.prebuilt_dir@, self.gcc@) + "\" --sysroot "@
                + join_path(join_path(join_path(self.home@, "platforms"@), self.api@), self.arch@),
    {
        let mut r = String::new();
        r.push('"');
        r.append(&self.gcc_path());
        r.append("\" --sysroot ");
        let p = join(&self.home, "platforms");
        let q = join(&p, &self.api);
        r.append(&join(&q, &self.arch));
        r
    }
}

} // verus!
