use dinghy::android::{AndroidDevice, AndroidManager, AndroidNdk, map_abi_list};
use dinghy::bundle::{
    has_target_component, make_app, needs_copy, plan_copy, Build, BuildBundle, CopyEntry,
    CopyStep, FileMeta, Runnable, TestData,
};
use dinghy::errors::DinghyError;
use dinghy::overlay::{is_pkg_config_dir, path_between, pc_content, Overlay, OverlayScan, OverlayScope, Overlayer};
use dinghy::platform::{
    gcc_prefix, is_compatible, DeviceCompatibility, platform_kind, sysroot_candidates, Device, Dinghy, HostDevice,
    HostPlatform, IosManager, IosPlatform, Platform, PlatformConfiguration, PlatformKind,
    RegularPlatform, RegularToolchain, ToolsPresent,
};
use dinghy::ssh::{decimal_string, SshDevice, SshDeviceConfiguration, SshDeviceManager};
use dinghy::text::{join, split, trim};
use dinghy::toolchain::{
    envify, linker_var, parse_library_dirs, replace, shim_script, target_key, target_shim_path, BuildEnv, EnvOp,
    HostShell, Toolchain, ToolchainConfig,
};

fn s(x: &str) -> String {
    x.to_string()
}

fn strings(xs: &[&str]) -> Vec<String> {
    xs.iter().map(|x| x.to_string()).collect()
}

fn empty_conf() -> PlatformConfiguration {
    PlatformConfiguration {
        rustc_triple: None,
        toolchain: None,
        deb_multiarch: None,
        overlays: vec![],
        env: vec![],
    }
}

fn ssh_conf(port: Option<u16>, path: Option<&str>, platform: Option<&str>) -> SshDeviceConfiguration {
    SshDeviceConfiguration {
        hostname: s("board.local"),
        username: s("pi"),
        port,
        path: path.map(s),
        platform: platform.map(s),
        toolchain: None,
    }
}

fn toolchain_config() -> ToolchainConfig {
    ToolchainConfig {
        bin_dir: s("/opt/tc/bin"),
        root: s("/opt/tc"),
        rustc_triple: s("armv7-unknown-linux-gnueabihf"),
        sysroot: s("/opt/tc/sysroot"),
        cc: s("gcc"),
        binutils_prefix: s("arm-linux-gnueabihf"),
        cc_prefix: s("arm-linux-gnueabihf"),
    }
}

fn regular(id: &str, triple: &str) -> RegularPlatform {
    let mut tc = toolchain_config();
    tc.rustc_triple = s(triple);
    RegularPlatform { configuration: empty_conf(), id: s(id), toolchain: tc }
}

fn ops(env: &BuildEnv) -> Vec<(String, String, String)> {
    env.ops
        .iter()
        .map(|o| match o {
            EnvOp::Assign { key, value } => (s("set"), key.clone(), value.clone()),
            EnvOp::SetIfUndefined { key, value } => (s("default"), key.clone(), value.clone()),
            EnvOp::AppendPath { key, value } => (s("append"), key.clone(), value.clone()),
            EnvOp::PrependPath { key, value } => (s("prepend"), key.clone(), value.clone()),
        })
        .collect()
}

fn op(kind: &str, k: &str, v: &str) -> (String, String, String) {
    (s(kind), s(k), s(v))
}

// The sample application's own tests.

#[test]
fn it_works() {
}

// ABI mapping.

#[test]
fn abi_list_maps_known_tokens_in_order() {
    let r = map_abi_list(&strings(&["x86", "mips", "arm64-v8a", "armeabi", "armeabi-v7a"]));
    assert_eq!(
        r,
        strings(&[
            "i686-linux-android",
            "aarch64-linux-android",
            "arm-linux-androideabi",
            "armv7-linux-androideabi"
        ])
    );
}

#[test]
fn abi_list_drops_unknown_tokens() {
    assert_eq!(map_abi_list(&strings(&["mips", "riscv", ""])), Vec::<String>::new());
    assert_eq!(map_abi_list(&vec![]), Vec::<String>::new());
}

#[test]
fn android_device_reads_getprop_output() {
    let d = AndroidDevice::from_abilist("adb", "emulator-5554", " arm64-v8a,armeabi-v7a,armeabi\n");
    assert_eq!(d.id, "emulator-5554");
    assert_eq!(
        d.supported_targets,
        strings(&["aarch64-linux-android", "armv7-linux-androideabi", "arm-linux-androideabi"])
    );
    assert_eq!(d.target(), "arm-linux-androideabi");
    assert!(d.can_run("aarch64-linux-android"));
    assert!(!d.can_run("x86_64-linux-android"));
}

#[test]
fn android_target_falls_back_to_first() {
    let d = AndroidDevice::from_abilist("adb", "x", "x86,arm64-v8a");
    assert_eq!(d.target(), "i686-linux-android");
    let none = AndroidDevice::from_abilist("adb", "x", "mips");
    assert_eq!(none.target(), "");
}

#[test]
fn adb_devices_output_is_parsed() {
    let out = "List of devices attached\nemulator-5554\tdevice\r\n0123abcd\tdevice\nbadone\toffline\n\tdevice\n\n";
    assert_eq!(AndroidManager::parse_devices(out), strings(&["emulator-5554", "0123abcd"]));
    assert_eq!(AndroidManager::parse_devices("emulator-5554\tdevice\n"), Vec::<String>::new());
}

#[test]
fn adb_candidates_and_probe() {
    assert_eq!(AndroidManager::adb_candidates(&None), strings(&["fb-adb", "adb"]));
    assert_eq!(
        AndroidManager::adb_candidates(&Some(s("/home/me")))[2],
        "/home/me/Library/Android/sdk/platform-tools/adb"
    );
    assert!(AndroidManager::probe(None).is_none());
    assert_eq!(AndroidManager::probe(Some(s("adb"))).unwrap().adb, "adb");
}

#[test]
fn android_commands() {
    let d = AndroidDevice::from_abilist("adb", "serial1", "armeabi");
    let b = BuildBundle {
        id: s("app"),
        bundle_dir: s("/w/target/debug/dinghy/app"),
        bundle_exe: s("/w/target/debug/dinghy/app/app"),
        lib_dir: s("/w/target/debug/dinghy/app"),
        root_dir: s("/w/target/debug/dinghy"),
    };
    let cs = d.install_commands(&b);
    assert_eq!(cs[0].args, strings(&["-s", "serial1", "shell", "rm", "-rf", "/data/local/tmp/dinghy/app"]));
    assert!(!cs[0].must_succeed);
    assert_eq!(cs[1].args, strings(&["-s", "serial1", "push", "/w/target/debug/dinghy/app", "/data/local/tmp/dinghy/app"]));
    assert_eq!(cs[2].args, strings(&["-s", "serial1", "shell", "chmod", "755", "/data/local/tmp/dinghy/app/app"]));
    let run = d.run_command(&b, &strings(&["--nocapture"]), &strings(&["A=1", "B=2"]));
    assert_eq!(run.program, "adb");
    assert_eq!(
        run.args,
        strings(&[
            "-s",
            "serial1",
            "shell",
            "cd \"/data/local/tmp/dinghy/app\"; DINGHY=1 A=1 B=2",
            "/data/local/tmp/dinghy/app/app",
            "--nocapture"
        ])
    );
    let clean = d.clean_command(&b);
    assert_eq!(clean.args, strings(&["-s", "serial1", "shell", "rm", "-rf", "/data/local/tmp/dinghy/app"]));
    assert!(matches!(d.debug_app(&b), Err(DinghyError::UnsupportedOperation(_))));
    assert_eq!(AndroidDevice::abilist_command("adb", "serial1").args,
        strings(&["-s", "serial1", "shell", "getprop", "ro.product.cpu.abilist"]));
}

#[test]
fn ndk_details_and_api_levels() {
    let (tc, gcc, arch) = AndroidNdk::ndk_details("armv7-linux-androideabi");
    assert_eq!((tc.as_str(), gcc.as_str(), arch.as_str()), ("arm-linux-androideabi", "arm-linux-androideabi", "arch-arm"));
    let (tc, gcc, arch) = AndroidNdk::ndk_details("i686-linux-android");
    assert_eq!((tc.as_str(), gcc.as_str(), arch.as_str()), ("x86", "i686-linux-android", "arch-x86"));
    let (_, _, arch) = AndroidNdk::ndk_details("aarch64-linux-android");
    assert_eq!(arch, "arch-arm64");
    assert_eq!(AndroidNdk::default_api_for_arch("arch-arm").unwrap(), "android-18");
    assert_eq!(AndroidNdk::default_api_for_arch("arch-x86_64").unwrap(), "android-21");
    assert!(matches!(AndroidNdk::default_api_for_arch("arch-sparc"), Err(DinghyError::UnknownArch(_))));
}

#[test]
fn ndk_commands() {
    let ndk = AndroidNdk::for_target("aarch64-linux-android", "/ndk", None, "/ndk/pre/linux-x86_64").unwrap();
    assert_eq!(ndk.api, "android-21");
    assert_eq!(ndk.cc_command(), "\"/ndk/pre/linux-x86_64/bin/aarch64-linux-android-gcc\"");
    assert_eq!(
        ndk.linker_command(),
        "\"/ndk/pre/linux-x86_64/bin/aarch64-linux-android-gcc\" --sysroot /ndk/platforms/android-21/arch-arm64"
    );
    let pinned = AndroidNdk::for_target("armv7-linux-androideabi", "/ndk", Some(s("android-24")), "/p").unwrap();
    assert_eq!(pinned.api, "android-24");
    assert_eq!(
        AndroidNdk::prebuilt_parent("/ndk", "i686-linux-android"),
        "/ndk/toolchains/x86-4.9/prebuilt"
    );
}

// Overlays.

fn overlay(id: &str, path: &str) -> Overlay {
    Overlay { id: s(id), path: s(path), scope: OverlayScope::Application }
}

#[test]
fn overlay_dedup_keeps_nearest() {
    let found = vec![vec![overlay("A", "/p1"), overlay("A", "/p2")], vec![overlay("B", "/p3")]];
    let r = Overlayer::resolve(vec![], found);
    assert_eq!(r.len(), 2);
    assert_eq!(r[0].id, "A");
    assert_eq!(r[0].path, "/p1");
    assert_eq!(r[1].id, "B");
    assert_eq!(r[1].path, "/p3");
}

#[test]
fn configured_overlays_take_precedence() {
    let conf = Overlayer::from_conf(&vec![(s("ssl"), s("/conf/ssl"))]);
    let dir = Overlayer::from_directory("/proj/.dinghy/overlay/pi", &strings(&["ssl", "zlib"]));
    assert_eq!(dir[1].path, "/proj/.dinghy/overlay/pi/zlib");
    let r = Overlayer::resolve(conf, vec![dir]);
    assert_eq!(r.iter().map(|o| (o.id.clone(), o.path.clone())).collect::<Vec<_>>(),
        vec![(s("ssl"), s("/conf/ssl")), (s("zlib"), s("/proj/.dinghy/overlay/pi/zlib"))]);
}

#[test]
fn overlay_candidate_paths() {
    let o = Overlayer::new("pi", Some(s("armv7-unknown-linux-gnueabihf")), "/sysroot", "/work");
    assert_eq!(
        o.candidate_paths("/home/me/proj", &Some(s("/home/me"))),
        strings(&["/home/me/proj/.dinghy/overlay/pi", "/home/me/.dinghy/overlay/pi", "/home/.dinghy/overlay/pi"])
    );
    assert_eq!(
        o.candidate_paths("/srv/proj", &Some(s("/home/me"))),
        strings(&["/srv/proj/.dinghy/overlay/pi", "/srv/.dinghy/overlay/pi", "/home/me/.dinghy/overlay/pi"])
    );
    assert_eq!(o.candidate_paths("/", &None), Vec::<String>::new());
}

#[test]
fn lib_names() {
    assert_eq!(Overlayer::lib_name("/x/libfoo.so").unwrap(), "foo");
    assert_eq!(Overlayer::lib_name("libfoo.so.1.2").unwrap(), "foo");
    assert_eq!(Overlayer::lib_name("bar.so").unwrap(), "bar");
    assert!(matches!(Overlayer::lib_name("/x/lib.so"), Err(DinghyError::InvalidLibName(_))));
}

#[test]
fn pkg_config_detection_and_content() {
    assert!(is_pkg_config_dir("pkgconfig", &vec![]));
    assert!(is_pkg_config_dir("lib", &strings(&["a.txt", "ssl.pc"])));
    assert!(!is_pkg_config_dir("lib", &strings(&["libssl.so"])));
    assert_eq!(
        pc_content("ssl", &strings(&["ssl", "crypto"])),
        "prefix:/\nexec_prefix:${prefix}\nName: ssl\nDescription: ssl\nVersion: unspecified\nLibs: -L${prefix}  -lssl -lcrypto\nCflags: -I${prefix}"
    );
}

#[test]
fn path_between_climbs_out_of_sysroot() {
    assert_eq!(path_between("/opt/tc/sysroot", "/home/me/ov"), "/../../../home/me/ov");
    assert_eq!(path_between("/", "/a"), "/a");
}

#[test]
fn apply_overlay_plans_environment_and_descriptors() {
    let o = Overlayer::new("pi", Some(s("arm-linux")), "/sys", "/work");
    let mut env = BuildEnv::new("/proj", HostShell::Posix);
    let items = vec![
        (overlay("ssl", "/ov/ssl"), OverlayScan { pkg_config_dirs: strings(&["/ov/ssl/lib/pkgconfig"]), top_level_files: vec![] }),
        (overlay("z", "/ov/z"), OverlayScan { pkg_config_dirs: vec![], top_level_files: strings(&["/ov/z/libz.so", "/ov/z/README", "/ov/z/libq.so.1"]) }),
    ];
    let pcs = o.apply_overlay(&mut env, &items).unwrap();
    assert_eq!(pcs.len(), 1);
    assert_eq!(pcs[0].content, o.generate_pkg_config_file(&items[1].0, &items[1].1.top_level_files).unwrap().content);
    assert_eq!(pcs[0].path, "/work/z.pc");
    assert!(pcs[0].content.contains("Libs: -L${prefix}  -lz\n"));
    assert_eq!(
        ops(&env),
        vec![
            op("append", "PKG_CONFIG_LIBDIR_arm_linux", "/work"),
            op("append", "PKG_CONFIG_LIBDIR_arm_linux", "/ov/ssl/lib/pkgconfig"),
            op("default", "PKG_CONFIG_SSL_PREFIX", "/../ov/ssl"),
            op("default", "PKG_CONFIG_Z_PREFIX", "/../ov/z"),
        ]
    );
    let bad = vec![(overlay("b", "/ov/b"), OverlayScan { pkg_config_dirs: vec![], top_level_files: strings(&["lib.so"]) })];
    let mut env2 = BuildEnv::new("/proj", HostShell::Posix);
    assert!(matches!(o.apply_overlay(&mut env2, &bad), Err(DinghyError::InvalidLibName(_))));
}

// Toolchain shims.

#[test]
fn envify_and_keys() {
    assert_eq!(envify("aarch64-linux-android"), "AARCH64_LINUX_ANDROID");
    assert_eq!(envify("PKG_CONFIG_my-lib_PREFIX"), "PKG_CONFIG_MY_LIB_PREFIX");
    assert_eq!(target_key("PKG_CONFIG_LIBDIR", "arm-linux-androideabi"), "PKG_CONFIG_LIBDIR_arm_linux_androideabi");
    assert_eq!(linker_var("armv7-linux-androideabi"), "CARGO_TARGET_ARMV7_LINUX_ANDROIDEABI_LINKER");
}

#[test]
fn shim_scripts() {
    assert_eq!(shim_script(HostShell::Posix, "gcc -v"), "#!/bin/sh\ngcc -v \"$@\"\n\n");
    assert_eq!(shim_script(HostShell::Windows, "gcc"), "gcc %*\n\n");
    assert_eq!(target_shim_path("/proj", "arm-linux", "pi"), "/proj/target/arm-linux/pi");
}

#[test]
fn toolchain_setup_records_shims_and_variables() {
    let t = Toolchain { rustc_triple: s("aarch64-linux-android") };
    let mut env = BuildEnv::new("/proj", HostShell::Posix);
    t.setup_cc(&mut env, "android", "clang");
    t.setup_linker(&mut env, "android", "clang --sysroot /s");
    t.setup_ar(&mut env, "llvm-ar");
    assert_eq!(env.shims.len(), 2);
    assert_eq!(env.shims[0].path, "/proj/target/aarch64-linux-android/android/cc");
    assert_eq!(env.shims[0].script, "#!/bin/sh\nclang \"$@\"\n\n");
    assert_eq!(env.shims[1].path, "/proj/target/aarch64-linux-android/android/linker");
    assert_eq!(
        ops(&env),
        vec![
            op("set", "TARGET_CC", "/proj/target/aarch64-linux-android/android/cc"),
            op("set", "CARGO_TARGET_AARCH64_LINUX_ANDROID_LINKER", "/proj/target/aarch64-linux-android/android/linker"),
            op("set", "TARGET_AR", "llvm-ar"),
        ]
    );
    let mut win = BuildEnv::new("C:/proj", HostShell::Windows);
    t.setup_cc(&mut win, "android", "clang");
    assert_eq!(win.shims[0].path, "C:/proj/target/aarch64-linux-android/android/cc.bat");
}

#[test]
fn shim_executables_renames_triple() {
    let tc = toolchain_config();
    assert_eq!(tc.executable("strip"), "/opt/tc/bin/arm-linux-gnueabihf-strip");
    let mut env = BuildEnv::new("/p", HostShell::Posix);
    tc.shim_executables(&mut env, "pi", &strings(&["arm-linux-gnueabihf-gcc", "make"]));
    assert_eq!(env.shims[0].path, "/p/target/armv7-unknown-linux-gnueabihf/pi/armv7-unknown-linux-gnueabihf-gcc");
    assert_eq!(env.shims[0].script, "#!/bin/sh\n/opt/tc/bin/arm-linux-gnueabihf-gcc \"$@\"\n\n");
    assert_eq!(env.shims[1].path, "/p/target/armv7-unknown-linux-gnueabihf/pi/make");
    assert_eq!(ops(&env), vec![op("prepend", "PATH", "/p/target/armv7-unknown-linux-gnueabihf/pi")]);
    assert_eq!(replace("a-b-a", "a", "xy"), "xy-b-xy");
    assert_eq!(replace("abc", "", "z"), "abc");
}

#[test]
fn pkg_config_and_sysroot_setup() {
    let tc = toolchain_config();
    let mut env = BuildEnv::new("/p", HostShell::Posix);
    tc.setup_pkg_config(&mut env, &strings(&["/opt/tc/a/pkgconfig", "/opt/tc/b/pkgconfig"]));
    tc.setup_sysroot(&mut env);
    assert_eq!(
        ops(&env),
        vec![
            op("set", "PKG_CONFIG_ALLOW_CROSS", "1"),
            op("set", "PKG_CONFIG_LIBPATH_armv7_unknown_linux_gnueabihf", ""),
            op("append", "PKG_CONFIG_LIBDIR_armv7_unknown_linux_gnueabihf", "/opt/tc/a/pkgconfig:/opt/tc/b/pkgconfig"),
            op("set", "PKG_CONFIG_SYSROOT_DIR_armv7_unknown_linux_gnueabihf", "/opt/tc/sysroot"),
            op("set", "TARGET_SYSROOT", "/opt/tc/sysroot"),
        ]
    );
}

// Bundles.

fn sample_bundle() -> BuildBundle {
    let build = Build { runnables: vec![], dynamic_libraries: strings(&["/w/overlay/libssl.so"]) };
    let runnable = Runnable { exe: s("/w/target/debug/mytest-1234"), source: s("/w") };
    make_app(&build, &runnable).unwrap().bundle
}

#[test]
fn bundle_layout() {
    let build = Build { runnables: vec![], dynamic_libraries: strings(&["/w/overlay/libssl.so", "/x/libz.so"]) };
    let runnable = Runnable { exe: s("/w/target/debug/mytest-1234"), source: s("/w") };
    let plan = make_app(&build, &runnable).unwrap();
    assert_eq!(plan.bundle.root_dir, "/w/target/debug/dinghy");
    assert_eq!(plan.bundle.bundle_dir, "/w/target/debug/dinghy/mytest-1234");
    assert_eq!(plan.bundle.bundle_exe, "/w/target/debug/dinghy/mytest-1234/mytest-1234");
    assert_eq!(plan.bundle.id, "mytest-1234");
    assert_eq!(
        plan.copies,
        vec![
            (s("/w/target/debug/mytest-1234"), s("/w/target/debug/dinghy/mytest-1234/mytest-1234")),
            (s("/w/overlay/libssl.so"), s("/w/target/debug/dinghy/mytest-1234/libssl.so")),
            (s("/x/libz.so"), s("/w/target/debug/dinghy/mytest-1234/libz.so")),
        ]
    );
    assert_eq!(plan.source_dest, "/w/target/debug/dinghy/mytest-1234/src");
    assert_eq!(plan.test_data_dest, "/w/target/debug/dinghy/mytest-1234/test_data");
}

#[test]
fn bundle_rejects_paths_without_file_names() {
    let r = Runnable { exe: s("/"), source: s("/w") };
    assert!(matches!(make_app(&Build { runnables: vec![], dynamic_libraries: vec![] }, &r), Err(DinghyError::InvalidPath(_))));
    let ok = Runnable { exe: s("/w/app"), source: s("/w") };
    let bad_lib = Build { runnables: vec![], dynamic_libraries: strings(&["/w/lib/"]) };
    assert!(matches!(make_app(&bad_lib, &ok), Err(DinghyError::InvalidPath(_))));
}

#[test]
fn bundle_prefix_rewrite_is_idempotent() {
    let b = sample_bundle();
    let once = b.replace_prefix_with("/tmp/dinghy").unwrap();
    assert_eq!(once.bundle_dir, "/tmp/dinghy/mytest-1234");
    assert_eq!(once.bundle_exe, "/tmp/dinghy/mytest-1234/mytest-1234");
    assert_eq!(once.root_dir, "/tmp/dinghy");
    let twice = once.replace_prefix_with("/tmp/dinghy").unwrap();
    assert_eq!(twice.bundle_dir, once.bundle_dir);
    assert_eq!(twice.bundle_exe, once.bundle_exe);
    assert_eq!(twice.lib_dir, once.lib_dir);
    assert_eq!(twice.root_dir, once.root_dir);
    let back = once.replace_prefix_with("/w/target/debug/dinghy").unwrap();
    assert_eq!(back.bundle_dir, b.bundle_dir);
    assert_eq!(back.bundle_exe, b.bundle_exe);
    assert_eq!(back.lib_dir, b.lib_dir);
    assert_eq!(back.root_dir, b.root_dir);
    let mut broken = b.clone();
    broken.bundle_exe = s("/elsewhere/x");
    assert!(matches!(broken.replace_prefix_with("/tmp/dinghy"), Err(DinghyError::InvalidPath(_))));
}

fn file(len: u64, modified: u64) -> FileMeta {
    FileMeta { is_dir: false, len, modified }
}

fn dir() -> FileMeta {
    FileMeta { is_dir: true, len: 0, modified: 0 }
}

fn copies(steps: &[CopyStep]) -> usize {
    steps.iter().filter(|s| matches!(s, CopyStep::CopyFile(_))).count()
}

#[test]
fn incremental_copy_of_unchanged_tree_copies_nothing() {
    let entries = vec![
        CopyEntry { rel_path: s("src"), source: dir(), target: Some(dir()) },
        CopyEntry { rel_path: s("src/lib.rs"), source: file(10, 5), target: Some(file(10, 7)) },
        CopyEntry { rel_path: s("Cargo.toml"), source: file(3, 5), target: Some(file(3, 5)) },
    ];
    assert_eq!(copies(&plan_copy(&entries)), 0);
}

#[test]
fn incremental_copy_of_one_changed_file_copies_it() {
    let entries = vec![
        CopyEntry { rel_path: s("src"), source: dir(), target: Some(dir()) },
        CopyEntry { rel_path: s("src/lib.rs"), source: file(11, 5), target: Some(file(10, 7)) },
        CopyEntry { rel_path: s("Cargo.toml"), source: file(3, 5), target: Some(file(3, 5)) },
    ];
    let steps = plan_copy(&entries);
    assert_eq!(copies(&steps), 1);
    assert!(matches!(&steps[1], CopyStep::CopyFile(p) if p == "src/lib.rs"));
}

#[test]
fn incremental_copy_skips_target_and_replaces_kinds() {
    assert!(has_target_component("target/debug/x"));
    assert!(has_target_component("a/target"));
    assert!(!has_target_component("targets/x"));
    let entries = vec![
        CopyEntry { rel_path: s("target/debug/app"), source: file(1, 1), target: None },
        CopyEntry { rel_path: s("data"), source: dir(), target: Some(file(1, 1)) },
        CopyEntry { rel_path: s("new.txt"), source: file(1, 9), target: None },
        CopyEntry { rel_path: s("old.txt"), source: file(1, 9), target: Some(file(1, 3)) },
        CopyEntry { rel_path: s("was_dir"), source: file(1, 1), target: Some(dir()) },
    ];
    let steps = plan_copy(&entries);
    let names: Vec<String> = steps
        .iter()
        .map(|s| match s {
            CopyStep::Remove(p) => format!("rm {}", p),
            CopyStep::MakeDir(p) => format!("mkdir {}", p),
            CopyStep::CopyFile(p) => format!("cp {}", p),
        })
        .collect();
    assert_eq!(names, strings(&["rm data", "mkdir data", "cp new.txt", "cp old.txt", "rm was_dir", "cp was_dir"]));
    assert!(needs_copy(file(1, 2), None));
    assert!(!needs_copy(file(1, 2), Some(file(1, 2))));
}

#[test]
fn test_data_paths() {
    let td = TestData { source: s("data/in"), target: s("in"), base: s("/proj/.dinghy.toml"), copy_git_ignored: false };
    assert_eq!(td.source_path(), "/proj/data/in");
    assert_eq!(td.target_path("/b/test_data"), "/b/test_data/in");
}

// SSH.

#[test]
fn ssh_commands() {
    let d = SshDevice { id: s("pi"), conf: ssh_conf(Some(2222), None, Some("pi-platform")) };
    assert_eq!(d.ssh_command_with(false).args, strings(&["pi@board.local", "-p", "2222"]));
    assert_eq!(
        d.ssh_command_with(true).args,
        strings(&["pi@board.local", "-p", "2222", "-t", "-o", "LogLevel=QUIET"])
    );
    let probed = d.ssh_command();
    assert_eq!(probed.program, "ssh");
    assert_eq!(&probed.args[..3], &strings(&["pi@board.local", "-p", "2222"])[..]);
    let r = d.rsync("/a", "/b", false);
    assert_eq!(r.program, "/usr/bin/rsync");
    assert_eq!(r.args, strings(&["-a", "-v", "-e", "ssh -p 2222", "/a/", "pi@board.local:/b/"]));
    assert!(r.quiet);
    assert!(!d.rsync("/a", "/b", true).quiet);
    assert_eq!(decimal_string(0), "0");
    assert_eq!(decimal_string(65535), "65535");
}

#[test]
fn ssh_install_and_run_scenario() {
    let b = sample_bundle();
    assert_eq!(b.bundle_dir, "/w/target/debug/dinghy/mytest-1234");
    let d = SshDevice { id: s("pi"), conf: ssh_conf(None, Some("/data"), None) };
    let remote = d.to_remote_bundle(&b).unwrap();
    assert_eq!(remote.bundle_dir, "/data/dinghy/mytest-1234");
    let cs = d.install_commands(&b, false, false).unwrap();
    let rsyncs: Vec<_> = cs.iter().filter(|c| c.program == "/usr/bin/rsync").collect();
    let mkdirs: Vec<_> = cs.iter().filter(|c| c.args.iter().any(|a| a == "mkdir")).collect();
    assert_eq!(rsyncs.len(), 2);
    assert!(mkdirs.len() <= 1);
    assert_eq!(cs[0].args, strings(&["pi@board.local", "mkdir", "-p", "/data/dinghy/mytest-1234"]));
    assert_eq!(rsyncs[0].args, strings(&["-a", "-v", "/w/target/debug/dinghy/mytest-1234/", "pi@board.local:/data/dinghy/mytest-1234/"]));
    assert_eq!(rsyncs[1].args[2], "/w/target/debug/dinghy/mytest-1234/");
    let run = d.run_command(&b, &strings(&["--test-threads", "1"]), &strings(&["RUST_LOG=debug"]), false).unwrap();
    assert_eq!(run.args.len(), 4);
    let line = &run.args[1];
    assert_eq!(
        line,
        "cd '/data/dinghy/mytest-1234' ; RUST_LOG=debug RUST_BACKTRACE=1 DINGHY=1 LD_LIBRARY_PATH=\"/data/dinghy/mytest-1234:$LD_LIBRARY_PATH\" /data/dinghy/mytest-1234/mytest-1234"
    );
    assert!(line.find("DINGHY=1").unwrap() < line.find("/data/dinghy/mytest-1234/mytest-1234").unwrap());
    assert_eq!(&run.args[2..], &strings(&["--test-threads", "1"])[..]);
    let clean = d.clean_command(&b, false).unwrap();
    assert_eq!(clean.args, strings(&["pi@board.local", "rm -rf /data/dinghy/mytest-1234"]));
    assert!(matches!(d.debug_app(&b), Err(DinghyError::UnsupportedOperation(_))));
    assert!(matches!(cs[1].outcome(false), Err(DinghyError::TransportFailure(_))));
    assert!(cs[1].outcome(true).is_ok());
    assert!(cs[0].outcome(false).is_ok());
    assert_eq!(d.ssh_config().path.as_deref(), Some("/data"));
}

#[test]
fn ssh_manager_lists_configured_devices() {
    let m = SshDeviceManager::probe(vec![(s("a"), ssh_conf(None, None, None)), (s("b"), ssh_conf(Some(22), None, None))]).unwrap();
    let ds = m.devices();
    assert_eq!(ds.len(), 2);
    assert_eq!(ds[1].id, "b");
    assert_eq!(ds[1].name(), "b");
    assert_eq!(ds[1].conf.port, Some(22));
}

// Platforms and compatibility.

#[test]
fn compatibility_by_declared_triples() {
    let d = Device::Android(AndroidDevice::from_abilist("adb", "x", "arm64-v8a,x86"));
    assert!(is_compatible(&d, &Platform::Regular(regular("a", "aarch64-linux-android"))));
    assert!(!is_compatible(&d, &Platform::Regular(regular("b", "armv7-linux-androideabi"))));
    assert!(!is_compatible(&d, &Platform::Host(HostPlatform { id: s("host") })));
    let ssh = Device::Ssh(SshDevice { id: s("pi"), conf: ssh_conf(None, None, Some("pi")) });
    assert!(is_compatible(&ssh, &Platform::Regular(regular("pi", "armv7-unknown-linux-gnueabihf"))));
    assert!(!is_compatible(&ssh, &Platform::Regular(regular("other", "armv7-unknown-linux-gnueabihf"))));
    assert!(is_compatible(&Device::Host(HostDevice {}), &Platform::Host(HostPlatform { id: s("host") })));
}

#[test]
fn devices_answer_per_platform_kind() {
    let a = AndroidDevice::from_abilist("adb", "x", "armeabi-v7a");
    assert!(a.is_compatible_with_regular_platform(&regular("a", "armv7-linux-androideabi")));
    assert!(!a.is_compatible_with_regular_platform(&regular("a", "i686-linux-android")));
    assert!(!a.is_compatible_with_host_platform(&HostPlatform { id: s("host") }));
    assert!(!a.is_compatible_with_ios_platform(&IosPlatform::new("i", "aarch64-apple-ios", empty_conf())));
    let h = HostDevice {};
    assert!(h.is_compatible_with_host_platform(&HostPlatform { id: s("host") }));
    assert!(!h.is_compatible_with_regular_platform(&regular("a", "armv7-linux-androideabi")));
    let ssh = SshDevice { id: s("pi"), conf: ssh_conf(None, None, Some("a")) };
    assert!(ssh.is_compatible_with_regular_platform(&regular("a", "armv7-unknown-linux-gnueabihf")));
}

#[test]
fn orchestrator_matches_devices() {
    let platforms = vec![
        (s("android"), Platform::Regular(regular("android", "aarch64-linux-android"))),
        (s("host"), Platform::Host(HostPlatform { id: s("host") })),
    ];
    let devices = vec![
        Device::Host(HostDevice {}),
        Device::Android(AndroidDevice::from_abilist("adb", "x", "arm64-v8a")),
    ];
    let dinghy = Dinghy::new(platforms, devices);
    assert_eq!(dinghy.platform_by_name("host"), Some(1));
    assert_eq!(dinghy.platform_by_name("ios"), None);
    assert_eq!(dinghy.device_for(&dinghy.platforms[0].1).unwrap(), 1);
    let lonely = Platform::Regular(regular("mips", "mips-unknown-linux-gnu"));
    assert!(matches!(dinghy.device_for(&lonely), Err(DinghyError::CompatibilityMismatch(_))));
}

#[test]
fn platform_kinds() {
    let mut c = empty_conf();
    assert_eq!(platform_kind("h", &c).unwrap(), PlatformKind::Host);
    c.rustc_triple = Some(s("aarch64-apple-ios"));
    assert_eq!(platform_kind("i", &c).unwrap(), PlatformKind::Ios);
    c.rustc_triple = Some(s("armv7-unknown-linux-gnueabihf"));
    assert!(matches!(platform_kind("r", &c), Err(DinghyError::Configuration(_))));
    c.toolchain = Some(s("/opt/tc"));
    assert_eq!(platform_kind("r", &c).unwrap(), PlatformKind::Regular);
}

#[test]
fn regular_platform_from_toolchain_directory() {
    assert_eq!(gcc_prefix(&strings(&["ld", "arm-linux-gnueabihf-gcc", "x-gcc"])).unwrap(), "arm-linux-gnueabihf");
    assert_eq!(gcc_prefix(&strings(&["arm-none-eabi-gcc.exe"])).unwrap(), "arm-none-eabi");
    assert_eq!(gcc_prefix(&strings(&["ld", "as"])), None);
    let p = RegularPlatform::new(empty_conf(), "pi", "armv7-unknown-linux-gnueabihf", "/opt/tc",
        &strings(&["arm-linux-gnueabihf-gcc"]), Some(s("/opt/tc/arm/sysroot"))).unwrap();
    assert_eq!(p.toolchain.bin_dir, "/opt/tc/bin");
    assert_eq!(p.toolchain.binutils_prefix, "arm-linux-gnueabihf");
    assert_eq!(p.binary("ar"), "/opt/tc/bin/arm-linux-gnueabihf-ar");
    let strip = p.strip_command("/w/app");
    assert_eq!(strip.program, "/opt/tc/bin/arm-linux-gnueabihf-strip");
    assert!(!strip.must_succeed);
    assert!(strip.outcome(false).is_ok());
    assert!(matches!(
        RegularPlatform::new(empty_conf(), "pi", "t", "/opt/tc", &strings(&["ld"]), Some(s("/s"))),
        Err(DinghyError::ToolchainMalformed(_))
    ));
    assert!(matches!(
        RegularPlatform::new(empty_conf(), "pi", "t", "/opt/tc", &strings(&["a-gcc"]), None),
        Err(DinghyError::ToolchainMalformed(_))
    ));
    let mut deb = empty_conf();
    deb.deb_multiarch = Some(s("aarch64-linux-gnu"));
    let d = RegularPlatform::new(deb, "deb", "aarch64-unknown-linux-gnu", "/ignored", &vec![], None).unwrap();
    assert_eq!(d.toolchain.bin_dir, "/usr/bin");
    assert_eq!(d.toolchain.cc_executable("gcc"), "/usr/bin/aarch64-linux-gnu-gcc");
    assert_eq!(
        sysroot_candidates("/opt/tc", &strings(&["arm"])),
        strings(&["/opt/tc/sysroot", "/opt/tc/arm/sysroot"])
    );
}

#[test]
fn regular_platform_build_environment() {
    let mut p = regular("pi", "armv7-unknown-linux-gnueabihf");
    p.configuration.env = vec![(s("FOO"), s("bar"))];
    assert_eq!(
        p.linker_command(true, &strings(&["ssl"])),
        "/opt/tc/bin/arm-linux-gnueabihf-gcc -Wl,--verbose -v --sysroot /opt/tc/sysroot -lssl"
    );
    let mut env = BuildEnv::new("/proj", HostShell::Posix);
    let tools = ToolsPresent { ar: true, assembler: false, cxx: true, cpp: false, fortran: false };
    p.prepare_build(&mut env, false, &vec![], tools, &vec![], &strings(&["arm-linux-gnueabihf-ld"]));
    let o = ops(&env);
    assert_eq!(o[0], op("set", "LIBRARY_PATH", ""));
    assert_eq!(o[1], op("set", "LD_LIBRARY_PATH", ""));
    assert_eq!(o[2], op("set", "FOO", "bar"));
    assert_eq!(o[3], op("set", "TARGET_CC", "/proj/target/armv7-unknown-linux-gnueabihf/pi/cc"));
    assert_eq!(o[4], op("set", "TARGET_AR", "/opt/tc/bin/arm-linux-gnueabihf-ar"));
    assert_eq!(o[5], op("set", "TARGET_CXX", "/opt/tc/bin/arm-linux-gnueabihf-c++"));
    assert_eq!(o[6].1, "CARGO_TARGET_ARMV7_UNKNOWN_LINUX_GNUEABIHF_LINKER");
    assert_eq!(o.last().unwrap(), &op("prepend", "PATH", "/proj/target/armv7-unknown-linux-gnueabihf/pi"));
    assert_eq!(env.shims[1].script, "#!/bin/sh\n/opt/tc/bin/arm-linux-gnueabihf-gcc  --sysroot /opt/tc/sysroot \"$@\"\n\n");
    assert_eq!(env.shims[2].path, "/proj/target/armv7-unknown-linux-gnueabihf/pi/armv7-unknown-linux-gnueabihf-ld");
}

#[test]
fn ios_platform() {
    let sim = IosPlatform::new("sim", "x86_64-apple-ios", empty_conf());
    assert!(sim.sim);
    assert_eq!(sim.sdk_name(), "iphonesimulator");
    assert_eq!(sim.sysroot_command().args, strings(&["--sdk", "iphonesimulator", "--show-sdk-path"]));
    let dev = IosPlatform::new("dev", "aarch64-apple-ios", empty_conf());
    assert!(!dev.sim);
    let mut env = BuildEnv::new("/p", HostShell::Posix);
    dev.prepare_build(&mut env, "/sdk");
    assert_eq!(env.shims[1].script, "#!/bin/sh\ncc -isysroot /sdk \"$@\"\n\n");
    assert_eq!(ops(&env)[1], op("set", "TARGET_SYSROOT", "/sdk"));
    assert!(matches!(IosManager::new(), Ok(None)));
}

#[test]
fn descriptions() {
    let a = AndroidDevice::from_abilist("adb", "emu", "arm64-v8a,x86");
    assert_eq!(a.description(), "Android { \"id\": \"emu\", \"supported_targets\": [\"aarch64-linux-android\", \"i686-linux-android\"] }");
    let d = SshDevice { id: s("pi"), conf: ssh_conf(Some(22), None, None) };
    assert_eq!(d.description(), "Ssh { \"id\": \"pi\", \"hostname\": \"board.local\", \"username\": \"pi\", \"port\": \"22\" }");
    let n = SshDevice { id: s("pi"), conf: ssh_conf(None, None, None) };
    assert!(n.description().ends_with("\"port\": \"none\" }"));
    let sim = IosPlatform::new("sim", "i386-apple-ios", empty_conf());
    assert_eq!(sim.description(), "XCode targetting Ios Simulator");
    assert_eq!(sim.strip_command("/w/app").args, strings(&["strip", "/w/app"]));
    assert!(!sim.strip_command("/w/app").must_succeed);
}

#[test]
fn linker_search_dirs() {
    let out = "install: /usr/lib/gcc/x\nprograms: =/a:/b\nlibraries: =/usr/lib/x:/lib\n";
    assert_eq!(parse_library_dirs(out), strings(&["/usr/lib/x", "/lib"]));
    assert_eq!(parse_library_dirs("nothing"), Vec::<String>::new());
}

#[test]
fn regular_toolchain() {
    let t = RegularToolchain::new("/tc", &strings(&["aarch64-linux-gnu-gcc"]), Some(s("/tc/sysroot"))).unwrap();
    assert_eq!(t.cc_command(), "/tc/bin/aarch64-linux-gnu-gcc");
    assert_eq!(t.linker_command(), "/tc/bin/aarch64-linux-gnu-gcc --sysroot /tc/sysroot");
    let mut env = BuildEnv::new("/p", HostShell::Posix);
    t.setup_more_env(&mut env);
    assert_eq!(ops(&env), vec![op("set", "TARGET_SYSROOT", "/tc/sysroot"), op("set", "TARGET_AR", "/tc/bin/aarch64-linux-gnu-ar")]);
    assert!(matches!(RegularToolchain::new("/tc", &vec![], None), Err(DinghyError::ToolchainMalformed(_))));
}

#[test]
fn text_helpers() {
    assert_eq!(join("/a/", "b"), "/a/b");
    assert_eq!(join("", "b"), "b");
    assert_eq!(split("a,,b", ','), strings(&["a", "", "b"]));
    assert_eq!(trim("\t x y \n"), "x y");
}
