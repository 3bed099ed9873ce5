use wei_build::orchestrator::{BuildAction, BuildPhase, BuildState};
use wei_build::publish::{PublishAction, PublishPhase};
use wei_build::{
    analysis_url, calculate_sha256, checkout, copy_files, git_clear, help, parse_trackers,
    parse_version, preflight, sign, torrent_command, to_hex, write_checksums, BuildManifest,
    Command, MergeOp, Platform, Preflight, ReleaseDescriptor, ReleaseError, TreeEntry, TreeFile,
};
use wei_build::checksum::manifest_entries;

const ABC_SHA256: &str = "ba7816bf8f01cfea414140de5dae2223b00361a396177a9cb410ff61f20015ad";
const EMPTY_SHA256: &str = "e3b0c44298fc1c149afbf4c8996fb92427ae41e4649b934ca495991b7852b855";

fn descriptor(platform: Platform, version: &str) -> ReleaseDescriptor {
    ReleaseDescriptor::new("wei", platform, version).unwrap()
}

fn args_of(c: &Command) -> Vec<&str> {
    c.args.iter().map(|s| s.as_str()).collect()
}

/// Runs the build state machine, answering each action from `outcomes`;
/// returns the actions in order.
fn run_build(d: &ReleaseDescriptor, m: &BuildManifest, outcomes: &[bool]) -> Vec<BuildAction> {
    let mut s = BuildState::start(m);
    let mut actions = Vec::new();
    let mut k = 0;
    loop {
        let a = s.action(d, m);
        let done = s.is_done();
        actions.push(a);
        if done {
            break;
        }
        s.advance(m, outcomes[k]);
        k += 1;
    }
    actions
}

#[test]
fn scenario_fresh_build_of_core() {
    let d = descriptor(Platform::LinuxLike, "1.2.3\n");
    let m = BuildManifest::parse("core: wei\n").unwrap();
    let actions = run_build(&d, &m, &[false, true, true, true, true]);
    assert_eq!(actions.len(), 6);
    match &actions[0] {
        BuildAction::CheckExists(p) => assert_eq!(p, "../wei-release/wei/ubuntu/stable/core"),
        _ => panic!("expected a probe"),
    }
    match &actions[1] {
        BuildAction::Run(c) => {
            assert_eq!(c.program, "cargo");
            assert_eq!(c.dir, "../core");
            assert_eq!(args_of(c), vec!["build", "--release", "--target=x86_64-unknown-linux-musl"]);
            assert_eq!(c.envs, vec![("OPENSSL_DIR".to_string(), "/usr/local/musl/".to_string())]);
        }
        _ => panic!("expected the build"),
    }
    match &actions[2] {
        BuildAction::Run(c) => {
            assert_eq!(c.program, "git");
            assert_eq!(args_of(c), vec!["tag", "-a", "1.2.3", "-m", "1.2.3"]);
            assert_eq!(c.dir, "../core");
        }
        _ => panic!("expected the tag"),
    }
    match &actions[3] {
        BuildAction::Run(c) => assert_eq!(args_of(c), vec!["push", "origin", "1.2.3"]),
        _ => panic!("expected the push"),
    }
    match &actions[4] {
        BuildAction::Copy { from, to } => {
            assert_eq!(from, "../core/target/x86_64-unknown-linux-musl/release/core");
            assert_eq!(to, "../wei-release/wei/ubuntu/1.2.3/wei");
        }
        _ => panic!("expected the install"),
    }
    assert!(matches!(actions[5], BuildAction::Finish));

    let files = vec![TreeFile { path: "wei".to_string(), data: b"abc".to_vec() }];
    let text = write_checksums(&files, "data/checksum.dat").unwrap();
    assert_eq!(text, format!("wei|||{}\n", ABC_SHA256));
}

#[test]
fn reuse_skips_the_build_tool() {
    let d = descriptor(Platform::Windows, "2.0.0");
    let m = BuildManifest::parse("wei-updater: wei-updater\ncore: wei\n").unwrap();
    let actions = run_build(&d, &m, &[true, true, true, true]);
    assert_eq!(actions.len(), 5);
    assert!(actions.iter().all(|a| !matches!(a, BuildAction::Run(_))));
    match &actions[1] {
        BuildAction::Copy { from, to } => {
            assert_eq!(from, "../wei-release/wei/windows/stable/wei-updater.exe");
            assert_eq!(to, "../wei-release/wei/windows/2.0.0/wei-updater.exe");
        }
        _ => panic!("expected the reuse copy"),
    }
    match &actions[3] {
        BuildAction::Copy { to, .. } => assert_eq!(to, "../wei-release/wei/windows/2.0.0/wei.exe"),
        _ => panic!("expected the reuse copy"),
    }
}

#[test]
fn each_product_is_installed_once() {
    let d = descriptor(Platform::Macos, "3.1");
    let m = BuildManifest::parse("a: x\nb: y\n").unwrap();
    let actions = run_build(&d, &m, &[false, true, false, false, true, true, true]);
    let targets: Vec<&String> = actions
        .iter()
        .filter_map(|a| match a {
            BuildAction::Copy { to, .. } => Some(to),
            _ => None,
        })
        .collect();
    assert_eq!(targets, vec!["../wei-release/wei/macos/3.1/x", "../wei-release/wei/macos/3.1/y"]);
    assert!(matches!(actions.last(), Some(BuildAction::Finish)));
}

#[test]
fn build_failure_aborts() {
    let d = descriptor(Platform::LinuxLike, "1.0");
    let m = BuildManifest::parse("core: wei\nother: o\n").unwrap();
    let actions = run_build(&d, &m, &[false, false]);
    assert_eq!(actions.len(), 3);
    assert!(matches!(actions[2], BuildAction::Abort(ReleaseError::Build)));
}

#[test]
fn copy_failure_aborts() {
    let d = descriptor(Platform::LinuxLike, "1.0");
    let m = BuildManifest::parse("core: wei\n").unwrap();
    let actions = run_build(&d, &m, &[true, false]);
    assert!(matches!(actions[2], BuildAction::Abort(ReleaseError::Copy)));
    let actions = run_build(&d, &m, &[false, true, false, false, false]);
    assert_eq!(actions.len(), 6);
    assert!(matches!(actions[5], BuildAction::Abort(ReleaseError::Copy)));
}

#[test]
fn tag_and_push_failures_are_tolerated() {
    let d = descriptor(Platform::LinuxLike, "1.0");
    let m = BuildManifest::parse("core: wei\n").unwrap();
    let actions = run_build(&d, &m, &[false, true, false, false, true]);
    assert!(matches!(actions[5], BuildAction::Finish));
}

#[test]
fn empty_manifest_finishes_at_once() {
    let d = descriptor(Platform::LinuxLike, "1.0");
    let m = BuildManifest::parse("").unwrap();
    assert_eq!(m.len(), 0);
    let s = BuildState::start(&m);
    assert_eq!(s.phase, BuildPhase::Finished);
    assert!(matches!(s.action(&d, &m), BuildAction::Finish));
}

#[test]
fn manifest_keeps_document_order() {
    let m = BuildManifest::parse("zeta: z\nalpha: a\n").unwrap();
    let names: Vec<(&str, &str)> =
        m.products.iter().map(|p| (p.name.as_str(), p.output.as_str())).collect();
    assert_eq!(names, vec![("zeta", "z"), ("alpha", "a")]);
}

#[test]
fn manifest_errors() {
    assert_eq!(BuildManifest::parse("a: [").err(), Some(ReleaseError::Configuration));
    assert_eq!(BuildManifest::parse("a: 1\n").err(), Some(ReleaseError::Configuration));
    assert_eq!(BuildManifest::parse("a: b\na: c\n").err(), Some(ReleaseError::Configuration));
    assert_eq!(BuildManifest::parse("- a\n- b\n").unwrap().len(), 0);
}

#[test]
fn version_is_trimmed_and_checked() {
    assert_eq!(parse_version("  1.2.3\r\n").unwrap(), "1.2.3");
    assert_eq!(parse_version("").err(), Some(ReleaseError::Configuration));
    assert_eq!(parse_version(" \n").err(), Some(ReleaseError::Configuration));
    assert_eq!(parse_version("1.2/3").err(), Some(ReleaseError::Configuration));
    assert_eq!(parse_version("..").err(), Some(ReleaseError::Configuration));
    assert_eq!(parse_version("1 2").err(), Some(ReleaseError::Configuration));
    assert!(ReleaseDescriptor::new("wei", Platform::Windows, "v 1").is_err());
}

#[test]
fn release_paths() {
    let d = descriptor(Platform::Windows, "0.9.1");
    assert_eq!(d.release_dir(), "../wei-release/wei/windows/0.9.1/");
    assert_eq!(d.data_dir(), "../wei-release/wei/windows/0.9.1/data/");
    assert_eq!(d.checksum_file(), "../wei-release/wei/windows/0.9.1/data/checksum.dat");
    assert_eq!(d.archive_file(), "../wei-release/wei/windows/0.9.1.tar.xz");
    assert_eq!(d.torrent_file(), "../wei-release/wei/windows/0.9.1.torrent");
    assert_eq!(d.latest_version_file(), "../wei-release/wei/windows/version.dat");
    assert_eq!(d.built_binary("wei"), "../wei/target/release/wei.exe");
    assert_eq!(wei_build::layout::version_file("wei", Platform::Macos), "./data/wei/macos/version.dat");
    assert_eq!(wei_build::layout::build_file("wei", Platform::LinuxLike), "./data/wei/ubuntu/build.dat");
}

#[test]
fn platform_from_os_name() {
    assert_eq!(Platform::from_os("windows"), Platform::Windows);
    assert_eq!(Platform::from_os("macos"), Platform::Macos);
    assert_eq!(Platform::from_os("linux"), Platform::LinuxLike);
    assert_eq!(Platform::from_os("freebsd"), Platform::LinuxLike);
    assert_eq!(Platform::LinuxLike.dir_name(), "ubuntu");
    assert_eq!(Platform::Windows.exe_suffix(), ".exe");
    assert_eq!(Platform::Macos.exe_suffix(), "");
}

#[test]
fn scenario_tracker_list_blank_line() {
    let urls = parse_trackers("http://a\n\nhttp://b\n");
    assert_eq!(urls, vec!["http://a".to_string(), "http://b".to_string()]);
    let d = descriptor(Platform::LinuxLike, "1.2.3");
    let c = torrent_command(&d, &urls);
    assert_eq!(c.program, "../wei-release/ubuntu/transmission/transmission-create");
    assert_eq!(c.dir, "../wei-release");
    assert_eq!(
        args_of(&c),
        vec![
            "-o",
            "../wei-release/wei/ubuntu/1.2.3.torrent",
            "-t",
            "http://a",
            "-t",
            "http://b",
            "-s",
            "512",
            "../wei-release/wei/ubuntu/1.2.3.tar.xz",
            "-c",
            "1.2.3",
        ]
    );
}

#[test]
fn tracker_lines_are_trimmed() {
    assert_eq!(parse_trackers("  udp://x:80/announce \r\n\t\n"), vec!["udp://x:80/announce".to_string()]);
    assert!(parse_trackers("").is_empty());
    assert_eq!(parse_trackers("u"), vec!["u".to_string()]);
}

#[test]
fn scenario_missing_configuration() {
    match preflight("productX", Platform::Macos, false) {
        Preflight::NotConfigured(msg) => {
            assert_eq!(msg, "not configured: create ./data/productX/macos/ (see README.md for its contents)")
        }
        Preflight::Ready => panic!("must not run"),
    }
    assert!(matches!(preflight("productX", Platform::Macos, true), Preflight::Ready));
}

#[test]
fn merge_plan_mirrors_the_source() {
    let listing = vec![
        TreeEntry { path: "a.txt".to_string(), is_dir: false },
        TreeEntry { path: "sub".to_string(), is_dir: true },
        TreeEntry { path: "sub/b.txt".to_string(), is_dir: false },
    ];
    let ops = copy_files("../wei-ui-vue/dist", "rel/data/dist", &listing);
    assert_eq!(ops.len(), 4);
    assert!(matches!(&ops[0], MergeOp::CreateDir(p) if p == "rel/data/dist"));
    assert!(matches!(&ops[1], MergeOp::CopyFile { from, to }
        if from == "../wei-ui-vue/dist/a.txt" && to == "rel/data/dist/a.txt"));
    assert!(matches!(&ops[2], MergeOp::CreateDir(p) if p == "rel/data/dist/sub"));
    assert!(matches!(&ops[3], MergeOp::CopyFile { from, to }
        if from == "../wei-ui-vue/dist/sub/b.txt" && to == "rel/data/dist/sub/b.txt"));
}

/// Applies a plan to an in-memory file map as the program applies it to disk.
fn apply(fs: &mut std::collections::BTreeMap<String, Vec<u8>>, ops: &[MergeOp]) {
    for op in ops {
        if let MergeOp::CopyFile { from, to } = op {
            if let Some(data) = fs.get(from).cloned() {
                fs.insert(to.clone(), data);
            }
        }
    }
}

#[test]
fn merge_twice_equals_merge_once() {
    let listing = vec![
        TreeEntry { path: "x".to_string(), is_dir: false },
        TreeEntry { path: "missing".to_string(), is_dir: false },
    ];
    let ops = copy_files("src", "dst/", &listing);
    let mut fs = std::collections::BTreeMap::new();
    fs.insert("src/x".to_string(), b"new".to_vec());
    fs.insert("dst/x".to_string(), b"old".to_vec());
    fs.insert("dst/only".to_string(), b"keep".to_vec());
    apply(&mut fs, &ops);
    let once = fs.clone();
    apply(&mut fs, &ops);
    assert_eq!(fs, once);
    assert_eq!(once.get("dst/x").unwrap(), b"new");
    assert_eq!(once.get("dst/only").unwrap(), b"keep");
}

#[test]
fn manifest_excludes_itself_and_covers_every_file() {
    let files = vec![
        TreeFile { path: "wei".to_string(), data: b"abc".to_vec() },
        TreeFile { path: "data/checksum.dat".to_string(), data: Vec::new() },
        TreeFile { path: "data/empty".to_string(), data: Vec::new() },
    ];
    let es = manifest_entries(&files, "data/checksum.dat").unwrap();
    assert_eq!(es.len(), 2);
    assert_eq!(es[0].path, "data/empty");
    assert_eq!(es[0].digest, EMPTY_SHA256);
    assert_eq!(es[1].path, "wei");
    assert_eq!(es[1].digest, ABC_SHA256);
    assert_eq!(es[1].digest, calculate_sha256(b"abc"));
}

#[test]
fn manifest_same_tree_any_order() {
    let a = vec![
        TreeFile { path: "x".to_string(), data: b"1".to_vec() },
        TreeFile { path: "y/z".to_string(), data: b"2".to_vec() },
    ];
    let b = vec![
        TreeFile { path: "y/z".to_string(), data: b"2".to_vec() },
        TreeFile { path: "x".to_string(), data: b"1".to_vec() },
    ];
    let ta = write_checksums(&a, "c").unwrap();
    assert_eq!(ta, write_checksums(&b, "c").unwrap());
    assert!(ta.starts_with("x|||"));
}

#[test]
fn manifest_rejects_a_path_twice() {
    let files = vec![
        TreeFile { path: "x".to_string(), data: b"1".to_vec() },
        TreeFile { path: "x".to_string(), data: b"2".to_vec() },
    ];
    assert_eq!(write_checksums(&files, "c").err(), Some(ReleaseError::Checksum));
    let files = vec![
        TreeFile { path: "c".to_string(), data: b"1".to_vec() },
        TreeFile { path: "c".to_string(), data: b"2".to_vec() },
    ];
    assert_eq!(write_checksums(&files, "c").unwrap(), "");
}

#[test]
fn manifest_rejects_unsafe_paths() {
    let files = vec![TreeFile { path: "a|||b".to_string(), data: Vec::new() }];
    assert_eq!(write_checksums(&files, "c").err(), Some(ReleaseError::Checksum));
    let files = vec![TreeFile { path: "a\nb".to_string(), data: Vec::new() }];
    assert_eq!(write_checksums(&files, "c").err(), Some(ReleaseError::Checksum));
    let files = vec![TreeFile { path: "a||b".to_string(), data: Vec::new() }];
    assert!(write_checksums(&files, "c").is_ok());
}

#[test]
fn hex_encoding() {
    assert_eq!(to_hex(&[0x00, 0x0f, 0xa0, 0xff]), "000fa0ff");
    assert_eq!(to_hex(&[]), "");
    assert_eq!(calculate_sha256(b""), EMPTY_SHA256);
}

#[test]
fn publish_sequence_on_windows() {
    let d = descriptor(Platform::Windows, "1.0");
    let trackers = vec!["http://t".to_string()];
    let mut ph = PublishPhase::start(Platform::Windows);
    let mut seen = Vec::new();
    while !ph.is_done() {
        seen.push(ph);
        match ph.action(&d, &trackers) {
            PublishAction::Sign(p) if ph == PublishPhase::SignPrimary => {
                assert_eq!(p, "../wei-release/wei/windows/1.0/wei.exe")
            }
            PublishAction::Sign(p) => assert_eq!(p, "../wei-release/wei/windows/1.0/data/*.*"),
            PublishAction::Compress(p) => assert_eq!(p, "../wei-release/wei/windows/1.0/"),
            PublishAction::RemoveDir(p) => assert_eq!(p, "../wei-release/wei/windows/1.0/"),
            PublishAction::Run(c) => assert_eq!(c.dir, "../wei-release"),
            _ => panic!("unexpected action"),
        }
        let ok = ph != PublishPhase::Torrent;
        ph = ph.advance(ok);
    }
    assert_eq!(ph, PublishPhase::Finished);
    assert_eq!(seen.len(), 8);
}

#[test]
fn publish_failures() {
    assert_eq!(PublishPhase::start(Platform::LinuxLike), PublishPhase::Compress);
    assert_eq!(PublishPhase::SignPrimary.advance(false), PublishPhase::Aborted(ReleaseError::Signing));
    assert_eq!(PublishPhase::Compress.advance(false), PublishPhase::Aborted(ReleaseError::Publish));
    assert_eq!(PublishPhase::Torrent.advance(false), PublishPhase::Add);
    assert_eq!(PublishPhase::Commit.advance(false), PublishPhase::Finished);
    assert_eq!(PublishPhase::Commit.advance(true), PublishPhase::Push);
    let d = descriptor(Platform::LinuxLike, "1.0");
    match PublishPhase::Commit.action(&d, &Vec::new()) {
        PublishAction::Run(c) => assert_eq!(args_of(&c), vec!["commit", "-am", "1.0"]),
        _ => panic!("expected the commit"),
    }
}

#[test]
fn signing_arguments() {
    let a = sign("x.exe");
    assert_eq!(a.len(), 11);
    assert_eq!(a[0], "sign");
    assert_eq!(a[5], "5af5dd15d5416da3c188ad66b86ae89344946b6d");
    assert_eq!(a[10], "x.exe");
}

#[test]
fn clear_commands() {
    let cs = git_clear();
    assert_eq!(cs.len(), 7);
    assert!(cs.iter().all(|c| c.program == "git" && c.dir == "../wei-release"));
    assert_eq!(args_of(&cs[0]), vec!["checkout", "--orphan", "latest_branch"]);
    assert_eq!(args_of(&cs[6]), vec!["push", "-f", "origin", "main"]);
}

#[test]
fn checkout_commands() {
    let m = BuildManifest::parse("a: x\nb: y\n").unwrap();
    let cs = checkout(&m, "1.0");
    assert_eq!(cs.len(), 2);
    assert_eq!(cs[1].dir, "../b");
    assert_eq!(args_of(&cs[1]), vec!["checkout", "1.0"]);
}

#[test]
fn scan_commands_and_report_address() {
    let m = BuildManifest::parse("core: wei\n").unwrap();
    let cs = wei_build::tasks::test(&m, Platform::Windows);
    assert_eq!(args_of(&cs[0]), vec!["scan", "file", "../core/target/release/core.exe"]);
    assert_eq!(
        analysis_url("file abc123 queued").unwrap(),
        "https://www.virustotal.com/gui/file-analysis/abc123"
    );
    assert_eq!(analysis_url("x y").unwrap(), "https://www.virustotal.com/gui/file-analysis/y");
    assert!(analysis_url("nospace").is_none());
}

#[test]
fn usage_text() {
    assert_eq!(help("wb"), "Usage:\n  wb build <product>\n  wb test\n");
    assert_eq!(ReleaseError::Signing.name(), "signing");
}

#[test]
fn release_assets() {
    let d = descriptor(Platform::LinuxLike, "1.0");
    let fixed = wei_build::assets::fixed_assets(&d);
    assert_eq!(fixed.len(), 10);
    assert_eq!(fixed[0], ("../wei/res/wei.ico".to_string(), "../wei-release/wei/ubuntu/1.0/data/wei.ico".to_string()));
    let trees = wei_build::assets::asset_trees(&d);
    assert_eq!(trees[0].1, "../wei-release/wei/ubuntu/1.0/data/dist");
    assert_eq!(trees[1], ("./data/wei/ubuntu/".to_string(), "../wei-release/wei/ubuntu/1.0/data/".to_string()));
    assert_eq!(trees[2], ("../wei-release/ubuntu/aria2".to_string(), "../wei-release/wei/ubuntu/1.0/data/aria2".to_string()));
    let versions = wei_build::assets::version_copies(&d);
    assert_eq!(versions[1], ("./data/wei/ubuntu/version.dat".to_string(), "../wei-release/wei/ubuntu/version.dat".to_string()));
    let front = wei_build::assets::frontend_commands();
    assert_eq!(front[1].program, "C:/Program Files (x86)/Yarn/bin/yarn.cmd");
    assert_eq!(front[2].args, vec!["build".to_string()]);
}
