use vstd::prelude::*;
use crate::command::{Command, CommandView, strings, strings_view};
use crate::layout::{ReleaseDescriptor, concat, config_dir_spec, release_repo, release_repo_spec};
use crate::merge::{join, join_spec};

verus! {

pub open spec fn pairs_view(v: Seq<(String, String)>) -> Seq<(Seq<char>, Seq<char>)> {
    v.map_values(|p: (String, String)| (p.0@, p.1@))
}

/// The single files that every release carries in its data directory: each
/// source path and the name it gets there.
pub open spec fn fixed_assets_spec() -> Seq<(Seq<char>, Seq<char>)> {
    seq![
        ("../wei/res/wei.ico"@, "wei.ico"@),
        ("../wei/res/bear.ico"@, "bear.ico"@),
        ("../wei/res/wei.png"@, "wei.png"@),
        ("../wei-daemon/wei-daemon.ps1"@, "wei-daemon.ps1"@),
        ("../wei-daemon/wei-daemon-close.ps1"@, "wei-daemon-close.ps1"@),
        ("../wei-run/wei-close.ps1"@, "wei-close.ps1"@),
        ("../wei-updater/wei-updater.ps1"@, "wei-updater.ps1"@),
        ("../wei-updater/wei-updater.sh"@, "wei-updater.sh"@),
        ("../wei-ui/Webview2.exe"@, "Webview2.exe"@),
        ("../wei-release/ubuntu/frp/frpc"@, "frpc"@),
    ]
}

fn push_pair(v: &mut Vec<(String, String)>, a: &str, b: &str)
    ensures
        pairs_view(final(v)@) == pairs_view(old(v)@).push((a@, b@)),
{
    let ghost before = v@;
    v.push((String::from_str(a), String::from_str(b)));
    assert(v@ =~= before.push(v@.last()));
    assert(pairs_view(v@) =~= pairs_view(before).push((a@, b@)));
}

/// The copies of the single asset files into the release's data directory:
/// from each source path to the data directory joined with its name.
pub fn fixed_assets(d: &ReleaseDescriptor) -> (r: Vec<(String, String)>)
    ensures
        pairs_view(r@) == fixed_assets_spec().map_values(
            |p: (Seq<char>, Seq<char>)| (p.0, d.data_dir_spec() + p.1),
        ),
{
    let data = d.data_dir();
    let ghost dv = data@;
    let mut r: Vec<(String, String)> = Vec::new();
    assert(pairs_view(r@) =~= Seq::<(Seq<char>, Seq<char>)>::empty());
    push_pair(&mut r, "../wei/res/wei.ico", concat(data.as_str(), "wei.ico").as_str());
    push_pair(&mut r, "../wei/res/bear.ico", concat(data.as_str(), "bear.ico").as_str());
    push_pair(&mut r, "../wei/res/wei.png", concat(data.as_str(), "wei.png").as_str());
    push_pair(&mut r, "../wei-daemon/wei-daemon.ps1", concat(data.as_str(), "wei-daemon.ps1").as_str());
    push_pair(
        &mut r,
        "../wei-daemon/wei-daemon-close.ps1",
        concat(data.as_str(), "wei-daemon-close.ps1").as_str(),
    );
    push_pair(&mut r, "../wei-run/wei-close.ps1", concat(data.as_str(), "wei-close.ps1").as_str());
    push_pair(&mut r, "../wei-updater/wei-updater.ps1", concat(data.as_str(), "wei-updater.ps1").as_str());
    push_pair(&mut r, "../wei-updater/wei-updater.sh", concat(data.as_str(), "wei-updater.sh").as_str());
    push_pair(&mut r, "../wei-ui/Webview2.exe", concat(data.as_str(), "Webview2.exe").as_str());
    push_pair(&mut r, "../wei-release/ubuntu/frp/frpc", concat(data.as_str(), "frpc").as_str());
    assert(pairs_view(r@) =~= fixed_assets_spec().map_values(
        |p: (Seq<char>, Seq<char>)| (p.0, dv + p.1),
    ));
    r
}

/// The trees merged into the data directory, in order: the frontend's build
/// output, the product's configuration, and the platform's download tool.
pub open spec fn asset_trees_spec(d: &ReleaseDescriptor) -> Seq<(Seq<char>, Seq<char>)> {
    seq![
        ("../wei-ui-vue/dist"@, join_spec(d.data_dir_spec(), "dist"@)),
        (config_dir_spec(d.product@, d.platform), d.data_dir_spec()),
        (
            release_repo_spec() + "/"@ + d.platform.dir_name_spec() + "/aria2"@,
            join_spec(d.data_dir_spec(), "aria2"@),
        ),
    ]
}

/// The source and destination of each tree merge of a release, in order.
pub fn asset_trees(d: &ReleaseDescriptor) -> (r: Vec<(String, String)>)
    ensures
        pairs_view(r@) == asset_trees_spec(d),
{
    let data = d.data_dir();
    let mut r: Vec<(String, String)> = Vec::new();
    assert(pairs_view(r@) =~= Seq::<(Seq<char>, Seq<char>)>::empty());
    push_pair(&mut r, "../wei-ui-vue/dist", join(data.as_str(), "dist").as_str());
    let config = crate::layout::config_dir(d.product.as_str(), d.platform);
    push_pair(&mut r, config.as_str(), data.as_str());
    let a = concat(release_repo().as_str(), "/");
    let b = concat(a.as_str(), d.platform.dir_name().as_str());
    let aria = concat(b.as_str(), "/aria2");
    push_pair(&mut r, aria.as_str(), join(data.as_str(), "aria2").as_str());
    assert(pairs_view(r@) =~= asset_trees_spec(d));
    r
}

/// The copies of the version file: into the data directory, and beside the
/// platform's releases as the latest version.
pub fn version_copies(d: &ReleaseDescriptor) -> (r: Vec<(String, String)>)
    ensures
        pairs_view(r@) == seq![
            (config_dir_spec(d.product@, d.platform) + "version.dat"@, d.data_dir_spec() + "version.dat"@),
            (config_dir_spec(d.product@, d.platform) + "version.dat"@, d.os_dir_spec() + "version.dat"@),
        ],
{
    let src = crate::layout::version_file(d.product.as_str(), d.platform);
    let mut r: Vec<(String, String)> = Vec::new();
    let ghost e = Seq::<(Seq<char>, Seq<char>)>::empty();
    assert(pairs_view(r@) =~= e);
    push_pair(&mut r, src.as_str(), concat(d.data_dir().as_str(), "version.dat").as_str());
    push_pair(&mut r, src.as_str(), d.latest_version_file().as_str());
    assert(pairs_view(r@) =~= seq![
        (config_dir_spec(d.product@, d.platform) + "version.dat"@, d.data_dir_spec() + "version.dat"@),
        (config_dir_spec(d.product@, d.platform) + "version.dat"@, d.os_dir_spec() + "version.dat"@),
    ]);
    r
}

/// The frontend's bundler on the Windows build machine.
pub open spec fn bundler_spec() -> Seq<char> {
    "C:/Program Files (x86)/Yarn/bin/yarn.cmd"@
}

/// The commands that refresh and build the frontend in its source tree:
/// `git pull`, then the bundler's `install` and `build`.
pub open spec fn frontend_commands_spec() -> Seq<CommandView> {
    let bundler = bundler_spec();
    seq![
        CommandView { program: "git"@, args: seq!["pull"@], dir: "../wei-ui-vue"@, envs: Seq::empty() },
        CommandView { program: bundler, args: seq!["install"@], dir: "../wei-ui-vue"@, envs: Seq::empty() },
        CommandView { program: bundler, args: seq!["build"@], dir: "../wei-ui-vue"@, envs: Seq::empty() },
    ]
}

/// The frontend build.
pub fn frontend_commands() -> (r: Vec<Command>)
    ensures
        r@.map_values(|c: Command| c@) == frontend_commands_spec(),
{
    let bundler = "C:/Program Files (x86)/Yarn/bin/yarn.cmd";
    let a0 = strings(&["pull"]);
    let a1 = strings(&["install"]);
    let a2 = strings(&["build"]);
    assert(strings_view(a0@) =~= seq!["pull"@]);
    assert(strings_view(a1@) =~= seq!["install"@]);
    assert(strings_view(a2@) =~= seq!["build"@]);
    let mut r: Vec<Command> = Vec::new();
    r.push(Command::new("git", a0, "../wei-ui-vue"));
    r.push(Command::new(bundler, a1, "../wei-ui-vue"));
    r.push(Command::new(bundler, a2, "../wei-ui-vue"));
    assert(r@.map_values(|c: Command| c@) =~= frontend_commands_spec());
    r
}

} // verus!
