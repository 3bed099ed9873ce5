use vstd::prelude::*;
use crate::build_manifest::BuildManifest;
use crate::command::{Command, CommandView, strings, strings_view};
use crate::layout::{concat, config_dir, config_dir_spec, release_repo, release_repo_spec, source_dir, source_dir_spec};
use crate::platform::Platform;
use crate::publish::{repo_git, repo_git_spec};

verus! {

/// The argument lists of the git commands that squash the history of the
/// release repository into one commit on a fresh `main` and force-push it.
pub open spec fn clear_args_spec() -> Seq<Seq<Seq<char>>> {
    seq![
        seq!["checkout"@, "--orphan"@, "latest_branch"@],
        seq!["add"@, "-A"@],
        seq!["commit"@, "-am"@, "初始化仓库"@],
        seq!["branch"@, "-D"@, "main"@],
        seq!["branch"@, "-m"@, "main"@],
        seq!["gc"@, "--prune=now"@],
        seq!["push"@, "-f"@, "origin"@, "main"@],
    ]
}

pub open spec fn commands_view(cs: Seq<Command>) -> Seq<CommandView> {
    cs.map_values(|c: Command| c@)
}

/// The git commands, in order, that replace the history of the release
/// repository by a single commit of its current contents.
pub fn git_clear() -> (r: Vec<Command>)
    ensures
        commands_view(r@) == clear_args_spec().map_values(|a: Seq<Seq<char>>| repo_git_spec(a)),
{
    let mut r: Vec<Command> = Vec::new();
    let a0 = strings(&["checkout", "--orphan", "latest_branch"]);
    let a1 = strings(&["add", "-A"]);
    let a2 = strings(&["commit", "-am", "初始化仓库"]);
    let a3 = strings(&["branch", "-D", "main"]);
    let a4 = strings(&["branch", "-m", "main"]);
    let a5 = strings(&["gc", "--prune=now"]);
    let a6 = strings(&["push", "-f", "origin", "main"]);
    let ghost v = clear_args_spec();
    proof {
        assert(strings_view(a0@) =~= v[0]);
        assert(strings_view(a1@) =~= v[1]);
        assert(strings_view(a2@) =~= v[2]);
        assert(strings_view(a3@) =~= v[3]);
        assert(strings_view(a4@) =~= v[4]);
        assert(strings_view(a5@) =~= v[5]);
        assert(strings_view(a6@) =~= v[6]);
    }
    r.push(repo_git(a0));
    r.push(repo_git(a1));
    r.push(repo_git(a2));
    r.push(repo_git(a3));
    r.push(repo_git(a4));
    r.push(repo_git(a5));
    r.push(repo_git(a6));
    assert(commands_view(r@) =~= v.map_values(|a: Seq<Seq<char>>| repo_git_spec(a)));
    r
}

/// `git checkout <version>` in a sub-product's source tree.
pub open spec fn checkout_command_spec(version: Seq<char>, name: Seq<char>) -> CommandView {
    CommandView {
        program: "git"@,
        args: seq!["checkout"@, version],
        dir: source_dir_spec(name),
        envs: Seq::empty(),
    }
}

/// The commands that put every sub-product's source tree at the given
/// version, in the manifest's order. The program runs them in order and
/// stops at the first that fails.
pub fn checkout(m: &BuildManifest, version: &str) -> (r: Vec<Command>)
    ensures
        commands_view(r@) == m@.map_values(
            |p: (Seq<char>, Seq<char>)| checkout_command_spec(version@, p.0),
        ),
{
    let ghost mv = m@;
    let mut r: Vec<Command> = Vec::new();
    let mut i: usize = 0;
    while i < m.products.len()
        invariant
            i <= m.products@.len(),
            mv == m@,
            mv.len() == m.products@.len(),
            commands_view(r@) =~= mv.take(i as int).map_values(
                |p: (Seq<char>, Seq<char>)| checkout_command_spec(version@, p.0),
            ),
        decreases m.products@.len() - i,
    {
        let name = m.products[i].name.as_str();
        assert(mv[i as int].0 == name@);
        let args = strings(&["checkout", version]);
        assert(strings_view(args@) =~= seq!["checkout"@, version@]);
        let dir = source_dir(name);
        let ghost before = r@;
        r.push(Command::new("git", args, dir.as_str()));
        proof {
            assert(r@ =~= before.push(r@.last()));
            assert(r@.last()@.envs =~= Seq::<(Seq<char>, Seq<char>)>::empty());
            assert(commands_view(r@) =~= commands_view(before).push(
                checkout_command_spec(version@, mv[i as int].0),
            ));
            assert(mv.take(i as int + 1) =~= mv.take(i as int).push(mv[i as int]));
        }
        i = i + 1;
    }
    assert(mv.take(i as int) =~= mv);
    r
}

/// The command that submits a sub-product's release build to the virus
/// scanner.
pub open spec fn scan_command_spec(platform: Platform, name: Seq<char>) -> CommandView {
    CommandView {
        program: release_repo_spec() + "/windows/virustotal/vt.exe"@,
        args: seq![
            "scan"@,
            "file"@,
            source_dir_spec(name) + "/target/release/"@ + name + platform.exe_suffix_spec(),
        ],
        dir: "."@,
        envs: Seq::empty(),
    }
}

/// The virus-scan command for each sub-product, in the manifest's order.
pub fn test(m: &BuildManifest, platform: Platform) -> (r: Vec<Command>)
    ensures
        commands_view(r@) == m@.map_values(
            |p: (Seq<char>, Seq<char>)| scan_command_spec(platform, p.0),
        ),
{
    let ghost mv = m@;
    let mut r: Vec<Command> = Vec::new();
    let mut i: usize = 0;
    while i < m.products.len()
        invariant
            i <= m.products@.len(),
            mv == m@,
            mv.len() == m.products@.len(),
            commands_view(r@) =~= mv.take(i as int).map_values(
                |p: (Seq<char>, Seq<char>)| scan_command_spec(platform, p.0),
            ),
        decreases m.products@.len() - i,
    {
        let name = m.products[i].name.as_str();
        assert(mv[i as int].0 == name@);
        let a = concat(source_dir(name).as_str(), "/target/release/");
        let b = concat(a.as_str(), name);
        let target = concat(b.as_str(), platform.exe_suffix().as_str());
        let mut args = strings(&["scan", "file"]);
        let ghost a0 = args@;
        let ghost tv = target@;
        assert(strings_view(a0) =~= seq!["scan"@, "file"@]);
        args.push(target);
        assert(args@ =~= a0.push(args@.last()));
        assert(strings_view(args@) =~= seq!["scan"@, "file"@, tv]);
        let program = concat(release_repo().as_str(), "/windows/virustotal/vt.exe");
        let ghost before = r@;
        r.push(Command::new(program.as_str(), args, "."));
        proof {
            assert(r@ =~= before.push(r@.last()));
            assert(r@.last()@.envs =~= Seq::<(Seq<char>, Seq<char>)>::empty());
            assert(commands_view(r@) =~= commands_view(before).push(
                scan_command_spec(platform, mv[i as int].0),
            ));
            assert(mv.take(i as int + 1) =~= mv.take(i as int).push(mv[i as int]));
        }
        i = i + 1;
    }
    assert(mv.take(i as int) =~= mv);
    r
}

/// The second space-separated field of a text: what lies between its first
/// space and the next one, or the end. None where the text has no space.
pub open spec fn second_field(s: Seq<char>) -> Option<Seq<char>> {
    if exists|i: int| 0 <= i < s.len() && s[i] == ' ' {
        let i = choose|i: int| 0 <= i < s.len() && s[i] == ' ' && forall|k: int| 0 <= k < i ==> s[k] != ' ';
        let rest = s.subrange(i + 1, s.len() as int);
        if exists|j: int| 0 <= j < rest.len() && rest[j] == ' ' {
            let j = choose|j: int|
                0 <= j < rest.len() && rest[j] == ' ' && forall|k: int| 0 <= k < j ==> rest[k] != ' ';
            Some(rest.subrange(0, j))
        } else {
            Some(rest)
        }
    } else {
        None
    }
}

fn find_space(s: &str, from: usize) -> (r: usize)
    requires
        from <= s@.len(),
    ensures
        from <= r <= s@.len(),
        r < s@.len() ==> s@[r as int] == ' ',
        forall|k: int| from <= k < r ==> s@[k] != ' ',
{
    let n = s.unicode_len();
    let mut i = from;
    while i < n
        invariant
            n == s@.len(),
            from <= i <= n,
            forall|k: int| from <= k < i ==> s@[k] != ' ',
        decreases n - i,
    {
        if s.get_char(i) == ' ' {
            return i;
        }
        i = i + 1;
    }
    i
}

/// The address of the scanner's report for the output of a scan, whose
/// second field is the analysis identifier.
pub fn analysis_url(stdout: &str) -> (r: Option<String>)
    ensures
        second_field(stdout@) is None ==> r is None,
        second_field(stdout@) is Some ==> r is Some && r->Some_0@
            == "https://www.virustotal.com/gui/file-analysis/"@ + second_field(stdout@)->Some_0,
{
    let s = stdout;
    let n = s.unicode_len();
    let i = find_space(s, 0);
    if i == n {
        return None;
    }
    let j = find_space(s, i + 1);
    proof {
        let sv = s@;
        assert(0 <= i < sv.len() && sv[i as int] == ' ');
        let ci = choose|c: int| 0 <= c < sv.len() && sv[c] == ' ' && forall|k: int| 0 <= k < c ==> sv[k] != ' ';
        assert(ci == i) by {
            if ci < i {
                assert(sv[ci] != ' ');
            }
            if ci > i {
                assert(sv[i as int] != ' ');
            }
        }
        let rest = sv.subrange(i + 1, sv.len() as int);
        if j < n {
            assert(rest[j - i - 1] == ' ');
            let cj = choose|c: int|
                0 <= c < rest.len() && rest[c] == ' ' && forall|k: int| 0 <= k < c ==> rest[k] != ' ';
            assert(cj == j - i - 1) by {
                if cj < j - i - 1 {
                    assert(rest[cj] == sv[cj + i + 1]);
                }
                if cj > j - i - 1 {
                    assert(rest[j - i - 1] != ' ');
                }
            }
            assert(rest.subrange(0, j - i - 1) =~= sv.subrange(i + 1, j as int));
        } else {
            assert forall|c: int| 0 <= c < rest.len() implies rest[c] != ' ' by {
                assert(rest[c] == sv[c + i + 1]);
            }
            assert(rest =~= sv.subrange(i + 1, j as int));
        }
    }
    let field = s.substring_char(i + 1, j);
    Some(concat("https://www.virustotal.com/gui/file-analysis/", field))
}

/// The usage text of the command-line tool, for the name it was run as.
pub fn help(program: &str) -> (r: String)
    ensures
        r@ == "Usage:\n  "@ + program@ + " build <product>\n  "@ + program@ + " test\n"@,
{
    let a = concat("Usage:\n  ", program);
    let b = concat(a.as_str(), " build <product>\n  ");
    let c = concat(b.as_str(), program);
    concat(c.as_str(), " test\n")
}

/// Whether a pipeline run for a product on a platform can go ahead.
pub enum Preflight {
    /// The configuration directory is there.
    Ready,
    /// The product is not configured for the platform: the run ends at
    /// once, without error and without touching anything, after the message.
    NotConfigured(String),
}

pub open spec fn not_configured_spec(product: Seq<char>, platform: Platform) -> Seq<char> {
    "not configured: create "@ + config_dir_spec(product, platform)
        + " (see README.md for its contents)"@
}

/// Decides from whether the configuration directory exists.
pub fn preflight(product: &str, platform: Platform, config_exists: bool) -> (r: Preflight)
    ensures
        config_exists ==> r is Ready,
        !config_exists ==> r is NotConfigured && r->NotConfigured_0@ == not_configured_spec(
            product@,
            platform,
        ),
{
    if config_exists {
        Preflight::Ready
    } else {
        let a = concat("not configured: create ", config_dir(product, platform).as_str());
        Preflight::NotConfigured(concat(a.as_str(), " (see README.md for its contents)"))
    }
}

} // verus!
