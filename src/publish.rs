use vstd::prelude::*;
use crate::command::{Command, CommandView, strings, strings_view};
use crate::error::ReleaseError;
use crate::layout::{ReleaseDescriptor, concat, release_repo, release_repo_spec};
use crate::platform::Platform;
use crate::text::{trim, trim_seq};

verus! {

/// The lines of a text: the pieces between line breaks. A text that ends in
/// a line break has an empty last piece.
pub open spec fn split_lines(s: Seq<char>) -> Seq<Seq<char>>
    decreases s.len(),
{
    if s.len() == 0 {
        seq![Seq::empty()]
    } else {
        let prev = split_lines(s.drop_last());
        if s.last() == '\n' {
            prev.push(Seq::empty())
        } else {
            prev.update(prev.len() - 1, prev.last().push(s.last()))
        }
    }
}

proof fn lemma_split_lines_nonempty(s: Seq<char>)
    ensures
        split_lines(s).len() >= 1,
    decreases s.len(),
{
    if s.len() > 0 {
        lemma_split_lines_nonempty(s.drop_last());
    }
}

/// The announce URLs of a list of lines: each line without surrounding
/// blanks, blank lines left out.
pub open spec fn announce_urls(lines: Seq<Seq<char>>) -> Seq<Seq<char>>
    decreases lines.len(),
{
    if lines.len() == 0 {
        Seq::empty()
    } else {
        let r = announce_urls(lines.drop_last());
        let t = trim_seq(lines.last());
        if t.len() > 0 {
            r.push(t)
        } else {
            r
        }
    }
}

/// The tracker URLs of a fetched tracker list: one per non-blank line, trimmed.
pub open spec fn trackers_spec(text: Seq<char>) -> Seq<Seq<char>> {
    announce_urls(split_lines(text))
}

proof fn lemma_announce_push(lines: Seq<Seq<char>>, l: Seq<char>)
    ensures
        announce_urls(lines.push(l)) == if trim_seq(l).len() > 0 {
            announce_urls(lines).push(trim_seq(l))
        } else {
            announce_urls(lines)
        },
{
    assert(lines.push(l).drop_last() =~= lines);
}

/// Reads a tracker list: one URL per line, blank lines ignored.
pub fn parse_trackers(text: &str) -> (r: Vec<String>)
    ensures
        strings_view(r@) == trackers_spec(text@),
{
    let n = text.unicode_len();
    let mut out: Vec<String> = Vec::new();
    let mut start: usize = 0;
    let mut i: usize = 0;
    proof {
        assert(text@.take(0) =~= Seq::<char>::empty());
        assert(text@.subrange(0, 0) =~= Seq::<char>::empty());
    }
    while i < n
        invariant
            n == text@.len(),
            start <= i <= n,
            split_lines(text@.take(i as int)).len() >= 1,
            split_lines(text@.take(i as int)).last() == text@.subrange(start as int, i as int),
            strings_view(out@) == announce_urls(split_lines(text@.take(i as int)).drop_last()),
        decreases n - i,
    {
        let c = text.get_char(i);
        let ghost pre = text@.take(i as int);
        let ghost post = text@.take(i as int + 1);
        proof {
            assert(post.drop_last() =~= pre);
            assert(post.last() == c);
            lemma_split_lines_nonempty(pre);
        }
        if c == '\n' {
            let line = text.substring_char(start, i);
            let t = trim(line);
            let ghost before = out@;
            proof {
                assert(split_lines(post) == split_lines(pre).push(Seq::empty()));
                assert(split_lines(post).drop_last() =~= split_lines(pre));
                assert(split_lines(pre) =~= split_lines(pre).drop_last().push(split_lines(pre).last()));
                lemma_announce_push(split_lines(pre).drop_last(), split_lines(pre).last());
            }
            if t.unicode_len() > 0 {
                out.push(t);
                proof {
                    assert(out@ =~= before.push(out@.last()));
                    assert(strings_view(out@) =~= strings_view(before).push(trim_seq(line@)));
                }
            }
            start = i + 1;
            proof {
                assert(text@.subrange(start as int, i as int + 1) =~= Seq::<char>::empty());
            }
        } else {
            proof {
                let sp = split_lines(pre);
                assert(split_lines(post) == sp.update(sp.len() - 1, sp.last().push(c)));
                assert(split_lines(post).drop_last() =~= sp.drop_last());
                assert(text@.subrange(start as int, i as int + 1) =~= text@.subrange(
                    start as int,
                    i as int,
                ).push(c));
            }
        }
        i = i + 1;
    }
    let line = text.substring_char(start, n);
    let t = trim(line);
    proof {
        let sp = split_lines(text@.take(n as int));
        assert(text@.take(n as int) =~= text@);
        assert(sp =~= sp.drop_last().push(sp.last()));
        lemma_announce_push(sp.drop_last(), sp.last());
    }
    if t.unicode_len() > 0 {
        let ghost before = out@;
        out.push(t);
        proof {
            assert(out@ =~= before.push(out@.last()));
            assert(strings_view(out@) =~= strings_view(before).push(trim_seq(line@)));
        }
    }
    out
}


/// `-t <url>` for each announce URL, in order.
pub open spec fn announce_args(urls: Seq<Seq<char>>) -> Seq<Seq<char>>
    decreases urls.len(),
{
    if urls.len() == 0 {
        Seq::empty()
    } else {
        announce_args(urls.drop_last()) + seq!["-t"@, urls.last()]
    }
}

/// The torrent creator of the platform.
pub open spec fn torrent_tool_spec(p: Platform) -> Seq<char> {
    release_repo_spec() + match p {
        Platform::Windows => "/windows/transmission/transmission-create"@,
        _ => "/ubuntu/transmission/transmission-create"@,
    }
}

/// The torrent creator's command: the torrent file to write, each tracker as
/// an announce entry, a piece size of 512, the archive, and the version as
/// the comment; run in the release repository.
pub open spec fn torrent_command_spec(d: &ReleaseDescriptor, urls: Seq<Seq<char>>) -> CommandView {
    CommandView {
        program: torrent_tool_spec(d.platform),
        args: seq!["-o"@, d.os_dir_spec() + d.version@ + ".torrent"@] + announce_args(urls) + seq![
            "-s"@,
            "512"@,
            d.os_dir_spec() + d.version@ + ".tar.xz"@,
            "-c"@,
            d.version@,
        ],
        dir: release_repo_spec(),
        envs: Seq::empty(),
    }
}

fn torrent_tool(p: Platform) -> (r: String)
    ensures
        r@ == torrent_tool_spec(p),
{
    match p {
        Platform::Windows => concat(release_repo().as_str(), "/windows/transmission/transmission-create"),
        _ => concat(release_repo().as_str(), "/ubuntu/transmission/transmission-create"),
    }
}

/// The command that creates the torrent of the archive.
pub fn torrent_command(d: &ReleaseDescriptor, trackers: &Vec<String>) -> (r: Command)
    ensures
        r@ == torrent_command_spec(d, strings_view(trackers@)),
{
    let ghost tv = strings_view(trackers@);
    let mut args: Vec<String> = Vec::new();
    args.push(String::from_str("-o"));
    args.push(d.torrent_file());
    let mut i: usize = 0;
    proof {
        assert(tv.take(0) =~= Seq::<Seq<char>>::empty());
        assert(strings_view(args@) =~= seq!["-o"@, d.os_dir_spec() + d.version@ + ".torrent"@]);
    }
    while i < trackers.len()
        invariant
            i <= trackers@.len(),
            tv == strings_view(trackers@),
            strings_view(args@) =~= seq!["-o"@, d.os_dir_spec() + d.version@ + ".torrent"@]
                + announce_args(tv.take(i as int)),
        decreases trackers@.len() - i,
    {
        let ghost before = args@;
        args.push(String::from_str("-t"));
        args.push(trackers[i].clone());
        proof {
            let t = tv.take(i as int + 1);
            assert(t.drop_last() =~= tv.take(i as int));
            assert(t.last() == trackers@[i as int]@);
            assert(args@ =~= before.push(args@[args@.len() - 2]).push(args@.last()));
            assert(strings_view(args@) =~= strings_view(before) + seq!["-t"@, trackers@[i as int]@]);
        }
        i = i + 1;
    }
    assert(tv.take(i as int) =~= tv);
    let ghost before = args@;
    args.push(String::from_str("-s"));
    args.push(String::from_str("512"));
    args.push(d.archive_file());
    args.push(String::from_str("-c"));
    args.push(d.version.clone());
    let r = Command::new(torrent_tool(d.platform).as_str(), args, release_repo().as_str());
    proof {
        assert(strings_view(args@) =~= strings_view(before) + seq![
            "-s"@,
            "512"@,
            d.os_dir_spec() + d.version@ + ".tar.xz"@,
            "-c"@,
            d.version@,
        ]);
    }
    r
}

/// The arguments of the code-signing tool for a path: SHA-256 file digest,
/// the release certificate by its thumbprint, and an RFC 3161 time stamp.
pub open spec fn sign_args_spec(path: Seq<char>) -> Seq<Seq<char>> {
    seq![
        "sign"@,
        "/v"@,
        "/fd"@,
        "sha256"@,
        "/sha1"@,
        "5af5dd15d5416da3c188ad66b86ae89344946b6d"@,
        "/tr"@,
        "http://timestamp.globalsign.com/tsa/r6advanced1"@,
        "/td"@,
        "sha256"@,
        path,
    ]
}

/// The arguments of the code-signing tool for a path.
pub fn sign(path: &str) -> (r: Vec<String>)
    ensures
        strings_view(r@) == sign_args_spec(path@),
{
    let r = strings(
        &[
            "sign",
            "/v",
            "/fd",
            "sha256",
            "/sha1",
            "5af5dd15d5416da3c188ad66b86ae89344946b6d",
            "/tr",
            "http://timestamp.globalsign.com/tsa/r6advanced1",
            "/td",
            "sha256",
            path,
        ],
    );
    assert(strings_view(r@) =~= sign_args_spec(path@));
    r
}

/// A git command run in the release repository.
pub open spec fn repo_git_spec(args: Seq<Seq<char>>) -> CommandView {
    CommandView { program: "git"@, args, dir: release_repo_spec(), envs: Seq::empty() }
}

pub fn repo_git(args: Vec<String>) -> (r: Command)
    ensures
        r@ == repo_git_spec(strings_view(args@)),
{
    Command::new("git", args, release_repo().as_str())
}

/// Where the publish sequence stands.
#[derive(Clone, Copy, Debug, PartialEq, Eq, Structural)]
pub enum PublishPhase {
    SignPrimary,
    SignData,
    Compress,
    RemoveTree,
    Torrent,
    Add,
    Commit,
    Push,
    Finished,
    Aborted(ReleaseError),
}

/// What the program has to do next in the publish sequence. Each action but
/// the last two reports back whether it succeeded.
pub enum PublishAction {
    /// Sign the file or the files that the pattern names.
    Sign(String),
    /// Compress the directory into `<directory>.tar.xz`.
    Compress(String),
    /// Remove the directory and everything in it.
    RemoveDir(String),
    Run(Command),
    Finish,
    Abort(ReleaseError),
}

pub open spec fn publish_start_spec(p: Platform) -> PublishPhase {
    if p is Windows {
        PublishPhase::SignPrimary
    } else {
        PublishPhase::Compress
    }
}

/// The next phase given the outcome of the current one. Signing, compressing
/// and removing the tree are fatal when they fail; the torrent, `git add`
/// and the push are not; a failed commit is not pushed.
pub open spec fn publish_advance_spec(ph: PublishPhase, ok: bool) -> PublishPhase {
    match ph {
        PublishPhase::SignPrimary => if ok {
            PublishPhase::SignData
        } else {
            PublishPhase::Aborted(ReleaseError::Signing)
        },
        PublishPhase::SignData => if ok {
            PublishPhase::Compress
        } else {
            PublishPhase::Aborted(ReleaseError::Signing)
        },
        PublishPhase::Compress => if ok {
            PublishPhase::RemoveTree
        } else {
            PublishPhase::Aborted(ReleaseError::Publish)
        },
        PublishPhase::RemoveTree => if ok {
            PublishPhase::Torrent
        } else {
            PublishPhase::Aborted(ReleaseError::Publish)
        },
        PublishPhase::Torrent => PublishPhase::Add,
        PublishPhase::Add => PublishPhase::Commit,
        PublishPhase::Commit => if ok {
            PublishPhase::Push
        } else {
            PublishPhase::Finished
        },
        PublishPhase::Push => PublishPhase::Finished,
        PublishPhase::Finished => PublishPhase::Finished,
        PublishPhase::Aborted(e) => PublishPhase::Aborted(e),
    }
}

/// The action of a phase of the publish sequence.
pub open spec fn publish_action_spec(
    d: &ReleaseDescriptor,
    urls: Seq<Seq<char>>,
    ph: PublishPhase,
    a: PublishAction,
) -> bool {
    match ph {
        PublishPhase::SignPrimary => a is Sign && a->Sign_0@ == d.release_dir_spec() + "wei.exe"@,
        PublishPhase::SignData => a is Sign && a->Sign_0@ == d.release_dir_spec() + "data/*.*"@,
        PublishPhase::Compress => a is Compress && a->Compress_0@ == d.release_dir_spec(),
        PublishPhase::RemoveTree => a is RemoveDir && a->RemoveDir_0@ == d.release_dir_spec(),
        PublishPhase::Torrent => a is Run && a->Run_0@ == torrent_command_spec(d, urls),
        PublishPhase::Add => a is Run && a->Run_0@ == repo_git_spec(seq!["add"@, "*"@]),
        PublishPhase::Commit => a is Run && a->Run_0@ == repo_git_spec(
            seq!["commit"@, "-am"@, d.version@],
        ),
        PublishPhase::Push => a is Run && a->Run_0@ == repo_git_spec(seq!["push"@]),
        PublishPhase::Finished => a is Finish,
        PublishPhase::Aborted(e) => a == PublishAction::Abort(e),
    }
}

impl PublishPhase {
    /// The first phase: signing where the platform asks for it, else
    /// compressing.
    pub fn start(p: Platform) -> (r: PublishPhase)
        ensures
            r == publish_start_spec(p),
    {
        if p.signing_required() {
            PublishPhase::SignPrimary
        } else {
            PublishPhase::Compress
        }
    }

    /// Whether the sequence is over.
    pub fn is_done(&self) -> (r: bool)
        ensures
            r == (self is Finished || self is Aborted),
    {
        match self {
            PublishPhase::Finished => true,
            PublishPhase::Aborted(_) => true,
            _ => false,
        }
    }

    /// The next phase, given the outcome of this one's action.
    pub fn advance(&self, ok: bool) -> (r: PublishPhase)
        ensures
            r == publish_advance_spec(*self, ok),
    {
        match self {
            PublishPhase::SignPrimary => if ok {
                PublishPhase::SignData
            } else {
                PublishPhase::Aborted(ReleaseError::Signing)
            },
            PublishPhase::SignData => if ok {
                PublishPhase::Compress
            } else {
                PublishPhase::Aborted(ReleaseError::Signing)
            },
            PublishPhase::Compress => if ok {
                PublishPhase::RemoveTree
            } else {
                PublishPhase::Aborted(ReleaseError::Publish)
            },
            PublishPhase::RemoveTree => if ok {
                PublishPhase::Torrent
            } else {
                PublishPhase::Aborted(ReleaseError::Publish)
            },
            PublishPhase::Torrent => PublishPhase::Add,
            PublishPhase::Add => PublishPhase::Commit,
            PublishPhase::Commit => if ok {
                PublishPhase::Push
            } else {
                PublishPhase::Finished
            },
            PublishPhase::Push => PublishPhase::Finished,
            PublishPhase::Finished => PublishPhase::Finished,
            PublishPhase::Aborted(e) => PublishPhase::Aborted(*e),
        }
    }

    /// The action of this phase.
    pub fn action(&self, d: &ReleaseDescriptor, trackers: &Vec<String>) -> (r: PublishAction)
        ensures
            publish_action_spec(d, strings_view(trackers@), *self, r),
    {
        match self {
            PublishPhase::SignPrimary => PublishAction::Sign(concat(d.release_dir().as_str(), "wei.exe")),
            PublishPhase::SignData => PublishAction::Sign(concat(d.release_dir().as_str(), "data/*.*")),
            PublishPhase::Compress => PublishAction::Compress(d.release_dir()),
            PublishPhase::RemoveTree => PublishAction::RemoveDir(d.release_dir()),
            PublishPhase::Torrent => PublishAction::Run(torrent_command(d, trackers)),
            PublishPhase::Add => {
                let a = strings(&["add", "*"]);
                assert(strings_view(a@) =~= seq!["add"@, "*"@]);
                PublishAction::Run(repo_git(a))
            },
            PublishPhase::Commit => {
                let a = strings(&["commit", "-am", d.version.as_str()]);
                assert(strings_view(a@) =~= seq!["commit"@, "-am"@, d.version@]);
                PublishAction::Run(repo_git(a))
            },
            PublishPhase::Push => {
                let a = strings(&["push"]);
                assert(strings_view(a@) =~= seq!["push"@]);
                PublishAction::Run(repo_git(a))
            },
            PublishPhase::Finished => PublishAction::Finish,
            PublishPhase::Aborted(e) => PublishAction::Abort(*e),
        }
    }
}

} // verus!
