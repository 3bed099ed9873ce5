use vstd::prelude::*;
use crate::build_manifest::BuildManifest;
use crate::command::{Command, CommandView, strings};
use crate::error::ReleaseError;
use crate::layout::{ReleaseDescriptor, source_dir, source_dir_spec};
use crate::platform::Platform;

verus! {

/// Where the build of the current sub-product stands.
#[derive(Clone, Copy, Debug, PartialEq, Eq, Structural)]
pub enum BuildPhase {
    /// Looking for a stable binary to reuse.
    Probe,
    /// Copying the stable binary into the release tree.
    ReuseCopy,
    /// Running the build tool.
    Compile,
    /// Tagging the source repository with the version.
    Tag,
    /// Pushing the tag.
    Push,
    /// Copying the freshly built binary into the release tree.
    Install,
    /// Every sub-product is in the release tree.
    Finished,
    /// A fatal failure stopped the build.
    Aborted(ReleaseError),
}

/// The state of the build orchestration: the sub-product at hand, by its
/// position in the manifest, and the phase of its build.
#[derive(Clone, Copy, Debug, PartialEq, Eq, Structural)]
pub struct BuildState {
    pub index: usize,
    pub phase: BuildPhase,
}

/// What the program has to do next. Each action but the last two reports one
/// outcome back: whether the file exists, whether the copy succeeded, whether
/// the process exited with success.
pub enum BuildAction {
    CheckExists(String),
    Copy { from: String, to: String },
    Run(Command),
    Finish,
    Abort(ReleaseError),
}

pub open spec fn is_terminal(p: BuildPhase) -> bool {
    p is Finished || p is Aborted
}

/// The state after the sub-product at `index` is in place.
pub open spec fn next_product(n: usize, index: usize) -> BuildState {
    if index + 1 < n {
        BuildState { index: (index + 1) as usize, phase: BuildPhase::Probe }
    } else {
        BuildState { index: n, phase: BuildPhase::Finished }
    }
}

pub open spec fn start_spec(n: usize) -> BuildState {
    if n == 0 {
        BuildState { index: 0, phase: BuildPhase::Finished }
    } else {
        BuildState { index: 0, phase: BuildPhase::Probe }
    }
}

/// The next state, given the outcome of the current state's action.
/// Reuse goes straight to the next sub-product; a failed copy or build is
/// fatal; the outcome of tagging and pushing does not matter.
pub open spec fn advance_spec(n: usize, s: BuildState, ok: bool) -> BuildState {
    match s.phase {
        BuildPhase::Probe => if ok {
            BuildState { index: s.index, phase: BuildPhase::ReuseCopy }
        } else {
            BuildState { index: s.index, phase: BuildPhase::Compile }
        },
        BuildPhase::ReuseCopy => if ok {
            next_product(n, s.index)
        } else {
            BuildState { index: s.index, phase: BuildPhase::Aborted(ReleaseError::Copy) }
        },
        BuildPhase::Compile => if ok {
            BuildState { index: s.index, phase: BuildPhase::Tag }
        } else {
            BuildState { index: s.index, phase: BuildPhase::Aborted(ReleaseError::Build) }
        },
        BuildPhase::Tag => BuildState { index: s.index, phase: BuildPhase::Push },
        BuildPhase::Push => BuildState { index: s.index, phase: BuildPhase::Install },
        BuildPhase::Install => if ok {
            next_product(n, s.index)
        } else {
            BuildState { index: s.index, phase: BuildPhase::Aborted(ReleaseError::Copy) }
        },
        BuildPhase::Finished => s,
        BuildPhase::Aborted(_) => s,
    }
}

/// The build tool's command for a sub-product: a release build in its source
/// tree; off Windows, for the static musl target with OpenSSL from `/usr/local/musl/`.
pub open spec fn compile_command_spec(platform: Platform, name: Seq<char>) -> CommandView {
    CommandView {
        program: "cargo"@,
        args: if platform is Windows {
            seq!["build"@, "--release"@]
        } else {
            seq!["build"@, "--release"@, "--target=x86_64-unknown-linux-musl"@]
        },
        dir: source_dir_spec(name),
        envs: if platform is Windows {
            Seq::empty()
        } else {
            seq![("OPENSSL_DIR"@, "/usr/local/musl/"@)]
        },
    }
}

/// `git tag -a <version> -m <version>` in the sub-product's source tree.
pub open spec fn tag_command_spec(version: Seq<char>, name: Seq<char>) -> CommandView {
    CommandView {
        program: "git"@,
        args: seq!["tag"@, "-a"@, version, "-m"@, version],
        dir: source_dir_spec(name),
        envs: Seq::empty(),
    }
}

/// `git push origin <version>` in the sub-product's source tree.
pub open spec fn push_command_spec(version: Seq<char>, name: Seq<char>) -> CommandView {
    CommandView {
        program: "git"@,
        args: seq!["push"@, "origin"@, version],
        dir: source_dir_spec(name),
        envs: Seq::empty(),
    }
}

/// The action that a state asks for.
pub open spec fn action_spec(
    d: &ReleaseDescriptor,
    m: Seq<(Seq<char>, Seq<char>)>,
    s: BuildState,
    a: BuildAction,
) -> bool {
    let name = m[s.index as int].0;
    let output = d.output_binary_spec(m[s.index as int].1);
    match s.phase {
        BuildPhase::Probe => a is CheckExists && a->CheckExists_0@ == d.stable_binary_spec(name),
        BuildPhase::ReuseCopy => a is Copy && a->from@ == d.stable_binary_spec(name) && a->to@
            == output,
        BuildPhase::Compile => a is Run && a->Run_0@ == compile_command_spec(d.platform, name),
        BuildPhase::Tag => a is Run && a->Run_0@ == tag_command_spec(d.version@, name),
        BuildPhase::Push => a is Run && a->Run_0@ == push_command_spec(d.version@, name),
        BuildPhase::Install => a is Copy && a->from@ == d.built_binary_spec(name) && a->to@
            == output,
        BuildPhase::Finished => a is Finish,
        BuildPhase::Aborted(e) => a == BuildAction::Abort(e),
    }
}

fn compile_command(platform: Platform, name: &str) -> (r: Command)
    ensures
        r@ == compile_command_spec(platform, name@),
{
    let dir = source_dir(name);
    match platform {
        Platform::Windows => {
            let r = Command::new("cargo", strings(&["build", "--release"]), dir.as_str());
            assert(r@.args =~= seq!["build"@, "--release"@]);
            r
        },
        _ => {
            let mut r = Command::new(
                "cargo",
                strings(&["build", "--release", "--target=x86_64-unknown-linux-musl"]),
                dir.as_str(),
            );
            r.envs.push((String::from_str("OPENSSL_DIR"), String::from_str("/usr/local/musl/")));
            assert(r@.args =~= seq!["build"@, "--release"@, "--target=x86_64-unknown-linux-musl"@]);
            assert(r@.envs =~= seq![("OPENSSL_DIR"@, "/usr/local/musl/"@)]);
            r
        },
    }
}

fn tag_command(version: &str, name: &str) -> (r: Command)
    ensures
        r@ == tag_command_spec(version@, name@),
{
    let dir = source_dir(name);
    let r = Command::new("git", strings(&["tag", "-a", version, "-m", version]), dir.as_str());
    assert(r@.args =~= seq!["tag"@, "-a"@, version@, "-m"@, version@]);
    r
}

fn push_command(version: &str, name: &str) -> (r: Command)
    ensures
        r@ == push_command_spec(version@, name@),
{
    let dir = source_dir(name);
    let r = Command::new("git", strings(&["push", "origin", version]), dir.as_str());
    assert(r@.args =~= seq!["push"@, "origin"@, version@]);
    r
}


/// The state reached from `s` when the actions report `outcomes`, in order.
pub open spec fn run_from(n: usize, s: BuildState, outcomes: Seq<bool>) -> BuildState
    decreases outcomes.len(),
{
    if outcomes.len() == 0 {
        s
    } else {
        advance_spec(n, run_from(n, s, outcomes.drop_last()), outcomes.last())
    }
}

/// The state of a run from the start after its first `k` outcomes.
pub open spec fn state_after(n: usize, outcomes: Seq<bool>, k: int) -> BuildState {
    run_from(n, start_spec(n), outcomes.take(k))
}

/// Whether the `k`-th action of a run copied a binary into the release tree
/// for the sub-product at `i`, and succeeded.
pub open spec fn installed_at(n: usize, outcomes: Seq<bool>, k: int, i: int) -> bool {
    let s = state_after(n, outcomes, k);
    &&& 0 <= k < outcomes.len()
    &&& s.index == i
    &&& (s.phase is ReuseCopy || s.phase is Install)
    &&& outcomes[k]
}

proof fn lemma_state_step(n: usize, outcomes: Seq<bool>, j: int)
    requires
        0 < j <= outcomes.len(),
    ensures
        state_after(n, outcomes, j) == advance_spec(
            n,
            state_after(n, outcomes, j - 1),
            outcomes[j - 1],
        ),
{
    assert(outcomes.take(j).drop_last() =~= outcomes.take(j - 1));
    assert(outcomes.take(j).last() == outcomes[j - 1]);
}

proof fn lemma_closed(n: usize, outcomes: Seq<bool>, k: int, j: int, p: spec_fn(BuildState) -> bool)
    requires
        0 <= k <= j <= outcomes.len(),
        p(state_after(n, outcomes, k)),
        forall|s: BuildState, ok: bool| p(s) ==> #[trigger] p(advance_spec(n, s, ok)),
    ensures
        p(state_after(n, outcomes, j)),
    decreases j - k,
{
    if j > k {
        lemma_closed(n, outcomes, k, j - 1, p);
        lemma_state_step(n, outcomes, j);
    }
}

proof fn lemma_wf(n: usize, outcomes: Seq<bool>, j: int)
    requires
        0 <= j <= outcomes.len(),
    ensures
        state_after(n, outcomes, j).wf(n),
        state_after(n, outcomes, j).phase is Finished ==> state_after(n, outcomes, j).index == n,
{
    let p = |s: BuildState| s.wf(n) && (s.phase is Finished ==> s.index == n);
    assert(outcomes.take(0) =~= Seq::<bool>::empty());
    lemma_closed(n, outcomes, 0, j, p);
}

/// Reuse takes precedence: once the probe of a sub-product has found a
/// stable binary, no state of the run, before or after, runs the build tool
/// for that sub-product, nor tags or installs it.
pub proof fn lemma_reuse_never_builds(n: usize, outcomes: Seq<bool>, k: int, j: int)
    requires
        0 <= k < outcomes.len(),
        0 <= j <= outcomes.len(),
        state_after(n, outcomes, k).phase is Probe,
        outcomes[k],
    ensures
        state_after(n, outcomes, j).index == state_after(n, outcomes, k).index ==> !(
        state_after(n, outcomes, j).phase is Compile || state_after(n, outcomes, j).phase is Tag
            || state_after(n, outcomes, j).phase is Push || state_after(n, outcomes, j).phase is Install),
{
    let i = state_after(n, outcomes, k).index;
    let built = |s: BuildState|
        s.index == i && (s.phase is Compile || s.phase is Tag || s.phase is Push
            || s.phase is Install);
    if j <= k {
        let q = |s: BuildState| s.index > i || is_terminal(s.phase) || built(s);
        if q(state_after(n, outcomes, j)) {
            lemma_closed(n, outcomes, j, k, q);
        }
    } else {
        let q = |s: BuildState| s.index > i || s.phase is Aborted || s.phase is Finished || (
        s.index == i && s.phase is ReuseCopy);
        lemma_state_step(n, outcomes, k + 1);
        lemma_closed(n, outcomes, k + 1, j, q);
    }
}

/// Whether one of the first `j` actions of a run installed the sub-product at `i`.
pub open spec fn installed_before(n: usize, outcomes: Seq<bool>, j: int, i: int) -> bool {
    exists|k: int| k < j && #[trigger] installed_at(n, outcomes, k, i)
}

proof fn lemma_installed_prefix(n: usize, outcomes: Seq<bool>, j: int)
    requires
        0 <= j <= outcomes.len(),
    ensures
        forall|i: int|
            0 <= i < state_after(n, outcomes, j).index ==> #[trigger] installed_before(
                n,
                outcomes,
                j,
                i,
            ),
    decreases j,
{
    if j > 0 {
        lemma_installed_prefix(n, outcomes, j - 1);
        lemma_state_step(n, outcomes, j);
        lemma_wf(n, outcomes, j - 1);
        let s = state_after(n, outcomes, j - 1);
        let t = state_after(n, outcomes, j);
        assert forall|i: int| 0 <= i < t.index implies #[trigger] installed_before(
            n,
            outcomes,
            j,
            i,
        ) by {
            if i < s.index {
                assert(installed_before(n, outcomes, j - 1, i));
                let k = choose|k: int| k < j - 1 && #[trigger] installed_at(n, outcomes, k, i);
                assert(installed_at(n, outcomes, k, i));
            } else {
                assert(installed_at(n, outcomes, j - 1, i));
            }
        }
    } else {
        assert(outcomes.take(0) =~= Seq::<bool>::empty());
    }
}

/// A run that finishes has put every declared sub-product in place, each by
/// exactly one successful copy to its declared output path.
pub proof fn lemma_finished_run_installs_each_once(n: usize, outcomes: Seq<bool>)
    requires
        state_after(n, outcomes, outcomes.len() as int).phase is Finished,
    ensures
        forall|i: int|
            0 <= i < n ==> #[trigger] installed_before(n, outcomes, outcomes.len() as int, i),
        forall|i: int, k1: int, k2: int|
            installed_at(n, outcomes, k1, i) && installed_at(n, outcomes, k2, i) ==> k1 == k2,
{
    let len = outcomes.len() as int;
    lemma_wf(n, outcomes, len);
    lemma_installed_prefix(n, outcomes, len);
    assert forall|i: int, k1: int, k2: int|
        installed_at(n, outcomes, k1, i) && installed_at(n, outcomes, k2, i) implies k1 == k2 by {
        if k1 != k2 {
            let (a, b) = if k1 < k2 { (k1, k2) } else { (k2, k1) };
            let q = |s: BuildState| s.index > i;
            lemma_wf(n, outcomes, a);
            lemma_state_step(n, outcomes, a + 1);
            lemma_closed(n, outcomes, a + 1, b, q);
        }
    }
}

/// The copy of a sub-product's binary, by reuse or after a build, targets the
/// declared output name with the platform's suffix.
pub proof fn lemma_install_target(
    d: &ReleaseDescriptor,
    m: Seq<(Seq<char>, Seq<char>)>,
    s: BuildState,
    a: BuildAction,
)
    requires
        action_spec(d, m, s, a),
        s.phase is ReuseCopy || s.phase is Install,
    ensures
        a is Copy,
        a->to@ == d.release_dir_spec() + m[s.index as int].1 + d.platform.exe_suffix_spec(),
{
}

impl BuildState {
    /// A state is well formed for a manifest of `n` sub-products when it
    /// names one of them, or is terminal.
    pub open spec fn wf(&self, n: usize) -> bool {
        is_terminal(self.phase) || self.index < n
    }

    /// The state before anything is done: the first sub-product's probe, or
    /// finished at once for an empty manifest.
    pub fn start(m: &BuildManifest) -> (r: BuildState)
        ensures
            r == start_spec(m@.len() as usize),
            r.wf(m@.len() as usize),
    {
        if m.len() == 0 {
            BuildState { index: 0, phase: BuildPhase::Finished }
        } else {
            BuildState { index: 0, phase: BuildPhase::Probe }
        }
    }

    /// Whether the build is over, finished or aborted.
    pub fn is_done(&self) -> (r: bool)
        ensures
            r == is_terminal(self.phase),
    {
        match self.phase {
            BuildPhase::Finished => true,
            BuildPhase::Aborted(_) => true,
            _ => false,
        }
    }

    /// The action to perform in this state.
    pub fn action(&self, d: &ReleaseDescriptor, m: &BuildManifest) -> (r: BuildAction)
        requires
            self.wf(m@.len() as usize),
        ensures
            action_spec(d, m@, *self, r),
    {
        if self.is_done() {
            return match self.phase {
                BuildPhase::Aborted(e) => BuildAction::Abort(e),
                _ => BuildAction::Finish,
            };
        }
        let p = &m.products[self.index];
        proof {
            assert(m@[self.index as int] == (p.name@, p.output@));
        }
        let name = p.name.as_str();
        match self.phase {
            BuildPhase::Probe => BuildAction::CheckExists(d.stable_binary(name)),
            BuildPhase::ReuseCopy => BuildAction::Copy {
                from: d.stable_binary(name),
                to: d.output_binary(p.output.as_str()),
            },
            BuildPhase::Compile => BuildAction::Run(compile_command(d.platform, name)),
            BuildPhase::Tag => BuildAction::Run(tag_command(d.version.as_str(), name)),
            BuildPhase::Push => BuildAction::Run(push_command(d.version.as_str(), name)),
            _ => BuildAction::Copy {
                from: d.built_binary(name),
                to: d.output_binary(p.output.as_str()),
            },
        }
    }

    /// Moves on, given the outcome of the action of the current state.
    pub fn advance(&mut self, m: &BuildManifest, ok: bool)
        requires
            old(self).wf(m@.len() as usize),
        ensures
            *final(self) == advance_spec(m@.len() as usize, *old(self), ok),
            final(self).wf(m@.len() as usize),
    {
        let n = m.len();
        let i = self.index;
        let next = if n > 0 && i < n - 1 {
            BuildState { index: i + 1, phase: BuildPhase::Probe }
        } else {
            BuildState { index: n, phase: BuildPhase::Finished }
        };
        let s = match self.phase {
            BuildPhase::Probe => if ok {
                BuildState { index: i, phase: BuildPhase::ReuseCopy }
            } else {
                BuildState { index: i, phase: BuildPhase::Compile }
            },
            BuildPhase::ReuseCopy => if ok {
                next
            } else {
                BuildState { index: i, phase: BuildPhase::Aborted(ReleaseError::Copy) }
            },
            BuildPhase::Compile => if ok {
                BuildState { index: i, phase: BuildPhase::Tag }
            } else {
                BuildState { index: i, phase: BuildPhase::Aborted(ReleaseError::Build) }
            },
            BuildPhase::Tag => BuildState { index: i, phase: BuildPhase::Push },
            BuildPhase::Push => BuildState { index: i, phase: BuildPhase::Install },
            BuildPhase::Install => if ok {
                next
            } else {
                BuildState { index: i, phase: BuildPhase::Aborted(ReleaseError::Copy) }
            },
            _ => *self,
        };
        *self = s;
    }
}

} // verus!
