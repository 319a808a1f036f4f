//! Bootstrap a freshly created git worktree: copy gitignored files, install
//! dependencies, and run per-repo hooks.
//!
//! The library decides *what happens*: [`run`] turns a repo's config into the
//! ordered steps of the bootstrap, and the functions of [`bootstrap`] decide
//! each step's commands and copies. The program around it carries them out.

pub mod bootstrap;
pub mod config;
pub mod error;
pub mod event;
pub mod glob;
pub mod herdr;
pub mod rollback;
pub mod text;

use vstd::prelude::*;
use crate::bootstrap::{
    copies_spec, copies_view, copy_files, git_update, git_update_spec, hook_spec, hooks_spec,
    builtin_rules, install_deps, install_spec, invocations_view, run_hooks, CopyOp, CopyView, InstallPlan,
    InstallPlanView, Invocation, InvocationView,
};
use crate::config::{empty_config, Config, ConfigView};
use crate::error::{BootstrapError, ErrorView};
use crate::text::{clone_strs, opt_strs, owned, path_join};

verus! {

/// The phase a command belongs to.
#[derive(Debug, Clone, Copy, PartialEq, Eq, Structural)]
pub enum Phase {
    GitUpdate,
    PreHook,
    PostHook,
}

/// One step of the bootstrap.
#[derive(Debug, PartialEq, Eq)]
pub enum Step {
    /// Run a command; a non-zero exit aborts.
    Run(Phase, Invocation),
    /// Copy each of these files whose source exists; a missing one is skipped.
    CopyFiles(Vec<CopyOp>),
    /// List the source repo's gitignored paths with git and copy those that
    /// [`bootstrap::copy_gitignored`] selects.
    CopyGitignored { source: String, worktree: String, patterns: Option<Vec<String>> },
    /// Detect and install dependencies in each directory of the plan.
    Install(InstallPlan),
    /// Stop here with this failure.
    Abort(BootstrapError),
}

/// A step, as text.
pub enum StepView {
    Run(Phase, InvocationView),
    CopyFiles(Seq<CopyView>),
    CopyGitignored { source: Seq<char>, worktree: Seq<char>, patterns: Option<Seq<Seq<char>>> },
    Install(InstallPlanView),
    Abort(ErrorView),
}

impl View for Step {
    type V = StepView;

    open spec fn view(&self) -> StepView {
        match self {
            Step::Run(phase, inv) => StepView::Run(*phase, inv@),
            Step::CopyFiles(ops) => StepView::CopyFiles(copies_view(ops@)),
            Step::CopyGitignored { source, worktree, patterns } => StepView::CopyGitignored {
                source: source@,
                worktree: worktree@,
                patterns: opt_strs(*patterns),
            },
            Step::Install(plan) => StepView::Install(plan@),
            Step::Abort(e) => StepView::Abort(e@),
        }
    }
}

/// The views of a sequence of steps.
pub open spec fn steps_view(v: Seq<Step>) -> Seq<StepView> {
    v.map_values(|s: Step| s@)
}

/// Commands of one phase as steps.
pub open spec fn run_steps(phase: Phase, invs: Seq<InvocationView>) -> Seq<StepView> {
    invs.map_values(|i: InvocationView| StepView::Run(phase, i))
}

/// The git update step, if `[git] update` is set.
pub open spec fn git_steps(worktree: Seq<char>, c: ConfigView) -> Seq<StepView> {
    if c.git_update {
        seq![StepView::Run(Phase::GitUpdate, git_update_spec(worktree, c.git_command))]
    } else {
        Seq::empty()
    }
}

/// The copy step, if copy is enabled (with a source repo): the explicit
/// files when `files` is set, discovery otherwise.
pub open spec fn copy_steps(worktree: Seq<char>, source: Seq<char>, c: ConfigView) -> Seq<StepView> {
    if c.copy_enabled {
        match c.copy_files {
            Some(files) => seq![StepView::CopyFiles(copies_spec(source, worktree, files))],
            None => seq![
                StepView::CopyGitignored { source, worktree, patterns: c.copy_patterns },
            ],
        }
    } else {
        Seq::empty()
    }
}

/// The install step, if install is enabled.
pub open spec fn install_steps(worktree: Seq<char>, c: ConfigView) -> Seq<StepView> {
    if c.install_enabled {
        seq![StepView::Install(install_spec(worktree, c.install_rules, c.install_dirs))]
    } else {
        Seq::empty()
    }
}

/// The whole bootstrap, in its fixed order: git update, pre hooks, copy,
/// install, post hooks. Copy needs the source repo; without one, an enabled
/// copy aborts the bootstrap where the copy would have run.
pub open spec fn plan(worktree: Seq<char>, source: Option<Seq<char>>, c: ConfigView) -> Seq<StepView> {
    let head = git_steps(worktree, c) + run_steps(Phase::PreHook, hooks_spec(worktree, c.pre));
    match source {
        None if c.copy_enabled => head.push(StepView::Abort(ErrorView::NoSourceRepo)),
        _ => {
            let src = match source {
                Some(s) => s,
                None => Seq::empty(),
            };
            head + copy_steps(worktree, src, c) + install_steps(worktree, c) + run_steps(
                Phase::PostHook,
                hooks_spec(worktree, c.post),
            )
        },
    }
}

fn push_runs(steps: &mut Vec<Step>, phase: Phase, invs: Vec<Invocation>)
    ensures
        steps_view(final(steps)@) == steps_view(old(steps)@) + run_steps(
            phase,
            invocations_view(invs@),
        ),
{
    let mut invs = invs;
    let ghost all = invocations_view(invs@);
    let ghost start = steps_view(steps@);
    let n = invs.len();
    let mut i: usize = 0;
    while i < n
        invariant
            i <= n,
            invs@.len() == n - i,
            forall|k: int| 0 <= k < n - i ==> #[trigger] invs@[k]@ == all[k + i],
            all.len() == n,
            steps_view(steps@) == start + run_steps(phase, all.take(i as int)),
        decreases n - i,
    {
        let ghost before = steps_view(steps@);
        let ghost old_invs = invs@;
        let inv = invs.remove(0);
        assert(inv@ == all[i as int]);
        assert forall|k: int| 0 <= k < n - (i + 1) implies #[trigger] invs@[k]@ == all[k + i + 1] by {
            assert(invs@[k] == old_invs[k + 1]);
        }
        steps.push(Step::Run(phase, inv));
        assert(all.take(i + 1) =~= all.take(i as int).push(all[i as int]));
        assert(steps_view(steps@) =~= before.push(StepView::Run(phase, all[i as int])));
        assert(run_steps(phase, all.take(i + 1)) =~= run_steps(phase, all.take(i as int)).push(
            StepView::Run(phase, all[i as int]),
        ));
        i = i + 1;
    }
    assert(all.take(n as int) =~= all);
}

/// Run the whole bootstrap lifecycle against `worktree`: the steps, in the
/// order they are carried out — **git update → pre hooks → copy → install →
/// post hooks**. The first failing step aborts the rest (fail-fast).
///
/// `source` is the repo the worktree was derived from. It is only needed by
/// the copy phase; the other phases operate entirely inside `worktree`.
pub fn run(worktree: &str, source: Option<&str>, config: &Config) -> (r: Vec<Step>)
    ensures
        steps_view(r@) == plan(
            worktree@,
            match source {
                Some(s) => Some(s@),
                None => None,
            },
            config@,
        ),
{
    let ghost w = worktree@;
    let ghost c = config@;
    let mut steps: Vec<Step> = Vec::new();
    if config.git.update {
        let command = match &config.git.command {
            Some(v) => Some(v.as_slice()),
            None => None,
        };
        steps.push(Step::Run(Phase::GitUpdate, git_update(worktree, command)));
    }
    assert(steps_view(steps@) =~= git_steps(w, c));
    let pre = run_hooks(worktree, config.hooks.pre.as_slice());
    push_runs(&mut steps, Phase::PreHook, pre);
    let ghost head = git_steps(w, c) + run_steps(Phase::PreHook, hooks_spec(w, c.pre));
    assert(steps_view(steps@) == head);
    if config.copy.enabled {
        match source {
            None => {
                steps.push(Step::Abort(BootstrapError::NoSourceRepo));
                assert(steps_view(steps@) =~= head.push(StepView::Abort(ErrorView::NoSourceRepo)));
                return steps;
            },
            Some(src) => {
                match &config.copy.files {
                    Some(files) => {
                        steps.push(Step::CopyFiles(copy_files(src, worktree, files.as_slice())));
                    },
                    None => {
                        let patterns = match &config.copy.patterns {
                            Some(p) => Some(clone_strs(p.as_slice())),
                            None => None,
                        };
                        steps.push(
                            Step::CopyGitignored {
                                source: owned(src),
                                worktree: owned(worktree),
                                patterns,
                            },
                        );
                    },
                }
                assert(steps_view(steps@) =~= head + copy_steps(w, src@, c));
            },
        }
    }
    let ghost src_v = match source {
        Some(s) => s@,
        None => Seq::<char>::empty(),
    };
    assert(steps_view(steps@) =~= head + copy_steps(w, src_v, c));
    if config.install.enabled {
        let dirs = match &config.install.dirs {
            Some(d) => Some(d.as_slice()),
            None => None,
        };
        let ghost before = steps_view(steps@);
        steps.push(Step::Install(install_deps(worktree, config.install.rules.as_slice(), dirs)));
        assert(steps_view(steps@) =~= before.push(steps@.last()@));
    }
    assert(steps_view(steps@) =~= head + copy_steps(w, src_v, c) + install_steps(w, c));
    let post = run_hooks(worktree, config.hooks.post.as_slice());
    push_runs(&mut steps, Phase::PostHook, post);
    assert(steps_view(steps@) =~= head + copy_steps(w, src_v, c) + install_steps(w, c) + run_steps(
        Phase::PostHook,
        hooks_spec(w, c.post),
    ));
    steps
}

/// What the program does next while carrying out the steps.
#[derive(Debug, PartialEq, Eq)]
pub enum Next {
    /// Carry out the step at this index.
    Perform(usize),
    /// Every step succeeded.
    Done,
    /// A step failed with this failure; nothing after it runs.
    Stop(BootstrapError),
}

/// Where carrying out `len` steps begins.
pub fn first_step(len: usize) -> (r: Next)
    ensures
        len == 0 ==> r is Done,
        len > 0 ==> r == Next::Perform(0),
{
    if len == 0 {
        Next::Done
    } else {
        Next::Perform(0)
    }
}

/// What follows step `index` of `len` once it finished with `outcome`
/// (fail-fast): its failure stops the bootstrap; otherwise the next step, or
/// the end.
pub fn after_step(len: usize, index: usize, outcome: Result<(), BootstrapError>) -> (r: Next)
    requires
        index < len,
    ensures
        match outcome {
            Err(e) => r matches Next::Stop(f) && f@ == e@,
            Ok(()) => if index + 1 < len {
                r == Next::Perform((index + 1) as usize)
            } else {
                r is Done
            },
        },
{
    match outcome {
        Err(e) => Next::Stop(e),
        Ok(()) => if index + 1 < len {
            Next::Perform(index + 1)
        } else {
            Next::Done
        },
    }
}

/// The place of a step in the lifecycle order.
pub open spec fn rank(step: StepView) -> int {
    match step {
        StepView::Run(Phase::GitUpdate, _) => 0,
        StepView::Run(Phase::PreHook, _) => 1,
        StepView::CopyFiles(_) => 2,
        StepView::CopyGitignored { .. } => 2,
        StepView::Install(_) => 3,
        StepView::Run(Phase::PostHook, _) => 4,
        StepView::Abort(_) => 5,
    }
}

proof fn lemma_run_steps_rank(phase: Phase, invs: Seq<InvocationView>)
    ensures
        forall|i: int| 0 <= i < invs.len() ==> #[trigger] run_steps(phase, invs)[i] == StepView::Run(phase, invs[i]),
        run_steps(phase, invs).len() == invs.len(),
{
}

/// The pre hooks' steps.
pub open spec fn pre_steps(worktree: Seq<char>, c: ConfigView) -> Seq<StepView> {
    run_steps(Phase::PreHook, hooks_spec(worktree, c.pre))
}

/// The post hooks' steps.
pub open spec fn post_steps(worktree: Seq<char>, c: ConfigView) -> Seq<StepView> {
    run_steps(Phase::PostHook, hooks_spec(worktree, c.post))
}

/// The source repo as text (empty when there is none).
pub open spec fn source_text(source: Option<Seq<char>>) -> Seq<char> {
    match source {
        Some(s) => s,
        None => Seq::empty(),
    }
}

/// Whether the plan aborts: copy is enabled without a source repo.
pub open spec fn aborts(source: Option<Seq<char>>, c: ConfigView) -> bool {
    c.copy_enabled && source is None
}

/// What each index of the plan holds, by the part of the lifecycle it falls
/// in: git update, pre hooks, then either the abort or copy, install and
/// post hooks.
proof fn lemma_plan_index(worktree: Seq<char>, source: Option<Seq<char>>, c: ConfigView, k: int)
    requires
        0 <= k < plan(worktree, source, c).len(),
    ensures
        ({
            let p = plan(worktree, source, c);
            let g = git_steps(worktree, c);
            let pre = pre_steps(worktree, c);
            let cp = copy_steps(worktree, source_text(source), c);
            let ins = install_steps(worktree, c);
            let post = post_steps(worktree, c);
            let h = g.len() + pre.len();
            &&& k < g.len() ==> p[k] == g[k]
            &&& g.len() <= k < h ==> p[k] == pre[k - g.len()] && rank(p[k]) == 1
            &&& aborts(source, c) ==> p.len() == h + 1 && (k == h ==> p[k] == StepView::Abort(
                ErrorView::NoSourceRepo,
            ))
            &&& !aborts(source, c) ==> p.len() == h + cp.len() + ins.len() + post.len()
            &&& !aborts(source, c) && h <= k < h + cp.len() ==> p[k] == cp[k - h]
            &&& !aborts(source, c) && h + cp.len() <= k < h + cp.len() + ins.len() ==> p[k]
                == ins[k - h - cp.len()]
            &&& !aborts(source, c) && h + cp.len() + ins.len() <= k ==> p[k] == post[k - h
                - cp.len() - ins.len()] && rank(p[k]) == 4
        }),
{
    lemma_run_steps_rank(Phase::PreHook, hooks_spec(worktree, c.pre));
    lemma_run_steps_rank(Phase::PostHook, hooks_spec(worktree, c.post));
    let g = git_steps(worktree, c);
    let pre = pre_steps(worktree, c);
    let cp = copy_steps(worktree, source_text(source), c);
    let ins = install_steps(worktree, c);
    let post = post_steps(worktree, c);
    let head = g + pre;
    let p = plan(worktree, source, c);
    if aborts(source, c) {
        assert(p == head.push(StepView::Abort(ErrorView::NoSourceRepo)));
        if k < head.len() {
            assert(p[k] == head[k]);
        }
    } else {
        assert(p == head + cp + ins + post);
        if k < head.len() {
            assert(p[k] == head[k]);
        }
    }
}

/// A repository without a config file gets the default config, and the
/// default config does nothing: no step at all.
pub proof fn law_missing_config_does_nothing(worktree: Seq<char>, source: Option<Seq<char>>)
    ensures
        plan(worktree, source, empty_config()) == Seq::<StepView>::empty(),
{
    let c = empty_config();
    assert(hooks_spec(worktree, c.pre) =~= Seq::empty());
    assert(hooks_spec(worktree, c.post) =~= Seq::empty());
    assert(run_steps(Phase::PreHook, hooks_spec(worktree, c.pre)) =~= Seq::empty());
    assert(run_steps(Phase::PostHook, hooks_spec(worktree, c.post)) =~= Seq::empty());
    assert(plan(worktree, source, c) =~= Seq::<StepView>::empty());
}

proof fn lemma_rank_by_index(worktree: Seq<char>, source: Option<Seq<char>>, c: ConfigView, k: int)
    requires
        0 <= k < plan(worktree, source, c).len(),
    ensures
        ({
            let h = git_steps(worktree, c).len() + pre_steps(worktree, c).len();
            let cl = copy_steps(worktree, source_text(source), c).len();
            let il = install_steps(worktree, c).len();
            rank(plan(worktree, source, c)[k]) == if k < git_steps(worktree, c).len() {
                0int
            } else if k < h {
                1int
            } else if aborts(source, c) {
                5int
            } else if k < h + cl {
                2int
            } else if k < h + cl + il {
                3int
            } else {
                4int
            }
        }),
{
    lemma_plan_index(worktree, source, c, k);
}

/// The lifecycle order is fixed — git update, pre hooks, copy, install, post
/// hooks — and a failure that aborts the bootstrap comes after everything that
/// runs: every step's place is at least that of every step before it.
pub proof fn law_phases_run_in_lifecycle_order(
    worktree: Seq<char>,
    source: Option<Seq<char>>,
    c: ConfigView,
    i: int,
    j: int,
)
    requires
        0 <= i < j < plan(worktree, source, c).len(),
    ensures
        rank(plan(worktree, source, c)[i]) <= rank(plan(worktree, source, c)[j]),
{
    lemma_rank_by_index(worktree, source, c, i);
    lemma_rank_by_index(worktree, source, c, j);
}

/// Fail-fast within the plan: a step that aborts the bootstrap is always the
/// last one, and it comes exactly when copy is enabled without a source repo.
pub proof fn law_abort_is_last(worktree: Seq<char>, source: Option<Seq<char>>, c: ConfigView, i: int)
    requires
        0 <= i < plan(worktree, source, c).len(),
        plan(worktree, source, c)[i] is Abort,
    ensures
        i == plan(worktree, source, c).len() - 1,
        c.copy_enabled && source is None,
        plan(worktree, source, c)[i] == StepView::Abort(ErrorView::NoSourceRepo),
{
    lemma_plan_index(worktree, source, c, i);
    lemma_rank_by_index(worktree, source, c, i);
}

/// Hooks run in the order they are configured, pre hooks right after the git
/// update (if any), each in the worktree or in its own `dir` inside it.
pub proof fn law_pre_hooks_run_in_order(worktree: Seq<char>, source: Option<Seq<char>>, c: ConfigView, k: int)
    requires
        0 <= k < c.pre.len(),
    ensures
        plan(worktree, source, c)[(if c.git_update { 1int } else { 0int }) + k] == StepView::Run(
            Phase::PreHook,
            hook_spec(worktree, c.pre[k]),
        ),
{
    lemma_run_steps_rank(Phase::PreHook, hooks_spec(worktree, c.pre));
    let g = git_steps(worktree, c);
    lemma_plan_index(worktree, source, c, g.len() + k);
}

/// Post hooks run last, in the order they are configured, unless the
/// bootstrap aborted before them.
pub proof fn law_post_hooks_run_last_in_order(worktree: Seq<char>, source: Option<Seq<char>>, c: ConfigView, k: int)
    requires
        0 <= k < c.post.len(),
        !(c.copy_enabled && source is None),
    ensures
        plan(worktree, source, c)[plan(worktree, source, c).len() - c.post.len() + k] == StepView::Run(
            Phase::PostHook,
            hook_spec(worktree, c.post[k]),
        ),
{
    lemma_run_steps_rank(Phase::PostHook, hooks_spec(worktree, c.post));
    lemma_run_steps_rank(Phase::PreHook, hooks_spec(worktree, c.pre));
    lemma_plan_index(worktree, source, c, 0);
    let p = plan(worktree, source, c);
    lemma_plan_index(worktree, source, c, p.len() - c.post.len() + k);
}

/// With an explicit `files` list, discovery is disabled: the plan copies
/// exactly those files and never lists gitignored ones.
pub proof fn law_explicit_files_disable_discovery(
    worktree: Seq<char>,
    source: Option<Seq<char>>,
    c: ConfigView,
    i: int,
)
    requires
        c.copy_files is Some,
        0 <= i < plan(worktree, source, c).len(),
    ensures
        !(plan(worktree, source, c)[i] is CopyGitignored),
{
    lemma_plan_index(worktree, source, c, i);
    lemma_rank_by_index(worktree, source, c, i);
}

/// With `[git] update`, the plan starts with the git update in the worktree:
/// the configured command, or `git fetch --all --prune`.
pub proof fn law_git_update_comes_first(worktree: Seq<char>, source: Option<Seq<char>>, c: ConfigView)
    requires
        c.git_update,
    ensures
        plan(worktree, source, c).len() > 0,
        plan(worktree, source, c)[0] == StepView::Run(
            Phase::GitUpdate,
            InvocationView {
                cwd: worktree,
                argv: match c.git_command {
                    Some(argv) => argv,
                    None => seq!["git"@, "fetch"@, "--all"@, "--prune"@],
                },
            },
        ),
{
    lemma_plan_index(worktree, source, c, 0);
}

/// With copy enabled and a source repo, the copy step comes right after the
/// pre hooks: with `files`, one copy per listed file, in order, from that
/// path under the source to that path under the worktree; without, discovery
/// in the source repo with the configured globs.
pub proof fn law_copy_step_follows_the_config(worktree: Seq<char>, source: Seq<char>, c: ConfigView)
    requires
        c.copy_enabled,
    ensures
        ({
            let p = plan(worktree, Some(source), c);
            let i = (if c.git_update { 1int } else { 0int }) + c.pre.len();
            &&& 0 <= i < p.len()
            &&& match c.copy_files {
                Some(fs) => {
                    &&& p[i] is CopyFiles
                    &&& p[i]->CopyFiles_0.len() == fs.len()
                    &&& forall|k: int|
                        0 <= k < fs.len() ==> #[trigger] p[i]->CopyFiles_0[k] == (CopyView {
                            rel: fs[k],
                            from: path_join(source, fs[k]),
                            to: path_join(worktree, fs[k]),
                        })
                },
                None => p[i] == (StepView::CopyGitignored {
                    source,
                    worktree,
                    patterns: c.copy_patterns,
                }),
            }
        }),
{
    lemma_run_steps_rank(Phase::PreHook, hooks_spec(worktree, c.pre));
    let i = (if c.git_update { 1int } else { 0int }) + c.pre.len();
    lemma_plan_index(worktree, Some(source), c, 0);
    lemma_plan_index(worktree, Some(source), c, i);
    match c.copy_files {
        Some(fs) => {
            crate::bootstrap::law_copies_follow_the_paths(source, worktree, fs);
        },
        None => {},
    }
}

/// With install enabled (and no abort before it), the install step comes
/// right before the post hooks: detection in each configured directory
/// (`install.dirs`, or the worktree root `.` when omitted), in order, each at
/// that directory joined onto the worktree, checking the custom rules first,
/// in order, and then the built-ins.
pub proof fn law_install_step_follows_the_config(worktree: Seq<char>, source: Option<Seq<char>>, c: ConfigView)
    requires
        c.install_enabled,
        !(c.copy_enabled && source is None),
    ensures
        ({
            let p = plan(worktree, source, c);
            let labels = match c.install_dirs {
                Some(d) => d,
                None => seq!["."@],
            };
            let i = p.len() - c.post.len() - 1;
            &&& 0 <= i < p.len()
            &&& p[i] is Install
            &&& p[i]->Install_0.dirs.len() == labels.len()
            &&& forall|j: int|
                0 <= j < labels.len() ==> (#[trigger] p[i]->Install_0.dirs[j]).label == labels[j]
                    && p[i]->Install_0.dirs[j].base == path_join(worktree, labels[j])
            &&& p[i]->Install_0.candidates.len() == c.install_rules.len() + builtin_rules().len()
            &&& forall|j: int|
                0 <= j < c.install_rules.len() ==> #[trigger] p[i]->Install_0.candidates[j]
                    == c.install_rules[j]
            &&& forall|j: int|
                0 <= j < builtin_rules().len() ==> #[trigger] p[i]->Install_0.candidates[c.install_rules.len()
                    + j] == builtin_rules()[j]
        }),
{
    lemma_run_steps_rank(Phase::PostHook, hooks_spec(worktree, c.post));
    let p = plan(worktree, source, c);
    lemma_plan_index(worktree, source, c, 0);
    let i = p.len() - c.post.len() - 1;
    lemma_plan_index(worktree, source, c, i);
    let ip = install_spec(worktree, c.install_rules, c.install_dirs);
    assert(p[i] == StepView::Install(ip));
    assert forall|j: int|
        0 <= j < builtin_rules().len() implies #[trigger] ip.candidates[c.install_rules.len() + j]
            == builtin_rules()[j] by {}
}

/// A phase that is off contributes nothing: no git update without
/// `[git] update`, no copy without copy enabled, no install without install
/// enabled.
pub proof fn law_disabled_phases_do_nothing(worktree: Seq<char>, source: Option<Seq<char>>, c: ConfigView, i: int)
    requires
        0 <= i < plan(worktree, source, c).len(),
    ensures
        plan(worktree, source, c)[i] matches StepView::Run(Phase::GitUpdate, _) ==> c.git_update,
        (plan(worktree, source, c)[i] is CopyFiles || plan(worktree, source, c)[i] is CopyGitignored)
            ==> c.copy_enabled,
        plan(worktree, source, c)[i] is Install ==> c.install_enabled,
{
    lemma_plan_index(worktree, source, c, i);
    lemma_rank_by_index(worktree, source, c, i);
}

/// A relative path: not empty, and not starting with `/`.
pub open spec fn relative(p: Seq<char>) -> bool {
    p.len() > 0 && p[0] != '/'
}

/// Given a source repo and a worktree that are disjoint directories, and
/// relative `files` and `dirs` in the config, every explicit copy the plan
/// makes lands inside the worktree (and not inside the source repo), reading
/// from inside the source repo; and every install directory lies inside the
/// worktree and not inside the source repo. (Lexically: `..` components are
/// not resolved.)
pub proof fn law_copies_and_installs_land_in_the_worktree(
    worktree: Seq<char>,
    source: Seq<char>,
    c: ConfigView,
    i: int,
    j: int,
)
    requires
        worktree.len() > 0,
        source.len() > 0,
        crate::text::disjoint(worktree, source),
        c.copy_files matches Some(fs) ==> forall|k: int| 0 <= k < fs.len() ==> relative(#[trigger] fs[k]),
        c.install_dirs matches Some(ds) ==> forall|k: int| 0 <= k < ds.len() ==> relative(#[trigger] ds[k]),
        0 <= i < plan(worktree, Some(source), c).len(),
    ensures
        plan(worktree, Some(source), c)[i] matches StepView::CopyFiles(ops) ==> (0 <= j < ops.len()
            ==> crate::text::inside(ops[j].to, worktree) && !crate::text::inside(ops[j].to, source)
            && crate::text::inside(ops[j].from, source)),
        plan(worktree, Some(source), c)[i] matches StepView::Install(p) ==> (0 <= j < p.dirs.len()
            ==> crate::text::inside(p.dirs[j].base, worktree) && !crate::text::inside(
            p.dirs[j].base,
            source,
        )),
{
    lemma_plan_index(worktree, Some(source), c, i);
    lemma_rank_by_index(worktree, Some(source), c, i);
    let p = plan(worktree, Some(source), c);
    if let StepView::CopyFiles(ops) = p[i] {
        if 0 <= j < ops.len() {
            let fs = c.copy_files->0;
            assert(relative(fs[j]));
            crate::bootstrap::law_copy_lands_in_the_worktree(source, worktree, fs[j]);
        }
    }
    if let StepView::Install(ip) = p[i] {
        if 0 <= j < ip.dirs.len() {
            let labels = crate::bootstrap::install_labels(c.install_dirs);
            match c.install_dirs {
                Some(ds) => {
                    assert(relative(ds[j]));
                },
                None => {
                    assert(labels[j] == "."@);
                    reveal_strlit(".");
                },
            }
            crate::text::law_relative_join_stays_inside(worktree, labels[j]);
            crate::text::law_inside_one_of_disjoint_is_outside_the_other(
                path_join(worktree, labels[j]),
                worktree,
                source,
            );
        }
    }
}

} // verus!
