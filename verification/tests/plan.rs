use herdr_worktree_bootstrap::bootstrap::{install_deps, CopyOp, Invocation};
use herdr_worktree_bootstrap::config::{CommandConfig, Config, InstallRule};
use herdr_worktree_bootstrap::error::BootstrapError;
use herdr_worktree_bootstrap::{after_step, first_step, run, Next, Phase, Step};

fn strings(words: &[&str]) -> Vec<String> {
    words.iter().map(|w| w.to_string()).collect()
}

fn hook(words: &[&str]) -> CommandConfig {
    CommandConfig { command: strings(words), dir: None }
}

fn full_config() -> Config {
    let mut c = Config::default();
    c.git.update = true;
    c.hooks.pre = vec![hook(&["echo", "pre1"]), hook(&["echo", "pre2"])];
    c.copy.enabled = true;
    c.copy.files = Some(strings(&[".env"]));
    c.install.enabled = true;
    c.install.rules = vec![InstallRule { marker: "flake.nix".to_string(), command: strings(&["nix", "build"]) }];
    c.hooks.post = vec![hook(&["echo", "post"])];
    c
}

fn run_step(phase: Phase, words: &[&str]) -> Step {
    Step::Run(phase, Invocation { cwd: "/wt".to_string(), argv: strings(words) })
}

#[test]
fn a_repo_without_a_config_does_nothing_at_all() {
    assert!(run("/wt", Some("/src"), &Config::default()).is_empty());
    assert!(run("/wt", None, &Config::default()).is_empty());
}

#[test]
fn the_lifecycle_order_is_git_pre_copy_install_post() {
    let steps = run("/wt", Some("/src"), &full_config());
    let rules = vec![InstallRule { marker: "flake.nix".to_string(), command: strings(&["nix", "build"]) }];
    assert_eq!(
        steps,
        vec![
            run_step(Phase::GitUpdate, &["git", "fetch", "--all", "--prune"]),
            run_step(Phase::PreHook, &["echo", "pre1"]),
            run_step(Phase::PreHook, &["echo", "pre2"]),
            Step::CopyFiles(vec![CopyOp {
                rel: ".env".to_string(),
                from: "/src/.env".to_string(),
                to: "/wt/.env".to_string(),
            }]),
            Step::Install(install_deps("/wt", &rules, None)),
            run_step(Phase::PostHook, &["echo", "post"]),
        ]
    );
}

#[test]
fn copy_without_a_source_repo_aborts_after_the_pre_hooks() {
    let steps = run("/wt", None, &full_config());
    assert_eq!(
        steps,
        vec![
            run_step(Phase::GitUpdate, &["git", "fetch", "--all", "--prune"]),
            run_step(Phase::PreHook, &["echo", "pre1"]),
            run_step(Phase::PreHook, &["echo", "pre2"]),
            Step::Abort(BootstrapError::NoSourceRepo),
        ]
    );
}

#[test]
fn without_copy_no_source_repo_is_needed() {
    let mut c = full_config();
    c.copy.enabled = false;
    let steps = run("/wt", None, &c);
    assert_eq!(steps.len(), 5);
    assert!(steps.iter().all(|s| !matches!(s, Step::Abort(_))));
}

#[test]
fn omitting_files_selects_discovery_with_the_configured_patterns() {
    let mut c = Config::default();
    c.copy.enabled = true;
    c.copy.patterns = Some(strings(&["*.pem"]));
    assert_eq!(
        run("/wt", Some("/src"), &c),
        vec![Step::CopyGitignored {
            source: "/src".to_string(),
            worktree: "/wt".to_string(),
            patterns: Some(strings(&["*.pem"])),
        }]
    );
    c.copy.patterns = None;
    assert_eq!(
        run("/wt", Some("/src"), &c),
        vec![Step::CopyGitignored { source: "/src".to_string(), worktree: "/wt".to_string(), patterns: None }]
    );
}

#[test]
fn the_first_failure_stops_the_run() {
    assert_eq!(first_step(0), Next::Done);
    assert_eq!(first_step(3), Next::Perform(0));
    assert_eq!(after_step(3, 0, Ok(())), Next::Perform(1));
    assert_eq!(after_step(3, 2, Ok(())), Next::Done);
    assert_eq!(
        after_step(3, 1, Err(BootstrapError::EmptyCommand)),
        Next::Stop(BootstrapError::EmptyCommand)
    );
}
