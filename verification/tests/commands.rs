use herdr_worktree_bootstrap::bootstrap::{check_command, check_exit, git_update, run_hooks, Invocation};
use herdr_worktree_bootstrap::config::CommandConfig;
use herdr_worktree_bootstrap::error::BootstrapError;

fn strings(words: &[&str]) -> Vec<String> {
    words.iter().map(|w| w.to_string()).collect()
}

#[test]
fn git_update_defaults_to_fetch_all_prune() {
    assert_eq!(
        git_update("/wt", None),
        Invocation { cwd: "/wt".to_string(), argv: strings(&["git", "fetch", "--all", "--prune"]) }
    );
}

#[test]
fn git_update_command_can_be_overridden() {
    let argv = strings(&["git", "pull", "--ff-only"]);
    assert_eq!(
        git_update("/wt", Some(&argv)),
        Invocation { cwd: "/wt".to_string(), argv }
    );
}

#[test]
fn hooks_run_in_order_each_in_its_own_dir() {
    let hooks = vec![
        CommandConfig { command: strings(&["mise", "install"]), dir: None },
        CommandConfig { command: strings(&["npm", "run", "codegen"]), dir: Some("apps/web".to_string()) },
        CommandConfig { command: strings(&["sh", "-c", "true"]), dir: Some("/abs".to_string()) },
    ];
    assert_eq!(
        run_hooks("/wt", &hooks),
        vec![
            Invocation { cwd: "/wt".to_string(), argv: strings(&["mise", "install"]) },
            Invocation { cwd: "/wt/apps/web".to_string(), argv: strings(&["npm", "run", "codegen"]) },
            Invocation { cwd: "/abs".to_string(), argv: strings(&["sh", "-c", "true"]) },
        ]
    );
}

#[test]
fn an_empty_command_is_a_config_error() {
    let inv = Invocation { cwd: "/wt".to_string(), argv: Vec::new() };
    let err = check_command(&inv, true).unwrap_err();
    assert_eq!(err, BootstrapError::EmptyCommand);
    assert_eq!(err.message(), "empty command in config");
    // Even when the directory is missing too, the empty command is reported.
    assert_eq!(check_command(&inv, false), Err(BootstrapError::EmptyCommand));
}

#[test]
fn a_missing_working_directory_is_reported_before_spawning() {
    let inv = Invocation { cwd: "/wt/nope".to_string(), argv: strings(&["npm", "run", "build"]) };
    let err = check_command(&inv, false).unwrap_err();
    assert_eq!(
        err.message(),
        "working directory does not exist: /wt/nope (running `npm run build`)"
    );
    assert_eq!(check_command(&inv, true), Ok(()));
}

#[test]
fn a_non_zero_exit_aborts_with_the_command_and_status() {
    let inv = Invocation { cwd: "/wt".to_string(), argv: strings(&["false"]) };
    assert_eq!(check_exit(&inv, true, "exit status: 0"), Ok(()));
    let err = check_exit(&inv, false, "exit status: 1").unwrap_err();
    assert_eq!(err.message(), "`false` exited with exit status: 1");
}

#[test]
fn system_failures_are_reported_with_their_context() {
    let err = BootstrapError::Io {
        context: "spawning `mise`".to_string(),
        cause: "No such file or directory (os error 2)".to_string(),
    };
    assert_eq!(err.message(), "spawning `mise`: No such file or directory (os error 2)");
    assert_eq!(
        BootstrapError::NoSourceRepo.message(),
        "copy is enabled but the event has no source repo_root"
    );
}

#[test]
fn a_program_that_cannot_start_is_reported_by_name() {
    let err = BootstrapError::spawn_failed("mise", "No such file or directory (os error 2)");
    assert_eq!(err.message(), "spawning `mise`: No such file or directory (os error 2)");
    let err = BootstrapError::listing_failed("not found");
    assert_eq!(err.message(), "running `git ls-files` to discover gitignored files: not found");
    let err = BootstrapError::create_dir_failed("/wt/apps", "Read-only file system");
    assert_eq!(err.message(), "creating /wt/apps: Read-only file system");
}
