use herdr_worktree_bootstrap::rollback::{
    after_removal, delete_branch_command, rollback_start, worktree_remove_command, RollbackAction,
};

/// The flag that makes the rollback work on the only kind of worktree it
/// ever sees: one a failed bootstrap left dirty.
#[test]
fn the_removal_forces_past_a_dirty_worktree() {
    let argv = worktree_remove_command("wAK");
    assert_eq!(
        argv,
        ["worktree", "remove", "--workspace", "wAK", "--force"]
    );
}

#[test]
fn the_branch_is_deleted_with_the_safe_flag_in_the_source_repo() {
    let argv = delete_branch_command(Some("feature/x"), Some("/repos/app"));
    assert_eq!(
        argv,
        Some(vec![
            "-C".to_string(),
            "/repos/app".to_string(),
            "branch".to_string(),
            "-d".to_string(),
            "feature/x".to_string(),
        ])
    );
}

#[test]
fn no_branch_or_no_source_means_no_branch_deletion() {
    assert_eq!(delete_branch_command(None, Some("/repos/app")), None);
    assert_eq!(delete_branch_command(Some("main"), None), None);
    assert_eq!(delete_branch_command(None, None), None);
}

#[test]
fn without_a_workspace_id_the_worktree_is_left_in_place() {
    assert_eq!(rollback_start(None), RollbackAction::LeaveInPlace);
    assert_eq!(
        rollback_start(Some("wAK")),
        RollbackAction::RemoveWorktree(worktree_remove_command("wAK"))
    );
}

#[test]
fn the_branch_is_deleted_only_after_a_successful_removal() {
    assert_eq!(after_removal(false, Some("feature"), Some("/repos/app")), RollbackAction::Finish);
    assert_eq!(
        after_removal(true, Some("feature"), Some("/repos/app")),
        RollbackAction::DeleteBranch(delete_branch_command(Some("feature"), Some("/repos/app")).unwrap())
    );
    assert_eq!(after_removal(true, None, Some("/repos/app")), RollbackAction::Finish);
}
