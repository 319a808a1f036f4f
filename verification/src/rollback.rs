//! Undo the worktree herdr created, after its bootstrap failed: the library
//! says which commands do it; the program runs them.

use vstd::prelude::*;
use crate::text::{owned, strs};

verus! {

/// `herdr worktree remove --workspace <id> --force`, without the program.
pub open spec fn remove_command(workspace_id: Seq<char>) -> Seq<Seq<char>> {
    seq!["worktree"@, "remove"@, "--workspace"@, workspace_id, "--force"@]
}

/// The herdr arguments that remove the worktree, its workspace and its pane.
///
/// `--force` is not optional: the worktree this runs against is by
/// definition half-bootstrapped, and herdr refuses a dirty one without it.
pub fn worktree_remove_command(workspace_id: &str) -> (r: Vec<String>)
    ensures
        strs(r@) == remove_command(workspace_id@),
{
    let r = vec![
        owned("worktree"),
        owned("remove"),
        owned("--workspace"),
        owned(workspace_id),
        owned("--force"),
    ];
    assert(strs(r@) =~= remove_command(workspace_id@));
    r
}

/// The removal names the workspace and always forces past a dirty worktree.
pub proof fn law_removal_forces_the_named_workspace(workspace_id: Seq<char>)
    ensures
        remove_command(workspace_id) == seq!["worktree"@, "remove"@, "--workspace"@, workspace_id, "--force"@],
        remove_command(workspace_id).last() == "--force"@,
{
}

/// `git -C <source> branch -d <branch>`, without the program.
pub open spec fn delete_branch_args(branch: Seq<char>, source: Seq<char>) -> Seq<Seq<char>> {
    seq!["-C"@, source, "branch"@, "-d"@, branch]
}

/// The branch is deleted with `-d`, which keeps one carrying unmerged
/// commits, in the source repo.
pub proof fn law_branch_deletion_is_the_safe_one(branch: Seq<char>, source: Seq<char>)
    ensures
        delete_branch_args(branch, source) == seq!["-C"@, source, "branch"@, "-d"@, branch],
{
}

/// The git arguments that delete the branch a removed worktree was on, when
/// both the branch and the source repo are known. `-d`, not `-D`: a branch
/// carrying unmerged commits is kept.
pub fn delete_branch_command(branch: Option<&str>, source: Option<&str>) -> (r: Option<Vec<String>>)
    ensures
        match (branch, source) {
            (Some(b), Some(s)) => r matches Some(v) && strs(v@) == delete_branch_args(b@, s@),
            _ => r is None,
        },
{
    match (branch, source) {
        (Some(b), Some(s)) => {
            let v = vec![owned("-C"), owned(s), owned("branch"), owned("-d"), owned(b)];
            assert(strs(v@) =~= delete_branch_args(b@, s@));
            Some(v)
        },
        _ => None,
    }
}

/// What the rollback does next.
#[derive(Debug, PartialEq, Eq)]
pub enum RollbackAction {
    /// No workspace id: leave the worktree in place.
    LeaveInPlace,
    /// Run herdr with these arguments to remove the worktree.
    RemoveWorktree(Vec<String>),
    /// Run git with these arguments to delete the branch left behind.
    DeleteBranch(Vec<String>),
    /// Nothing more to do.
    Finish,
}

/// How the rollback starts: without a workspace id there is nothing herdr
/// would accept, so the worktree stays; with one, herdr is asked to remove it.
pub fn rollback_start(workspace_id: Option<&str>) -> (r: RollbackAction)
    ensures
        match workspace_id {
            None => r is LeaveInPlace,
            Some(id) => r matches RollbackAction::RemoveWorktree(argv) && strs(argv@) == remove_command(id@),
        },
{
    match workspace_id {
        None => RollbackAction::LeaveInPlace,
        Some(id) => RollbackAction::RemoveWorktree(worktree_remove_command(id)),
    }
}

/// What follows the removal (`removed`: herdr ran and succeeded): the branch
/// is deleted only after the worktree is gone, and only when both the branch
/// and the source repo are known; otherwise the rollback ends.
pub fn after_removal(removed: bool, branch: Option<&str>, source: Option<&str>) -> (r: RollbackAction)
    ensures
        match (removed, branch, source) {
            (true, Some(b), Some(s)) => r matches RollbackAction::DeleteBranch(argv) && strs(argv@)
                == delete_branch_args(b@, s@),
            _ => r is Finish,
        },
{
    if !removed {
        return RollbackAction::Finish;
    }
    match delete_branch_command(branch, source) {
        Some(argv) => RollbackAction::DeleteBranch(argv),
        None => RollbackAction::Finish,
    }
}

} // verus!
