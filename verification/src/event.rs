//! The event payload herdr delivers via `HERDR_PLUGIN_EVENT_JSON`.

use vstd::prelude::*;

verus! {

/// A herdr plugin event.
#[derive(Debug, PartialEq, Eq)]
pub struct Event {
    pub data: EventData,
}

/// The payload of `worktree.created`.
#[derive(Debug, PartialEq, Eq)]
pub struct EventData {
    /// The worktree that was just created (destination).
    pub worktree: Worktree,
    /// The workspace the worktree belongs to.
    pub workspace: Workspace,
}

/// The new worktree.
#[derive(Debug, PartialEq, Eq)]
pub struct Worktree {
    pub path: String,
    pub branch: Option<String>,
}

/// The workspace the worktree belongs to.
#[derive(Debug, PartialEq, Eq)]
pub struct Workspace {
    /// herdr's handle for this workspace (e.g. `wAK`), and the only thing
    /// `herdr worktree remove` will accept to undo the creation. Optional:
    /// a rollback that can't find an id leaves the worktree alone.
    pub workspace_id: Option<String>,
    /// Source worktree/repo this workspace was derived from.
    pub worktree: Option<SourceWorktree>,
}

/// The repo a workspace was derived from.
#[derive(Debug, PartialEq, Eq)]
pub struct SourceWorktree {
    pub repo_root: String,
}

/// The source repo's root, when the event names one.
pub open spec fn source_of(e: Event) -> Option<Seq<char>> {
    match e.data.workspace.worktree {
        Some(w) => Some(w.repo_root@),
        None => None,
    }
}

impl Event {
    /// The repo the worktree was derived from, if the event names one.
    pub fn source_root(&self) -> (r: Option<String>)
        ensures
            match r {
                Some(s) => source_of(*self) == Some(s@),
                None => source_of(*self) is None,
            },
    {
        match &self.data.workspace.worktree {
            Some(w) => Some(crate::text::owned(w.repo_root.as_str())),
            None => None,
        }
    }

    /// Where the repo's config is read from: the source repo, falling back to
    /// the new worktree, which has the same committed copy.
    pub fn config_dir(&self) -> (r: String)
        ensures
            r@ == match source_of(*self) {
                Some(s) => s,
                None => self.data.worktree.path@,
            },
    {
        match &self.data.workspace.worktree {
            Some(w) => crate::text::owned(w.repo_root.as_str()),
            None => crate::text::owned(self.data.worktree.path.as_str()),
        }
    }
}

} // verus!
