use herdr_worktree_bootstrap::event::{Event, EventData, SourceWorktree, Workspace, Worktree};

fn event(source: Option<&str>) -> Event {
    Event {
        data: EventData {
            worktree: Worktree { path: "/wt/feature".to_string(), branch: Some("feature".to_string()) },
            workspace: Workspace {
                workspace_id: Some("wAK".to_string()),
                worktree: source.map(|s| SourceWorktree { repo_root: s.to_string() }),
            },
        },
    }
}

#[test]
fn the_config_is_read_from_the_source_repo() {
    let e = event(Some("/repos/app"));
    assert_eq!(e.source_root(), Some("/repos/app".to_string()));
    assert_eq!(e.config_dir(), "/repos/app");
}

#[test]
fn without_a_source_the_config_is_read_from_the_new_worktree() {
    let e = event(None);
    assert_eq!(e.source_root(), None);
    assert_eq!(e.config_dir(), "/wt/feature");
}
