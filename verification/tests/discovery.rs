use herdr_worktree_bootstrap::bootstrap::{after_copy, copies_to_make, copy_files, copy_gitignored, CopyOp};
use herdr_worktree_bootstrap::error::BootstrapError;
use herdr_worktree_bootstrap::Next;

fn rels(ops: &[CopyOp]) -> Vec<String> {
    ops.iter().map(|op| op.rel.clone()).collect()
}

#[test]
fn default_patterns_pick_env_files_at_any_depth() {
    let listing = b".env\0apps/web/.env.local\0node_modules/\0README.md\0packages/db/.env.production.local\0.envrc\0";
    let ops = copy_gitignored("/src", "/wt", None, Some(&listing[..])).unwrap();
    assert_eq!(
        rels(&ops),
        vec![
            ".env".to_string(),
            "apps/web/.env.local".to_string(),
            "packages/db/.env.production.local".to_string(),
        ]
    );
}

#[test]
fn each_copy_goes_to_the_same_relative_path_in_the_worktree() {
    let ops = copy_gitignored("/src", "/wt", None, Some(&b"apps/web/.env\0"[..])).unwrap();
    assert_eq!(
        ops,
        vec![CopyOp {
            rel: "apps/web/.env".to_string(),
            from: "/src/apps/web/.env".to_string(),
            to: "/wt/apps/web/.env".to_string(),
        }]
    );
}

#[test]
fn collapsed_ignored_directories_are_skipped_even_when_their_name_matches() {
    let patterns = vec!["*".to_string()];
    let ops = copy_gitignored("/src", "/wt", Some(&patterns), Some(&b"target/\0dist/.env/\0secret.txt\0"[..])).unwrap();
    assert_eq!(rels(&ops), vec!["secret.txt".to_string()]);
}

#[test]
fn custom_patterns_replace_the_defaults_and_match_the_file_name_only() {
    let patterns = vec!["*.pem".to_string(), "local.*".to_string()];
    let listing = b"certs/server.pem\0.env\0config/local.yaml\0local/config.yaml\0";
    let ops = copy_gitignored("/src", "/wt", Some(&patterns), Some(&listing[..])).unwrap();
    assert_eq!(
        rels(&ops),
        vec!["certs/server.pem".to_string(), "config/local.yaml".to_string()]
    );
}

#[test]
fn an_empty_listing_copies_nothing() {
    assert!(copy_gitignored("/src", "/wt", None, Some(&b""[..])).unwrap().is_empty());
    assert!(copy_gitignored("/src", "/wt", None, Some(&b"\0\0"[..])).unwrap().is_empty());
}

#[test]
fn invalid_utf8_in_a_listed_name_is_replaced_not_dropped() {
    let patterns = vec![".env*".to_string()];
    let ops = copy_gitignored("/src", "/wt", Some(&patterns), Some(&b".env\xff\0"[..])).unwrap();
    assert_eq!(rels(&ops), vec![".env\u{fffd}".to_string()]);
}

#[test]
fn explicit_files_are_copied_in_order_from_source_to_worktree() {
    let files = vec![".env".to_string(), "apps/web/.env.local".to_string()];
    let ops = copy_files("/src", "/wt", &files);
    assert_eq!(
        ops,
        vec![
            CopyOp {
                rel: ".env".to_string(),
                from: "/src/.env".to_string(),
                to: "/wt/.env".to_string(),
            },
            CopyOp {
                rel: "apps/web/.env.local".to_string(),
                from: "/src/apps/web/.env.local".to_string(),
                to: "/wt/apps/web/.env.local".to_string(),
            },
        ]
    );
}

#[test]
fn a_failed_listing_skips_discovery() {
    assert_eq!(copy_gitignored("/src", "/wt", None, None), None);
}

#[test]
fn only_files_present_in_the_source_are_copied() {
    let files = vec![".env".to_string(), ".env.local".to_string(), "apps/.env".to_string()];
    let ops = copy_files("/src", "/wt", &files);
    let made = copies_to_make(&ops, &[true, false, true]);
    assert_eq!(rels(&made), vec![".env".to_string(), "apps/.env".to_string()]);
    assert!(copies_to_make(&ops, &[false, false, false]).is_empty());
}

#[test]
fn the_first_failed_copy_stops_the_rest() {
    let files = vec![".env".to_string(), ".env.local".to_string(), "apps/.env".to_string()];
    let ops = copy_files("/src", "/wt", &files);
    assert_eq!(after_copy(&ops, 0, Ok(())), Next::Perform(1));
    assert_eq!(after_copy(&ops, 2, Ok(())), Next::Done);
    let err = BootstrapError::copy_failed("/src/.env.local", "/wt/.env.local", "Permission denied");
    assert_eq!(after_copy(&ops, 1, Err(err.clone())), Next::Stop(err.clone()));
    assert_eq!(err.message(), "copying /src/.env.local -> /wt/.env.local: Permission denied");
}
