use herdr_worktree_bootstrap::bootstrap::{
    builtin_install_rules, install_deps, marker_matches, InstallDir, Invocation,
};
use herdr_worktree_bootstrap::config::InstallRule;
use herdr_worktree_bootstrap::error::BootstrapError;
use herdr_worktree_bootstrap::Next;

fn strings(words: &[&str]) -> Vec<String> {
    words.iter().map(|w| w.to_string()).collect()
}

#[test]
fn the_builtin_table_starts_with_the_most_specific_js_lockfiles() {
    let rules = builtin_install_rules();
    assert_eq!(rules.len(), 36);
    assert_eq!(rules[0].marker, "bun.lockb");
    assert_eq!(rules[0].command, strings(&["bun", "install"]));
    assert_eq!(rules[3].marker, "package-lock.json");
    assert_eq!(rules[3].command, strings(&["npm", "ci"]));
    assert_eq!(rules[5].marker, "package.json");
    assert_eq!(rules[18].marker, "*.sln");
    assert_eq!(rules[35].marker, "shard.yml");
    assert_eq!(rules[35].command, strings(&["shards", "install"]));
}

#[test]
fn detection_defaults_to_the_worktree_root() {
    let plan = install_deps("/wt", &[], None);
    assert_eq!(
        plan.dirs,
        vec![InstallDir { label: ".".to_string(), base: "/wt/.".to_string() }]
    );
    assert_eq!(plan.candidates.len(), 36);
}

#[test]
fn custom_rules_come_first_and_win() {
    let rules = vec![InstallRule {
        marker: "flake.nix".to_string(),
        command: strings(&["nix", "develop", "--command", "true"]),
    }];
    let plan = install_deps("/wt", &rules, None);
    assert_eq!(plan.candidates.len(), 37);
    assert_eq!(plan.candidates[0].marker, "flake.nix");
    // Both flake.nix and package.json are present: the custom rule wins.
    let mut present = vec![false; 37];
    present[0] = true;
    present[6] = true;
    assert_eq!(
        plan.command_for(0, &present),
        Some(Invocation {
            cwd: "/wt/.".to_string(),
            argv: strings(&["nix", "develop", "--command", "true"]),
        })
    );
}

#[test]
fn the_first_present_builtin_marker_wins() {
    let plan = install_deps("/wt", &[], None);
    let mut present = vec![false; 36];
    present[3] = true; // package-lock.json
    present[5] = true; // package.json
    assert_eq!(
        plan.command_for(0, &present),
        Some(Invocation { cwd: "/wt/.".to_string(), argv: strings(&["npm", "ci"]) })
    );
}

#[test]
fn no_marker_means_nothing_is_installed() {
    let plan = install_deps("/wt", &[], None);
    assert_eq!(plan.command_for(0, &vec![false; 36]), None);
}

#[test]
fn each_listed_dir_is_its_own_detection_base() {
    let dirs = strings(&["apps/web", "services/api"]);
    let plan = install_deps("/wt", &[], Some(&dirs));
    assert_eq!(
        plan.dirs,
        vec![
            InstallDir { label: "apps/web".to_string(), base: "/wt/apps/web".to_string() },
            InstallDir { label: "services/api".to_string(), base: "/wt/services/api".to_string() },
        ]
    );
    let mut present = vec![false; 36];
    present[7] = true; // go.mod
    assert_eq!(
        plan.command_for(1, &present),
        Some(Invocation {
            cwd: "/wt/services/api".to_string(),
            argv: strings(&["go", "mod", "download"]),
        })
    );
}

#[test]
fn a_missing_install_dir_aborts_before_anything_is_installed() {
    let dirs = strings(&["apps/web", "apps/typo", "apps/also-missing"]);
    let plan = install_deps("/wt", &[], Some(&dirs));
    assert_eq!(plan.check_dirs(&[true, true, true]), Ok(()));
    let err = plan.check_dirs(&[true, false, false]).unwrap_err();
    assert_eq!(err, BootstrapError::MissingInstallDir { dir: "apps/typo".to_string() });
    assert_eq!(
        err.message(),
        "install dir `apps/typo` does not exist in the worktree"
    );
}

#[test]
fn an_extension_marker_matches_any_entry_with_that_extension() {
    let entries = strings(&["README.md", "App.sln"]);
    assert!(marker_matches("*.sln", Some(&entries), false));
    assert!(!marker_matches("*.csproj", Some(&entries), false));
    // `.sln` alone is a name ending in `.sln` too.
    assert!(marker_matches("*.sln", Some(&strings(&[".sln"])), false));
    // A directory that could not be read matches no extension marker.
    assert!(!marker_matches("*.sln", None, true));
}

#[test]
fn any_other_marker_is_an_exact_file_that_must_exist() {
    assert!(marker_matches("go.mod", None, true));
    assert!(!marker_matches("go.mod", Some(&strings(&["go.mod"])), false));
    assert!(marker_matches("*x", None, true));
}

#[test]
fn the_first_failing_directory_stops_the_install() {
    let dirs = strings(&["apps/web", "services/api", "tools"]);
    let plan = install_deps("/wt", &[], Some(&dirs));
    assert_eq!(plan.after_dir(0, Ok(())), Next::Perform(1));
    assert_eq!(plan.after_dir(2, Ok(())), Next::Done);
    let err = BootstrapError::CommandFailed { command: "npm ci".to_string(), status: "exit status: 1".to_string() };
    assert_eq!(plan.after_dir(1, Err(err.clone())), Next::Stop(err));
}
