use herdr_worktree_bootstrap::config::{
    config_candidates, config_format, rolls_back, select_config, should_notify, Config,
    ConfigFormat, FailureAction, NotifyWhen,
};

#[test]
fn the_candidates_are_toml_then_yaml_then_yml() {
    assert_eq!(
        config_candidates(),
        vec![
            ".herdr/worktree-bootstrap.toml".to_string(),
            ".herdr/worktree-bootstrap.yaml".to_string(),
            ".herdr/worktree-bootstrap.yml".to_string(),
        ]
    );
}

#[test]
fn no_candidate_on_disk_means_no_config() {
    assert_eq!(select_config(&[false, false, false]), None);
}

#[test]
fn toml_is_chosen_when_several_candidates_exist() {
    assert_eq!(select_config(&[true, true, true]), Some(0));
}

#[test]
fn yaml_is_chosen_over_yml() {
    assert_eq!(select_config(&[false, true, true]), Some(1));
    assert_eq!(select_config(&[false, false, true]), Some(2));
}

#[test]
fn the_format_follows_the_extension() {
    assert_eq!(config_format("/r/.herdr/worktree-bootstrap.toml"), ConfigFormat::Toml);
    assert_eq!(config_format("/r/.herdr/worktree-bootstrap.yaml"), ConfigFormat::Yaml);
    assert_eq!(config_format("/r/.herdr/worktree-bootstrap.yml"), ConfigFormat::Yaml);
    assert_eq!(config_format("/r/.herdr/bootstrap"), ConfigFormat::Toml);
    // A leading dot starts a hidden name, not an extension.
    assert_eq!(config_format("/r/.yaml"), ConfigFormat::Toml);
    assert_eq!(config_format("/r.yaml/config"), ConfigFormat::Toml);
}

#[test]
fn the_default_config_enables_nothing() {
    let c = Config::default();
    assert!(!c.git.update);
    assert!(c.git.command.is_none());
    assert!(!c.copy.enabled);
    assert!(c.copy.files.is_none());
    assert!(c.copy.patterns.is_none());
    assert!(!c.install.enabled);
    assert!(c.install.rules.is_empty());
    assert!(c.install.dirs.is_none());
    assert!(c.hooks.pre.is_empty());
    assert!(c.hooks.post.is_empty());
    assert_eq!(c.notify.when, NotifyWhen::Always);
    assert_eq!(c.failure.action, FailureAction::Keep);
}

#[test]
fn notification_follows_when() {
    assert!(should_notify(NotifyWhen::Always, true));
    assert!(should_notify(NotifyWhen::Always, false));
    assert!(!should_notify(NotifyWhen::Failure, true));
    assert!(should_notify(NotifyWhen::Failure, false));
    assert!(!should_notify(NotifyWhen::Never, false));
}

#[test]
fn only_a_failed_bootstrap_with_remove_is_rolled_back() {
    assert!(rolls_back(FailureAction::Remove, false));
    assert!(!rolls_back(FailureAction::Remove, true));
    assert!(!rolls_back(FailureAction::Keep, false));
}
