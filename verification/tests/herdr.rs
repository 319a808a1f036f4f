use herdr_worktree_bootstrap::herdr::binary_path;

#[test]
fn the_env_var_names_the_binary_to_invoke() {
    assert_eq!(
        binary_path(Some(b"/opt/herdr/bin/herdr".to_vec())),
        b"/opt/herdr/bin/herdr".to_vec()
    );
}

#[test]
fn a_plugin_run_outside_herdr_falls_back_to_the_path_lookup() {
    assert_eq!(binary_path(None), b"herdr".to_vec());
}

#[test]
fn an_empty_env_var_falls_back_rather_than_running_the_current_directory() {
    assert_eq!(binary_path(Some(Vec::new())), b"herdr".to_vec());
}
