use herdr_worktree_bootstrap::glob::glob_match;

#[test]
fn a_literal_pattern_matches_only_itself() {
    assert!(glob_match(".env", ".env"));
    assert!(!glob_match(".env", ".env.local"));
    assert!(!glob_match(".env", ".en"));
    assert!(!glob_match(".env", ""));
}

#[test]
fn a_star_matches_any_sequence_including_the_empty_one() {
    assert!(glob_match(".env.*", ".env.local"));
    assert!(glob_match(".env.*", ".env.production.local"));
    assert!(glob_match(".env.*", ".env."));
    assert!(!glob_match(".env.*", ".env"));
    assert!(glob_match("*", ""));
    assert!(glob_match("*", "anything at all"));
}

#[test]
fn stars_anywhere_in_the_pattern() {
    assert!(glob_match("*.key", "server.key"));
    assert!(!glob_match("*.key", "server.key.bak"));
    assert!(glob_match("a*b*c", "aXXbYYc"));
    assert!(glob_match("a*b*c", "abc"));
    assert!(!glob_match("a*b*c", "acb"));
    assert!(glob_match("**", "x"));
}

#[test]
fn no_question_mark_or_classes() {
    assert!(!glob_match("?", "a"));
    assert!(glob_match("?", "?"));
    assert!(!glob_match("[ab]", "a"));
}

#[test]
fn matching_is_on_the_utf8_bytes() {
    assert!(glob_match("é*", "été"));
    assert!(glob_match("*é", "café"));
    assert!(!glob_match("é", "e"));
}
