use orchd::lexicon::{
    directive_is_known, directive_serializes_repo, directive_uses_worktree, DIRECTIVE_AUDIT,
    DIRECTIVE_AUDIT_FAILURE, DIRECTIVE_DESIGN, DIRECTIVE_IMPL, DIRECTIVE_INVESTIGATE,
    DIRECTIVE_REPLY, DIRECTIVE_TRIAGE,
};

#[test]
fn investigate_is_a_known_directive() {
    assert!(directive_is_known(DIRECTIVE_INVESTIGATE));
}

#[test]
fn audit_is_a_known_directive() {
    assert!(directive_is_known(DIRECTIVE_AUDIT));
}

#[test]
fn triage_is_a_known_directive() {
    assert!(directive_is_known(DIRECTIVE_TRIAGE));
}

#[test]
fn audit_failure_is_a_known_directive() {
    assert!(directive_is_known(DIRECTIVE_AUDIT_FAILURE));
}

#[test]
fn only_impl_uses_a_worktree() {
    assert!(directive_uses_worktree(DIRECTIVE_IMPL));
    assert!(!directive_uses_worktree(DIRECTIVE_DESIGN));
    assert!(!directive_uses_worktree(DIRECTIVE_INVESTIGATE));
    assert!(!directive_uses_worktree(DIRECTIVE_TRIAGE));
    assert!(!directive_uses_worktree(DIRECTIVE_REPLY));
    assert!(!directive_uses_worktree(DIRECTIVE_AUDIT));
    assert!(!directive_uses_worktree(DIRECTIVE_AUDIT_FAILURE));
}

#[test]
fn other_words_are_no_directives() {
    assert!(!directive_is_known("poke"));
    assert!(!directive_is_known("IMPL"));
    assert!(!directive_is_known(""));
    assert!(directive_serializes_repo("impl"));
    assert!(!directive_serializes_repo("reply"));
}
