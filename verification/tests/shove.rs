//! `entangle shove`: the checks before pushing and the steps after each push.

use entangle::shove::{decimal_i32, shove_after_push, shove_start, PushStage, ShoveAction};

fn fail_message(a: ShoveAction) -> String {
    match a {
        ShoveAction::Fail(m) => m,
        other => panic!("expected Fail, got {other:?}"),
    }
}

#[test]
fn not_a_repository_is_checked_first() {
    assert_eq!(
        fail_message(shove_start(false, false, false)),
        "not a git repository. Navigate to your project directory and run `entangle init` to set one up."
    );
}

#[test]
fn missing_origin_is_reported() {
    assert_eq!(
        fail_message(shove_start(true, false, true)),
        "no 'origin' remote is configured. Run `entangle init` to set up the GitHub and Tangled push remotes."
    );
}

#[test]
fn empty_repository_is_reported() {
    assert_eq!(
        fail_message(shove_start(true, true, false)),
        "no commits to push. Make your first commit, then run `entangle shove` again."
    );
}

#[test]
fn branches_are_pushed_then_tags() {
    match shove_start(true, true, true) {
        ShoveAction::Push { stage, args, progress } => {
            assert_eq!(stage, PushStage::Branches);
            assert_eq!(args, vec!["push", "origin", "--all"]);
            assert!(progress.contains("Pushing all branches to both forges\u{2026}"));
        }
        other => panic!("expected Push, got {other:?}"),
    }
    match shove_after_push(PushStage::Branches, true, Some(0)) {
        ShoveAction::Push { stage, args, .. } => {
            assert_eq!(stage, PushStage::Tags);
            assert_eq!(args, vec!["push", "origin", "--tags"]);
        }
        other => panic!("expected Push, got {other:?}"),
    }
    match shove_after_push(PushStage::Tags, true, Some(0)) {
        ShoveAction::Done(m) => assert!(m.ends_with(" All branches and tags pushed to both forges.")),
        other => panic!("expected Done, got {other:?}"),
    }
}

#[test]
fn failed_push_reports_its_exit_code() {
    let m = fail_message(shove_after_push(PushStage::Branches, false, Some(128)));
    assert!(m.starts_with("branch push failed (exit 128). Check the output above for details, fix the issue, and re-run `"), "{m}");
    assert!(m.ends_with("`."), "{m}");
    assert!(m.contains("entangle shove"));
    let m = fail_message(shove_after_push(PushStage::Tags, false, None));
    assert!(m.starts_with("tag push failed (exit 1). "), "{m}");
}

#[test]
fn decimal_matches_display() {
    for n in [0, 7, 10, 42, 128, 255, 1000, -1, -1073741819, i32::MAX, i32::MIN] {
        assert_eq!(decimal_i32(n), n.to_string());
    }
}

// ── What the front end finds, step by step ───────────────────────────────────

#[test]
fn shove_errors_on_non_git_directory() {
    // An empty directory: not inside a repository.
    let msg = fail_message(shove_start(false, false, false));
    assert!(msg.contains("not a git repository"), "error must mention 'not a git repository': {msg}");
    assert!(msg.contains("entangle init"), "error must suggest entangle init: {msg}");
}

#[test]
fn shove_errors_when_no_origin_configured() {
    // A fresh repository: no remotes, no commits.
    let msg = fail_message(shove_start(true, false, false));
    assert!(msg.contains("origin"), "error must mention 'origin': {msg}");
    assert!(msg.contains("entangle init"), "error must suggest entangle init: {msg}");
}

#[test]
fn shove_errors_when_repo_has_no_commits() {
    // Origin configured as `entangle init` leaves it, but no commits yet.
    let msg = fail_message(shove_start(true, true, false));
    assert!(msg.contains("commit"), "error must mention 'commit': {msg}");
}

#[test]
fn shove_errors_when_only_upstream_remote_configured() {
    // A remote named "upstream" does not count as origin.
    let msg = fail_message(shove_start(true, false, false));
    assert!(msg.contains("origin"), "error must mention 'origin': {msg}");
}
