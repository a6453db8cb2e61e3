//! `entangle setup`: the order of the questions, keeping existing values,
//! re-asking after a refused answer, and saving only at the end.

use entangle::config::{Config, OriginPreference, PartialConfig, VerbosityLevel};
use entangle::setup::{setup_begin, setup_next, SetupAction, SetupEvent, SetupState};

fn ask_value_prompt(a: &SetupAction) -> (String, Option<String>, Option<String>) {
    match a {
        SetupAction::AskValue { prompt, default, error } => (prompt.clone(), default.clone(), error.clone()),
        other => panic!("expected AskValue, got {other:?}"),
    }
}

fn keep_question(a: &SetupAction) -> String {
    match a {
        SetupAction::AskKeep { question } => question.clone(),
        other => panic!("expected AskKeep, got {other:?}"),
    }
}

fn step(state: SetupState, event: SetupEvent) -> (SetupState, SetupAction) {
    setup_next(state, event)
}

// ── PartialConfig detection ──────────────────────────────────────────────────

#[test]
fn partial_config_detects_all_fields_set() {
    let partial = PartialConfig {
        github_username: Some("cyrusae".to_string()),
        tangled_username: Some("atdot.fyi".to_string()),
        origin_preference: Some(OriginPreference::Github),
    };
    assert!(partial.github_username.is_some());
    assert!(partial.tangled_username.is_some());
    assert!(partial.origin_preference.is_some());
}

#[test]
fn partial_config_detects_no_fields_set() {
    let partial = PartialConfig::default();
    assert!(partial.github_username.is_none());
    assert!(partial.tangled_username.is_none());
    assert!(partial.origin_preference.is_none());
}

#[test]
fn partial_config_detects_partial_fields() {
    let partial = PartialConfig {
        github_username: Some("cyrusae".to_string()),
        tangled_username: None,
        origin_preference: None,
    };
    assert!(partial.github_username.is_some());
    assert!(partial.tangled_username.is_none());
}

// ── No-partial-write guarantee ───────────────────────────────────────────────

#[test]
fn existing_config_unchanged_after_cancel_is_structural_guarantee() {
    // Cancelling at any question ends setup without a save action.
    let existing = PartialConfig {
        github_username: Some("cyrusae".to_string()),
        tangled_username: Some("atdot.fyi".to_string()),
        origin_preference: Some(OriginPreference::Github),
    };
    let (s, _) = setup_begin(existing, None);
    let (s, a) = step(s, SetupEvent::Keep(true));
    assert!(matches!(a, SetupAction::AskKeep { .. }));
    let (_, a) = step(s, SetupEvent::Cancelled);
    match a {
        SetupAction::Cancel { message } => {
            assert_eq!(message, "\nSetup cancelled. No changes were made.")
        }
        other => panic!("expected Cancel, got {other:?}"),
    }
}

// ── The flow ─────────────────────────────────────────────────────────────────

#[test]
fn fresh_setup_asks_three_values_then_saves() {
    let (s, a) = setup_begin(PartialConfig::default(), None);
    assert_eq!(ask_value_prompt(&a), ("GitHub username".to_string(), None, None));
    let (s, a) = step(s, SetupEvent::Value("CyrusAE".to_string()));
    assert_eq!(
        ask_value_prompt(&a),
        ("Tangled username (ATProto handle, e.g. atdot.fyi)".to_string(), None, None)
    );
    let (s, a) = step(s, SetupEvent::Value("atdot.fyi".to_string()));
    assert_eq!(
        ask_value_prompt(&a),
        (
            "Origin preference (github/gh or tangled/tngl; which forge is the fetch remote) [github]"
                .to_string(),
            Some("github".to_string()),
            None
        )
    );
    let (_, a) = step(s, SetupEvent::Value("tngl".to_string()));
    match a {
        SetupAction::Save(c) => assert_eq!(
            c,
            Config {
                github_username: "cyrusae".to_string(),
                tangled_username: "atdot.fyi".to_string(),
                origin_preference: OriginPreference::Tangled,
                verbosity_preference: VerbosityLevel::Verbose,
            }
        ),
        other => panic!("expected Save, got {other:?}"),
    }
}

#[test]
fn invalid_answer_is_reported_and_asked_again() {
    let (s, _) = setup_begin(PartialConfig::default(), None);
    let (s, a) = step(s, SetupEvent::Value("-bad".to_string()));
    let (prompt, _, error) = ask_value_prompt(&a);
    assert_eq!(prompt, "GitHub username");
    let error = error.expect("an error line");
    assert!(
        error.ends_with("'-bad' is not a valid GitHub username: must not start with a hyphen."),
        "{error}"
    );
    assert!(error.contains('\u{2717}'));
    let (_, a) = step(s, SetupEvent::Value("cyrusae".to_string()));
    assert_eq!(ask_value_prompt(&a).0, "Tangled username (ATProto handle, e.g. atdot.fyi)");
}

#[test]
fn unrecognised_origin_is_reported_and_asked_again() {
    let existing = PartialConfig {
        github_username: Some("cyrusae".to_string()),
        tangled_username: Some("atdot.fyi".to_string()),
        origin_preference: None,
    };
    let (s, _) = setup_begin(existing, None);
    let (s, _) = step(s, SetupEvent::Keep(true));
    let (s, _) = step(s, SetupEvent::Keep(true));
    let (_, a) = step(s, SetupEvent::Value("GitLab".to_string()));
    let (_, _, error) = ask_value_prompt(&a);
    let error = error.expect("an error line");
    assert!(
        error.ends_with("'gitlab' is not recognised. Enter 'github' (or 'gh') or 'tangled' (or 'tngl')."),
        "{error}"
    );
}

#[test]
fn existing_values_are_offered_and_kept() {
    let existing = PartialConfig {
        github_username: Some("cyrusae".to_string()),
        tangled_username: Some("atdot.fyi".to_string()),
        origin_preference: Some(OriginPreference::Tangled),
    };
    let (s, a) = setup_begin(existing, None);
    assert_eq!(keep_question(&a), "GitHub username is already set to 'cyrusae'. Keep it?");
    let (s, a) = step(s, SetupEvent::Keep(true));
    assert_eq!(
        keep_question(&a),
        "Tangled username (ATProto handle, e.g. atdot.fyi) is already set to 'atdot.fyi'. Keep it?"
    );
    let (s, a) = step(s, SetupEvent::Keep(true));
    assert_eq!(keep_question(&a), "Origin preference is already set to 'tangled'. Keep it?");
    let (_, a) = step(s, SetupEvent::Keep(true));
    match a {
        SetupAction::Save(c) => {
            assert_eq!(c.github_username, "cyrusae");
            assert_eq!(c.tangled_username, "atdot.fyi");
            assert_eq!(c.origin_preference, OriginPreference::Tangled);
        }
        other => panic!("expected Save, got {other:?}"),
    }
}

#[test]
fn declining_to_keep_asks_for_a_new_value() {
    let existing = PartialConfig {
        github_username: Some("cyrusae".to_string()),
        tangled_username: None,
        origin_preference: None,
    };
    let (s, _) = setup_begin(existing, None);
    let (s, a) = step(s, SetupEvent::Keep(false));
    assert_eq!(ask_value_prompt(&a).0, "GitHub username");
    let (_, a) = step(s, SetupEvent::Value("other-user".to_string()));
    assert_eq!(ask_value_prompt(&a).0, "Tangled username (ATProto handle, e.g. atdot.fyi)");
}

#[test]
fn an_answer_that_does_not_fit_repeats_the_question() {
    let (s, a) = setup_begin(PartialConfig::default(), None);
    let (s2, a2) = step(s, SetupEvent::Keep(true));
    assert_eq!(ask_value_prompt(&a2), ask_value_prompt(&a));
    assert!(matches!(s2.stage, entangle::setup::SetupStage::Github));
}

#[test]
fn a_stored_verbosity_preference_is_kept() {
    let existing = PartialConfig {
        github_username: Some("cyrusae".to_string()),
        tangled_username: Some("atdot.fyi".to_string()),
        origin_preference: Some(OriginPreference::Github),
    };
    let (s, _) = setup_begin(existing, Some(VerbosityLevel::Quiet));
    let (s, _) = step(s, SetupEvent::Keep(true));
    let (s, _) = step(s, SetupEvent::Keep(true));
    let (_, a) = step(s, SetupEvent::Keep(true));
    match a {
        SetupAction::Save(c) => assert_eq!(c.verbosity_preference, VerbosityLevel::Quiet),
        other => panic!("expected Save, got {other:?}"),
    }
    let (s, _) = setup_begin(PartialConfig::default(), Some(VerbosityLevel::Debug));
    let (s, _) = step(s, SetupEvent::Value("cyrusae".to_string()));
    let (s, _) = step(s, SetupEvent::Value("atdot.fyi".to_string()));
    let (_, a) = step(s, SetupEvent::Value("gh".to_string()));
    match a {
        SetupAction::Save(c) => assert_eq!(c.verbosity_preference, VerbosityLevel::Debug),
        other => panic!("expected Save, got {other:?}"),
    }
}
