//! `entangle set`: checking one value and updating one field.

use entangle::cli::SetKey;
use entangle::config::{OriginPreference, PartialConfig};
use entangle::set_command::{check_set_value, parse_origin, ConfigUpdate, SetError};
use entangle::validate::ValidationError;

#[test]
fn gh_user_is_validated_and_lowercased() {
    let u = check_set_value(SetKey::GithubUser, "CyrusAE").unwrap();
    assert_eq!(u.confirmation(), "GitHub username set to: cyrusae");
    let c = u.apply(PartialConfig::default());
    assert_eq!(c.github_username.as_deref(), Some("cyrusae"));
    assert_eq!(c.tangled_username, None);
    assert_eq!(c.origin_preference, None);
}

#[test]
fn tngl_user_is_validated() {
    let u = check_set_value(SetKey::TangledUser, "atdot.fyi").unwrap();
    assert_eq!(u.confirmation(), "Tangled username set to: atdot.fyi");
    let err = check_set_value(SetKey::TangledUser, "nodot").unwrap_err();
    assert!(matches!(err, SetError::Invalid(ValidationError::InvalidTangledUsername { .. })));
}

#[test]
fn origin_aliases_and_case() {
    assert!(matches!(
        check_set_value(SetKey::Origin, "gh").unwrap(),
        ConfigUpdate::Origin(OriginPreference::Github)
    ));
    assert!(matches!(
        check_set_value(SetKey::Origin, "TNGL").unwrap(),
        ConfigUpdate::Origin(OriginPreference::Tangled)
    ));
    let u = check_set_value(SetKey::Origin, "GitHub").unwrap();
    assert_eq!(u.confirmation(), "Origin preference set to: github");
}

#[test]
fn unknown_origin_names_the_accepted_values() {
    let err = check_set_value(SetKey::Origin, "gitlab").unwrap_err();
    assert_eq!(
        err.message(),
        "'gitlab' is not recognised. Enter 'github' (or 'gh') or 'tangled' (or 'tngl')."
    );
}

#[test]
fn dangerous_character_is_refused() {
    let err = check_set_value(SetKey::GithubUser, "cyrus$ae").unwrap_err();
    assert!(matches!(err, SetError::Invalid(ValidationError::DangerousCharacter { ch: '$' })));
    let err = parse_origin("git hub").unwrap_err();
    assert!(matches!(err, SetError::Invalid(ValidationError::DangerousCharacter { ch: ' ' })));
}

#[test]
fn invalid_gh_user_message() {
    let err = check_set_value(SetKey::GithubUser, "-bad").unwrap_err();
    assert_eq!(err.message(), "'-bad' is not a valid GitHub username: must not start with a hyphen.");
}

#[test]
fn sequential_updates_accumulate_all_fields() {
    let c = PartialConfig::default();
    let c = check_set_value(SetKey::GithubUser, "cyrusae").unwrap().apply(c);
    let c = check_set_value(SetKey::TangledUser, "atdot.fyi").unwrap().apply(c);
    let c = check_set_value(SetKey::Origin, "github").unwrap().apply(c);
    assert_eq!(
        c,
        PartialConfig {
            github_username: Some("cyrusae".to_string()),
            tangled_username: Some("atdot.fyi".to_string()),
            origin_preference: Some(OriginPreference::Github),
        }
    );
}

#[test]
fn update_does_not_clobber_other_fields() {
    let c = PartialConfig {
        github_username: Some("old".to_string()),
        tangled_username: Some("atdot.fyi".to_string()),
        origin_preference: Some(OriginPreference::Tangled),
    };
    let c = check_set_value(SetKey::GithubUser, "new-user").unwrap().apply(c);
    assert_eq!(c.github_username.as_deref(), Some("new-user"));
    assert_eq!(c.tangled_username.as_deref(), Some("atdot.fyi"));
    assert_eq!(c.origin_preference, Some(OriginPreference::Tangled));
}
