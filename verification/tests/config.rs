//! The config model: verbosity levels, the effective verbosity, what the
//! text of a config file decodes to, and the text that stores a config.

use entangle::config::{
    stored_verbosity, Config, ConfigError, OriginPreference, PartialConfig, VerbosityLevel,
};

fn valid_config() -> Config {
    Config {
        github_username: "cyrusae".to_string(),
        tangled_username: "atdot.fyi".to_string(),
        origin_preference: OriginPreference::Github,
        verbosity_preference: Default::default(),
    }
}

fn valid_json() -> &'static str {
    r#"{"github_username":"cyrusae","tangled_username":"atdot.fyi","origin_preference":"github"}"#
}

/// The typed decoding of a config document, done by hand on the parsed value
/// (the front end uses serde's derive for this).
fn typed(text: &str) -> Result<Config, String> {
    let v: serde_json::Value = serde_json::from_str(text).map_err(|e| e.to_string())?;
    let s = |k: &str| -> Result<String, String> {
        match v.get(k) {
            Some(serde_json::Value::String(x)) => Ok(x.clone()),
            _ => Err(format!("invalid `{k}`")),
        }
    };
    let origin = match s("origin_preference")?.as_str() {
        "github" => OriginPreference::Github,
        "tangled" => OriginPreference::Tangled,
        other => return Err(format!("unknown variant `{other}`, expected `github` or `tangled`")),
    };
    let verbosity = match v.get("verbosity_preference") {
        None => VerbosityLevel::Verbose,
        Some(serde_json::Value::String(x)) if x == "quiet" => VerbosityLevel::Quiet,
        Some(serde_json::Value::String(x)) if x == "verbose" => VerbosityLevel::Verbose,
        Some(serde_json::Value::String(x)) if x == "debug" => VerbosityLevel::Debug,
        Some(_) => return Err("invalid `verbosity_preference`".to_string()),
    };
    Ok(Config {
        github_username: s("github_username")?,
        tangled_username: s("tangled_username")?,
        origin_preference: origin,
        verbosity_preference: verbosity,
    })
}

/// Decode `text` as `load` does, with the typed decoding of [`typed`].
fn load_text(text: &str) -> Result<Config, ConfigError> {
    Config::from_config_text(text, typed(text))
}

/// The typed decoding of a partial config document, done by hand.
fn typed_partial(text: &str) -> Result<PartialConfig, String> {
    let v: serde_json::Value = serde_json::from_str(text).map_err(|e| e.to_string())?;
    let s = |k: &str| -> Result<Option<String>, String> {
        match v.get(k) {
            None | Some(serde_json::Value::Null) => Ok(None),
            Some(serde_json::Value::String(x)) => Ok(Some(x.clone())),
            _ => Err(format!("invalid `{k}`")),
        }
    };
    let origin = match s("origin_preference")?.as_deref() {
        None => None,
        Some("github") => Some(OriginPreference::Github),
        Some("tangled") => Some(OriginPreference::Tangled),
        Some(other) => return Err(format!("unknown variant `{other}`")),
    };
    Ok(PartialConfig {
        github_username: s("github_username")?,
        tangled_username: s("tangled_username")?,
        origin_preference: origin,
    })
}

fn load_partial_text(text: &str) -> Result<PartialConfig, ConfigError> {
    PartialConfig::from_config_text(text, typed_partial(text))
}

// ── Decoding the config file ─────────────────────────────────────────────────

#[test]
fn load_empty_for_zero_byte_file() {
    let err = load_text("").unwrap_err();
    assert!(matches!(err, ConfigError::Empty), "expected Empty, got: {err:?}");
}

#[test]
fn load_empty_for_whitespace_only_file() {
    let err = load_text("   \n\t  ").unwrap_err();
    assert!(matches!(err, ConfigError::Empty), "expected Empty, got: {err:?}");
}

#[test]
fn load_empty_for_empty_json_object() {
    let err = load_text("{}").unwrap_err();
    assert!(matches!(err, ConfigError::Empty), "expected Empty, got: {err:?}");
}

#[test]
fn load_corrupted_for_truncated_json() {
    let err = load_text(r#"{"github_username": "cyrusae""#).unwrap_err();
    assert!(matches!(err, ConfigError::Corrupted(_)), "expected Corrupted, got: {err:?}");
}

#[test]
fn load_corrupted_for_invalid_utf8_like_content() {
    let err = load_text("not json at all !!!!").unwrap_err();
    assert!(matches!(err, ConfigError::Corrupted(_)), "expected Corrupted, got: {err:?}");
}

#[test]
fn load_corrupted_for_invalid_origin_preference_value() {
    let err = load_text(
        r#"{"github_username":"cyrusae","tangled_username":"atdot.fyi","origin_preference":"gitlab"}"#,
    )
    .unwrap_err();
    assert!(
        matches!(err, ConfigError::Corrupted(_)),
        "expected Corrupted for unknown origin variant, got: {err:?}"
    );
}

#[test]
fn load_missing_github_username() {
    let err = load_text(r#"{"tangled_username":"atdot.fyi","origin_preference":"github"}"#)
        .unwrap_err();
    assert!(
        matches!(err, ConfigError::MissingGithubUsername),
        "expected MissingGithubUsername, got: {err:?}"
    );
}

#[test]
fn load_missing_tangled_username() {
    let err = load_text(r#"{"github_username":"cyrusae","origin_preference":"github"}"#)
        .unwrap_err();
    assert!(
        matches!(err, ConfigError::MissingTangledUsername),
        "expected MissingTangledUsername, got: {err:?}"
    );
}

#[test]
fn load_missing_origin_preference() {
    let err = load_text(r#"{"github_username":"cyrusae","tangled_username":"atdot.fyi"}"#)
        .unwrap_err();
    assert!(
        matches!(err, ConfigError::MissingOriginPreference),
        "expected MissingOriginPreference, got: {err:?}"
    );
}

#[test]
fn load_success_for_valid_json() {
    let cfg = load_text(valid_json()).unwrap();
    assert_eq!(cfg, valid_config());
}

#[test]
fn load_ignores_unknown_fields_in_json() {
    let json = r#"{
        "github_username": "cyrusae",
        "tangled_username": "atdot.fyi",
        "origin_preference": "github",
        "unknown_future_field": 42,
        "another_unknown": "hello"
    }"#;
    let cfg = load_text(json).unwrap();
    assert_eq!(cfg, valid_config());
}

#[test]
fn verbosity_missing_from_json_loads_as_default() {
    let cfg = load_text(
        r#"{"github_username":"cyrusae","tangled_username":"atdot.fyi","origin_preference":"github"}"#,
    )
    .unwrap();
    assert_eq!(
        cfg.verbosity_preference,
        VerbosityLevel::Verbose,
        "absent verbosity_preference must default to Verbose"
    );
}

// ── VerbosityLevel ───────────────────────────────────────────────────────────

#[test]
fn verbosity_default_is_verbose() {
    assert_eq!(VerbosityLevel::default(), VerbosityLevel::Verbose);
}

#[test]
fn verbosity_ordering_quiet_lt_verbose_lt_debug() {
    assert!(VerbosityLevel::Quiet < VerbosityLevel::Verbose);
    assert!(VerbosityLevel::Verbose < VerbosityLevel::Debug);
}

#[test]
fn effective_verbosity_quiet_flag_overrides_config() {
    let cfg = Config {
        github_username: "cyrusae".to_string(),
        tangled_username: "atdot.fyi".to_string(),
        origin_preference: OriginPreference::Github,
        verbosity_preference: VerbosityLevel::Debug,
    };
    assert_eq!(cfg.effective_verbosity(true, false), VerbosityLevel::Quiet);
}

#[test]
fn effective_verbosity_debug_flag_overrides_config() {
    let cfg = valid_config();
    assert_eq!(cfg.effective_verbosity(false, true), VerbosityLevel::Debug);
}

#[test]
fn effective_verbosity_no_flags_uses_config_preference() {
    let cfg = Config {
        github_username: "cyrusae".to_string(),
        tangled_username: "atdot.fyi".to_string(),
        origin_preference: OriginPreference::Github,
        verbosity_preference: VerbosityLevel::Quiet,
    };
    assert_eq!(cfg.effective_verbosity(false, false), VerbosityLevel::Quiet);
}

// ── Further cases ────────────────────────────────────────────────────────────

#[test]
fn load_top_level_array_is_corrupted_with_message() {
    let err = load_text("[1, 2]").unwrap_err();
    match err {
        ConfigError::Corrupted(msg) => assert_eq!(msg, "Expected a JSON object at the top level"),
        other => panic!("expected Corrupted, got: {other:?}"),
    }
}

#[test]
fn load_non_string_username_is_corrupted() {
    let err = load_text(
        r#"{"github_username":7,"tangled_username":"atdot.fyi","origin_preference":"github"}"#,
    )
    .unwrap_err();
    assert!(matches!(err, ConfigError::Corrupted(_)), "got: {err:?}");
}

#[test]
fn load_reads_stored_verbosity_and_tangled_origin() {
    let cfg = load_text(
        r#"{"github_username":"cyrusae","tangled_username":"atdot.fyi","origin_preference":"tangled","verbosity_preference":"debug"}"#,
    )
    .unwrap();
    assert_eq!(cfg.origin_preference, OriginPreference::Tangled);
    assert_eq!(cfg.verbosity_preference, VerbosityLevel::Debug);
}

#[test]
fn load_unknown_verbosity_is_corrupted() {
    let err = load_text(
        r#"{"github_username":"cyrusae","tangled_username":"atdot.fyi","origin_preference":"github","verbosity_preference":"loud"}"#,
    )
    .unwrap_err();
    assert!(matches!(err, ConfigError::Corrupted(_)), "got: {err:?}");
}

#[test]
fn parse_error_message_comes_from_the_json_parser() {
    let err = load_text("{").unwrap_err();
    match err {
        ConfigError::Corrupted(msg) => assert!(msg.contains("EOF"), "got: {msg}"),
        other => panic!("expected Corrupted, got: {other:?}"),
    }
}

#[test]
fn config_error_messages_name_the_command_to_run() {
    assert_eq!(
        ConfigError::NotFound.message(),
        "No config file found. Run `entangle setup` to create one."
    );
    assert_eq!(
        ConfigError::Empty.message(),
        "Config file is empty. Run `entangle setup` to fill it in."
    );
    assert_eq!(
        ConfigError::MissingGithubUsername.message(),
        "Config is missing `github_username`. Run `entangle set gh-user <username>`."
    );
    assert_eq!(
        ConfigError::MissingTangledUsername.message(),
        "Config is missing `tangled_username`. Run `entangle set tngl-user <username>`."
    );
    assert_eq!(
        ConfigError::MissingOriginPreference.message(),
        "Config is missing `origin_preference`. Run `entangle set origin <github|tangled>`."
    );
    assert_eq!(
        ConfigError::Corrupted("bad".to_string()).message(),
        "Config file is unreadable (bad). Re-run `entangle setup` to overwrite it."
    );
    assert_eq!(
        ConfigError::NoPlatformConfigDir.message(),
        "Could not determine a config directory for this platform."
    );
}

#[test]
fn io_error_messages_start_with_their_heading() {
    let e = std::io::Error::from(std::io::ErrorKind::PermissionDenied);
    let msg = ConfigError::Unreadable(e).message();
    assert!(msg.starts_with("Config file exists but couldn't be read: "), "got: {msg}");
    assert!(msg.len() > "Config file exists but couldn't be read: ".len(), "got: {msg}");
    let e = std::io::Error::from(std::io::ErrorKind::PermissionDenied);
    let msg = ConfigError::CannotCreateDir(e).message();
    assert!(msg.starts_with("Couldn't create config directory: "), "got: {msg}");
    let e = std::io::Error::from(std::io::ErrorKind::PermissionDenied);
    let msg = ConfigError::CannotWriteFile(e).message();
    assert!(msg.starts_with("Couldn't write config file: "), "got: {msg}");
}

#[test]
fn origin_aliases() {
    assert_eq!(OriginPreference::from_alias("github"), Some(OriginPreference::Github));
    assert_eq!(OriginPreference::from_alias("gh"), Some(OriginPreference::Github));
    assert_eq!(OriginPreference::from_alias("tangled"), Some(OriginPreference::Tangled));
    assert_eq!(OriginPreference::from_alias("tngl"), Some(OriginPreference::Tangled));
    assert_eq!(OriginPreference::from_alias("gitlab"), None);
    assert_eq!(OriginPreference::from_alias("GitHub"), None);
    assert_eq!(OriginPreference::Github.name(), "github");
    assert_eq!(OriginPreference::Tangled.name(), "tangled");
}

#[test]
fn only_verbose_is_the_default_level() {
    assert!(VerbosityLevel::Verbose.is_default_verbosity());
    assert!(!VerbosityLevel::Quiet.is_default_verbosity());
    assert!(!VerbosityLevel::Debug.is_default_verbosity());
    assert_eq!(VerbosityLevel::Quiet.name(), "quiet");
    assert_eq!(VerbosityLevel::Debug.name(), "debug");
}

#[test]
fn quiet_wins_over_debug() {
    let cfg = valid_config();
    assert_eq!(cfg.effective_verbosity(true, true), VerbosityLevel::Quiet);
}

// ── Partial configs ──────────────────────────────────────────────────────────

#[test]
fn partial_blank_text_is_empty_partial() {
    let p = load_partial_text("  \n").unwrap();
    assert_eq!(p, PartialConfig::default());
}

#[test]
fn partial_reads_present_fields_only() {
    let p = load_partial_text(r#"{"github_username":"cyrusae","origin_preference":"tangled"}"#)
        .unwrap();
    assert_eq!(p.github_username.as_deref(), Some("cyrusae"));
    assert_eq!(p.tangled_username, None);
    assert_eq!(p.origin_preference, Some(OriginPreference::Tangled));
}

#[test]
fn partial_null_fields_are_unset() {
    let p = load_partial_text(r#"{"github_username":null,"tangled_username":"atdot.fyi"}"#)
        .unwrap();
    assert_eq!(p.github_username, None);
    assert_eq!(p.tangled_username.as_deref(), Some("atdot.fyi"));
}

#[test]
fn partial_corrupted_json_is_an_error() {
    let err = load_partial_text("{\"github_username\":").unwrap_err();
    assert!(matches!(err, ConfigError::Corrupted(_)), "got: {err:?}");
}

#[test]
fn partial_bad_origin_is_an_error() {
    let err = load_partial_text(r#"{"origin_preference":"gitlab"}"#).unwrap_err();
    assert!(matches!(err, ConfigError::Corrupted(_)), "got: {err:?}");
}

// ── The text that stores a config ────────────────────────────────────────────

fn tangled_quiet() -> Config {
    Config {
        github_username: "cyrusae".to_string(),
        tangled_username: "atdot.fyi".to_string(),
        origin_preference: OriginPreference::Tangled,
        verbosity_preference: VerbosityLevel::Quiet,
    }
}

#[test]
fn serialize_deserialize_roundtrip() {
    let original = valid_config();
    let json = original.to_config_text();
    let restored = load_text(&json).unwrap();
    assert_eq!(original, restored);
}

#[test]
fn origin_preference_tangled_roundtrip() {
    let cfg = Config {
        github_username: "cyrusae".to_string(),
        tangled_username: "atdot.fyi".to_string(),
        origin_preference: OriginPreference::Tangled,
        verbosity_preference: Default::default(),
    };
    let json = cfg.to_config_text();
    let restored = load_text(&json).unwrap();
    assert_eq!(cfg, restored);
    assert_eq!(restored.origin_preference, OriginPreference::Tangled);
}

#[test]
fn verbosity_default_omitted_from_serialized_config() {
    let cfg = valid_config();
    let json = cfg.to_config_text();
    assert!(
        !json.contains("verbosity_preference"),
        "default verbosity must not appear in JSON: {json}"
    );
}

#[test]
fn verbosity_non_default_persisted_in_config() {
    let cfg = Config {
        github_username: "cyrusae".to_string(),
        tangled_username: "atdot.fyi".to_string(),
        origin_preference: OriginPreference::Github,
        verbosity_preference: VerbosityLevel::Quiet,
    };
    let json = cfg.to_config_text();
    assert!(
        json.contains("verbosity_preference"),
        "non-default verbosity must appear in JSON: {json}"
    );
    assert!(json.contains("quiet"), "must serialize to 'quiet': {json}");
}

#[test]
fn saved_text_keeps_field_order_and_pretty_layout() {
    assert_eq!(
        valid_config().to_config_text(),
        "{\n  \"github_username\": \"cyrusae\",\n  \"tangled_username\": \"atdot.fyi\",\n  \"origin_preference\": \"github\"\n}"
    );
}

#[test]
fn saved_text_with_stored_verbosity() {
    assert_eq!(
        tangled_quiet().to_config_text(),
        "{\n  \"github_username\": \"cyrusae\",\n  \"tangled_username\": \"atdot.fyi\",\n  \"origin_preference\": \"tangled\",\n  \"verbosity_preference\": \"quiet\"\n}"
    );
    let restored = load_text(&tangled_quiet().to_config_text()).unwrap();
    assert_eq!(restored, tangled_quiet());
}

#[test]
fn saved_text_escapes_strings() {
    let cfg = Config {
        github_username: "a\"b".to_string(),
        tangled_username: "c\\d".to_string(),
        origin_preference: OriginPreference::Github,
        verbosity_preference: VerbosityLevel::Verbose,
    };
    let text = cfg.to_config_text();
    let v: serde_json::Value = serde_json::from_str(&text).unwrap();
    assert_eq!(v["github_username"], "a\"b");
    assert_eq!(v["tangled_username"], "c\\d");
}

#[test]
fn partial_text_holds_only_set_fields() {
    let p = PartialConfig {
        github_username: None,
        tangled_username: Some("atdot.fyi".to_string()),
        origin_preference: Some(OriginPreference::Github),
    };
    let text = p.to_config_text();
    assert_eq!(
        text,
        "{\n  \"tangled_username\": \"atdot.fyi\",\n  \"origin_preference\": \"github\"\n}"
    );
    assert_eq!(load_partial_text(&text).unwrap(), p);
    assert_eq!(PartialConfig::default().to_config_text(), "{}");
}

#[test]
fn decoding_error_is_reported_with_its_message() {
    let text = r#"{"github_username":"cyrusae","tangled_username":"atdot.fyi","origin_preference":"gitlab"}"#;
    let err = Config::from_config_text(
        text,
        Err("unknown variant `gitlab`, expected `github` or `tangled`".to_string()),
    )
    .unwrap_err();
    assert_eq!(
        err.message(),
        "Config file is unreadable (unknown variant `gitlab`, expected `github` or `tangled`). Re-run `entangle setup` to overwrite it."
    );
}

#[test]
fn checks_come_before_the_typed_decoding() {
    // A missing member is reported even where the typed decoding succeeded.
    let err = Config::from_config_text(r#"{"github_username":"x"}"#, Ok(valid_config())).unwrap_err();
    assert!(matches!(err, ConfigError::MissingTangledUsername), "got: {err:?}");
    // Blank text is Empty whatever the decoding gave.
    let err = Config::from_config_text(" ", Ok(valid_config())).unwrap_err();
    assert!(matches!(err, ConfigError::Empty), "got: {err:?}");
    // A blank partial file is an empty partial config whatever the decoding gave.
    let p = PartialConfig::from_config_text("\n", Err("x".to_string())).unwrap();
    assert_eq!(p, PartialConfig::default());
}

#[test]
fn message_with_detail_appends_the_detail() {
    let e = std::io::Error::from(std::io::ErrorKind::PermissionDenied);
    assert_eq!(
        ConfigError::Unreadable(e).message_with_detail("permission denied"),
        "Config file exists but couldn't be read: permission denied"
    );
    let e = std::io::Error::from(std::io::ErrorKind::PermissionDenied);
    assert_eq!(
        ConfigError::CannotCreateDir(e).message_with_detail("no room"),
        "Couldn't create config directory: no room"
    );
    let e = std::io::Error::from(std::io::ErrorKind::PermissionDenied);
    assert_eq!(
        ConfigError::CannotWriteFile(e).message_with_detail("disk full"),
        "Couldn't write config file: disk full"
    );
    assert_eq!(
        ConfigError::Empty.message_with_detail("ignored"),
        "Config file is empty. Run `entangle setup` to fill it in."
    );
}

#[test]
fn stored_verbosity_reads_the_member() {
    assert_eq!(
        stored_verbosity(r#"{"github_username":"x","verbosity_preference":"quiet"}"#),
        Some(VerbosityLevel::Quiet)
    );
    assert_eq!(stored_verbosity(r#"{"verbosity_preference":"debug"}"#), Some(VerbosityLevel::Debug));
    assert_eq!(stored_verbosity(r#"{"verbosity_preference":"verbose"}"#), Some(VerbosityLevel::Verbose));
    assert_eq!(stored_verbosity(valid_json()), None);
    assert_eq!(stored_verbosity(r#"{"verbosity_preference":"loud"}"#), None);
    assert_eq!(stored_verbosity(r#"{"verbosity_preference":1}"#), None);
    assert_eq!(stored_verbosity("not json"), None);
    assert_eq!(stored_verbosity(""), None);
    assert_eq!(stored_verbosity(&tangled_quiet().to_config_text()), Some(VerbosityLevel::Quiet));
}
