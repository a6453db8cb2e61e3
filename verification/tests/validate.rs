//! Sanitization and validation of usernames, handles and repository names.

use entangle::validate::{
    sanitize, validate_github_username, validate_repo_name, validate_tangled_username,
    ValidationError,
};

// ────────────────────────────────────────────────────────────────────────
// Sanitization
// ────────────────────────────────────────────────────────────────────────

#[test]
fn sanitize_lowercases() {
    assert_eq!(sanitize("CyrusAE").unwrap(), "cyrusae");
}

#[test]
fn sanitize_strips_surrounding_whitespace() {
    assert_eq!(sanitize("  hello  ").unwrap(), "hello");
}

#[test]
fn sanitize_removes_double_quotes() {
    assert_eq!(sanitize(r#""cyrusae""#).unwrap(), "cyrusae");
}

#[test]
fn sanitize_removes_single_quotes() {
    assert_eq!(sanitize("'cyrusae'").unwrap(), "cyrusae");
}

#[test]
fn sanitize_removes_mixed_quotes() {
    assert_eq!(sanitize(r#"'cy"rus'ae"#).unwrap(), "cyrusae");
}

#[test]
fn sanitize_rejects_space() {
    let err = sanitize("hello world").unwrap_err();
    assert!(matches!(
        err,
        ValidationError::DangerousCharacter { ch: ' ' }
    ));
}

#[test]
fn sanitize_rejects_backtick() {
    let err = sanitize("hello`world").unwrap_err();
    assert!(matches!(
        err,
        ValidationError::DangerousCharacter { ch: '`' }
    ));
}

#[test]
fn sanitize_rejects_dollar_sign() {
    let err = sanitize("$VAR").unwrap_err();
    assert!(matches!(
        err,
        ValidationError::DangerousCharacter { ch: '$' }
    ));
}

#[test]
fn sanitize_rejects_semicolon() {
    let err = sanitize("foo;bar").unwrap_err();
    assert!(matches!(
        err,
        ValidationError::DangerousCharacter { ch: ';' }
    ));
}

#[test]
fn sanitize_rejects_pipe() {
    let err = sanitize("foo|bar").unwrap_err();
    assert!(matches!(
        err,
        ValidationError::DangerousCharacter { ch: '|' }
    ));
}

#[test]
fn sanitize_rejects_ampersand() {
    let err = sanitize("foo&bar").unwrap_err();
    assert!(matches!(
        err,
        ValidationError::DangerousCharacter { ch: '&' }
    ));
}

#[test]
fn sanitize_rejects_gt() {
    let err = sanitize("foo>bar").unwrap_err();
    assert!(matches!(
        err,
        ValidationError::DangerousCharacter { ch: '>' }
    ));
}

#[test]
fn sanitize_rejects_lt() {
    let err = sanitize("foo<bar").unwrap_err();
    assert!(matches!(
        err,
        ValidationError::DangerousCharacter { ch: '<' }
    ));
}

#[test]
fn sanitize_rejects_newline() {
    let err = sanitize("foo\nbar").unwrap_err();
    assert!(matches!(
        err,
        ValidationError::DangerousCharacter { ch: '\n' }
    ));
}

#[test]
fn sanitize_rejects_carriage_return() {
    let err = sanitize("foo\rbar").unwrap_err();
    assert!(matches!(
        err,
        ValidationError::DangerousCharacter { ch: '\r' }
    ));
}

#[test]
fn sanitize_rejects_asterisk() {
    let err = sanitize("foo*bar").unwrap_err();
    assert!(matches!(
        err,
        ValidationError::DangerousCharacter { ch: '*' }
    ));
}

#[test]
fn sanitize_rejects_backslash() {
    let err = sanitize("foo\\bar").unwrap_err();
    assert!(matches!(
        err,
        ValidationError::DangerousCharacter { ch: '\\' }
    ));
}

#[test]
fn sanitize_rejects_tilde() {
    let err = sanitize("~foo").unwrap_err();
    assert!(matches!(
        err,
        ValidationError::DangerousCharacter { ch: '~' }
    ));
}

#[test]
fn dangerous_char_display_uses_escape_debug_for_newline() {
    let err = ValidationError::DangerousCharacter { ch: '\n' };
    let msg = err.message();
    // escape_debug renders '\n' as the two-character sequence \n, not a raw newline.
    assert!(
        msg.contains("\\n"),
        "newline must be rendered as \\n in error message, got: {msg}"
    );
    assert!(
        !msg.contains('\n'),
        "raw newline must not appear in error message: {msg}"
    );
}

// ────────────────────────────────────────────────────────────────────────
// GitHub username validation
// ────────────────────────────────────────────────────────────────────────

#[test]
fn github_valid_simple() {
    assert_eq!(validate_github_username("cyrusae").unwrap(), "cyrusae");
}

#[test]
fn github_valid_with_hyphen() {
    assert_eq!(validate_github_username("cyrus-ae").unwrap(), "cyrus-ae");
}

#[test]
fn github_valid_at_exactly_39_chars() {
    // 39 'a's — should pass.
    let name = "a".repeat(39);
    assert_eq!(validate_github_username(&name).unwrap(), name);
}

#[test]
fn github_invalid_at_40_chars() {
    // 40 chars — must fail.
    let name = "a".repeat(40);
    let err = validate_github_username(&name).unwrap_err();
    assert!(matches!(err, ValidationError::InvalidGithubUsername { .. }));
}

#[test]
fn github_uppercase_is_lowercased_before_validation() {
    // "CyrusAE" sanitizes to "cyrusae" — must succeed, not fail on uppercase.
    assert_eq!(validate_github_username("CyrusAE").unwrap(), "cyrusae");
}

#[test]
fn github_quoted_input_is_dequoted() {
    assert_eq!(validate_github_username(r#""cyrusae""#).unwrap(), "cyrusae");
}

#[test]
fn github_leading_hyphen_invalid() {
    let err = validate_github_username("-cyrusae").unwrap_err();
    assert!(matches!(err, ValidationError::InvalidGithubUsername { .. }));
}

#[test]
fn github_trailing_hyphen_invalid() {
    let err = validate_github_username("cyrusae-").unwrap_err();
    assert!(matches!(err, ValidationError::InvalidGithubUsername { .. }));
}

#[test]
fn github_consecutive_hyphens_invalid() {
    let err = validate_github_username("cy--rusae").unwrap_err();
    assert!(matches!(err, ValidationError::InvalidGithubUsername { .. }));
}

#[test]
fn github_underscore_invalid() {
    let err = validate_github_username("cyrus_ae").unwrap_err();
    assert!(matches!(err, ValidationError::InvalidGithubUsername { .. }));
}

#[test]
fn github_empty_invalid() {
    let err = validate_github_username("").unwrap_err();
    assert!(matches!(err, ValidationError::InvalidGithubUsername { .. }));
}

#[test]
fn github_single_char_valid() {
    assert_eq!(validate_github_username("a").unwrap(), "a");
}

// ────────────────────────────────────────────────────────────────────────
// Tangled (ATProto) username validation
// ────────────────────────────────────────────────────────────────────────

#[test]
fn tangled_valid_simple() {
    assert_eq!(validate_tangled_username("atdot.fyi").unwrap(), "atdot.fyi");
}

#[test]
fn tangled_valid_subdomain() {
    assert_eq!(
        validate_tangled_username("user.tngl.sh").unwrap(),
        "user.tngl.sh"
    );
}

#[test]
fn tangled_valid_minimal() {
    // Minimal valid ATProto handle: single-char label + single-char TLD.
    assert_eq!(validate_tangled_username("a.b").unwrap(), "a.b");
}

#[test]
fn tangled_label_valid_at_exactly_63_chars() {
    let label = format!("{}.fyi", "a".repeat(63));
    assert_eq!(validate_tangled_username(&label).unwrap(), label);
}

#[test]
fn tangled_label_invalid_at_64_chars() {
    let label = format!("{}.fyi", "a".repeat(64));
    let err = validate_tangled_username(&label).unwrap_err();
    assert!(matches!(
        err,
        ValidationError::InvalidTangledUsername { .. }
    ));
}

#[test]
fn tangled_tld_valid_at_exactly_63_chars() {
    let tld = format!("user.{}", "a".repeat(63));
    assert_eq!(validate_tangled_username(&tld).unwrap(), tld);
}

#[test]
fn tangled_tld_invalid_at_64_chars() {
    let tld = format!("user.{}", "a".repeat(64));
    let err = validate_tangled_username(&tld).unwrap_err();
    assert!(matches!(
        err,
        ValidationError::InvalidTangledUsername { .. }
    ));
}

#[test]
fn tangled_uppercase_lowercased_before_validation() {
    assert_eq!(validate_tangled_username("AtDot.FYI").unwrap(), "atdot.fyi");
}

#[test]
fn tangled_no_dot_invalid() {
    let err = validate_tangled_username("nodot").unwrap_err();
    assert!(matches!(
        err,
        ValidationError::InvalidTangledUsername { .. }
    ));
}

#[test]
fn tangled_underscore_invalid() {
    let err = validate_tangled_username("has_under.score").unwrap_err();
    assert!(matches!(
        err,
        ValidationError::InvalidTangledUsername { .. }
    ));
}

#[test]
fn tangled_tld_with_digit_invalid() {
    // TLD must be letters only — digits not allowed.
    let err = validate_tangled_username("user.fyi2").unwrap_err();
    assert!(matches!(
        err,
        ValidationError::InvalidTangledUsername { .. }
    ));
}

#[test]
fn tangled_label_leading_hyphen_invalid() {
    let err = validate_tangled_username("-user.fyi").unwrap_err();
    assert!(matches!(
        err,
        ValidationError::InvalidTangledUsername { .. }
    ));
}

#[test]
fn tangled_label_trailing_hyphen_invalid() {
    let err = validate_tangled_username("user-.fyi").unwrap_err();
    assert!(matches!(
        err,
        ValidationError::InvalidTangledUsername { .. }
    ));
}

#[test]
fn tangled_empty_label_from_double_dot_invalid() {
    let err = validate_tangled_username("user..fyi").unwrap_err();
    assert!(matches!(
        err,
        ValidationError::InvalidTangledUsername { .. }
    ));
}

#[test]
fn tangled_empty_tld_invalid() {
    // Trailing dot → empty TLD.
    let err = validate_tangled_username("user.fyi.").unwrap_err();
    assert!(matches!(
        err,
        ValidationError::InvalidTangledUsername { .. }
    ));
}

#[test]
fn tangled_empty_invalid() {
    let err = validate_tangled_username("").unwrap_err();
    assert!(matches!(
        err,
        ValidationError::InvalidTangledUsername { .. }
    ));
}

#[test]
fn tangled_hyphen_in_middle_of_label_valid() {
    // Interior hyphens in non-TLD labels are fine.
    assert_eq!(
        validate_tangled_username("my-handle.bsky.social").unwrap(),
        "my-handle.bsky.social"
    );
}

#[test]
fn tangled_numeric_subdomain_valid() {
    // Digits are allowed in non-TLD labels.
    assert_eq!(
        validate_tangled_username("user123.fyi").unwrap(),
        "user123.fyi"
    );
}

// ────────────────────────────────────────────────────────────────────────
// Repository name validation
// ────────────────────────────────────────────────────────────────────────

#[test]
fn repo_valid_simple() {
    assert_eq!(validate_repo_name("entangle").unwrap(), "entangle");
}

#[test]
fn repo_valid_with_hyphen() {
    assert_eq!(validate_repo_name("my-project").unwrap(), "my-project");
}

#[test]
fn repo_valid_single_char() {
    assert_eq!(validate_repo_name("a").unwrap(), "a");
}

#[test]
fn repo_valid_at_exactly_100_chars() {
    let name = "a".repeat(100);
    assert_eq!(validate_repo_name(&name).unwrap(), name);
}

#[test]
fn repo_invalid_at_101_chars() {
    let name = "a".repeat(101);
    let err = validate_repo_name(&name).unwrap_err();
    assert!(matches!(err, ValidationError::InvalidRepoName { .. }));
}

#[test]
fn repo_uppercase_lowercased_before_validation() {
    assert_eq!(validate_repo_name("ENTANGLE").unwrap(), "entangle");
}

#[test]
fn repo_leading_hyphen_invalid() {
    let err = validate_repo_name("-entangle").unwrap_err();
    assert!(matches!(err, ValidationError::InvalidRepoName { .. }));
}

#[test]
fn repo_trailing_hyphen_invalid() {
    let err = validate_repo_name("entangle-").unwrap_err();
    assert!(matches!(err, ValidationError::InvalidRepoName { .. }));
}

#[test]
fn repo_consecutive_hyphens_invalid() {
    let err = validate_repo_name("en--tangle").unwrap_err();
    assert!(matches!(err, ValidationError::InvalidRepoName { .. }));
}

#[test]
fn repo_period_invalid() {
    // Periods are legal on GitHub but not on Tangled — we reject them.
    let err = validate_repo_name("my.project").unwrap_err();
    assert!(matches!(err, ValidationError::InvalidRepoName { .. }));
}

#[test]
fn repo_underscore_invalid() {
    let err = validate_repo_name("my_project").unwrap_err();
    assert!(matches!(err, ValidationError::InvalidRepoName { .. }));
}

#[test]
fn repo_empty_invalid() {
    let err = validate_repo_name("").unwrap_err();
    assert!(matches!(err, ValidationError::InvalidRepoName { .. }));
}

// ────────────────────────────────────────────────────────────────────────
// Cross-cutting: sanitize-before-validate ordering
// ────────────────────────────────────────────────────────────────────────

#[test]
fn github_sanitize_before_validate_mixed_case_passes() {
    // "CyrusAE" must pass (sanitized to "cyrusae" first), not fail with
    // "uppercase not allowed". This pins the sanitize-first contract.
    let result = validate_github_username("CyrusAE");
    assert_eq!(result.unwrap(), "cyrusae");
}

#[test]
fn repo_sanitize_before_validate_mixed_case_passes() {
    let result = validate_repo_name("MyRepo");
    assert_eq!(result.unwrap(), "myrepo");
}

#[test]
fn tangled_sanitize_before_validate_mixed_case_passes() {
    let result = validate_tangled_username("MyHandle.FYI");
    assert_eq!(result.unwrap(), "myhandle.fyi");
}

#[test]
fn dangerous_char_propagates_through_github_validator() {
    // Shell metacharacter → DangerousCharacter, not InvalidGithubUsername.
    let err = validate_github_username("cyrus$ae").unwrap_err();
    assert!(matches!(
        err,
        ValidationError::DangerousCharacter { ch: '$' }
    ));
}

#[test]
fn dangerous_char_propagates_through_repo_validator() {
    let err = validate_repo_name("my|repo").unwrap_err();
    assert!(matches!(
        err,
        ValidationError::DangerousCharacter { ch: '|' }
    ));
}

#[test]
fn dangerous_char_propagates_through_tangled_validator() {
    let err = validate_tangled_username("user;name.fyi").unwrap_err();
    assert!(matches!(
        err,
        ValidationError::DangerousCharacter { ch: ';' }
    ));
}


// ── Validation is idempotent ─────────────────────────────────────────────────

#[test]
fn validated_values_validate_to_themselves() {
    for raw in ["  \"CyrusAE\" ", "cyrus-ae", "A"] {
        let v = validate_github_username(raw).unwrap();
        assert_eq!(validate_github_username(&v).unwrap(), v);
    }
    for raw in ["AtDot.FYI", "'my-handle.bsky.social'", "a.b"] {
        let v = validate_tangled_username(raw).unwrap();
        assert_eq!(validate_tangled_username(&v).unwrap(), v);
    }
    for raw in ["MyRepo", " my-project ", "x"] {
        let v = validate_repo_name(raw).unwrap();
        assert_eq!(validate_repo_name(&v).unwrap(), v);
    }
}

#[test]
fn error_messages_follow_the_pattern() {
    assert_eq!(
        validate_repo_name("my.project").unwrap_err().message(),
        "'my.project' is not a valid repository name: periods are not allowed (use hyphens instead)."
    );
    assert_eq!(
        validate_tangled_username("nodot").unwrap_err().message(),
        "'nodot' is not a valid Tangled username: must contain at least one dot (e.g. 'user.bsky.social')."
    );
    assert_eq!(
        validate_github_username("").unwrap_err().message(),
        "'' is not a valid GitHub username: must not be empty."
    );
    assert_eq!(
        sanitize("a b").unwrap_err().message(),
        "Input contains a disallowed character: ' '. Shell metacharacters, spaces, and control characters are not allowed."
    );
}

#[test]
fn non_ascii_input_is_lowercased_by_unicode_rules() {
    assert_eq!(sanitize("ÀB").unwrap(), "àb");
    let err = validate_repo_name("ÀB").unwrap_err();
    assert!(matches!(err, ValidationError::InvalidRepoName { .. }));
}

#[test]
fn length_is_counted_in_bytes() {
    // 'é' is two bytes: 20 of them are 40 bytes, over the GitHub limit.
    let err = validate_github_username(&"é".repeat(20)).unwrap_err();
    match err {
        ValidationError::InvalidGithubUsername { reason, .. } => {
            assert_eq!(reason, "must be 39 characters or fewer")
        }
        other => panic!("unexpected {other:?}"),
    }
}

#[test]
fn sanitizing_twice_changes_nothing() {
    for raw in ["  \"CyrusAE\" ", "'My-Repo'", "atdot.fyi", "Ab", ""] {
        let v = sanitize(raw).unwrap();
        assert_eq!(sanitize(&v).unwrap(), v);
    }
}

#[test]
fn sanitizing_twice_can_trim_what_the_quotes_hid() {
    // The quotes hide a vertical tab (whitespace, not a rejected character)
    // from the first trim; the second sanitizing trims it.
    let once = sanitize("'\u{b}x'").unwrap();
    assert_eq!(once, "\u{b}x");
    assert_eq!(sanitize(&once).unwrap(), "x");
}

#[test]
fn documented_escapes_appear_in_messages() {
    assert_eq!(
        sanitize("a\tb").unwrap_err().message(),
        "Input contains a disallowed character: '\\t'. Shell metacharacters, spaces, and control characters are not allowed."
    );
    assert_eq!(
        sanitize("a\\b").unwrap_err().message(),
        "Input contains a disallowed character: '\\\\'. Shell metacharacters, spaces, and control characters are not allowed."
    );
    assert_eq!(
        ValidationError::DangerousCharacter { ch: '\r' }.message(),
        "Input contains a disallowed character: '\\r'. Shell metacharacters, spaces, and control characters are not allowed."
    );
}
