//! `entangle set <key> <value>`: check one value and put it into the config.
//!
//! The value is sanitized and validated first; only an accepted value changes
//! the config, and only the one field that the key names. Every accepted
//! value is confirmed with a message such as `GitHub username set to: cyrusae`.

use vstd::prelude::*;

use crate::cli::SetKey;
use crate::config::{origin_from_alias, origin_name, OriginPreference, PartialConfig};
use crate::text::{concat2, concat3};
use crate::validate::{
    github_username_outcome, sanitize, spec_sanitize, tangled_username_outcome,
    validate_github_username, validate_tangled_username, validation_message, ValidationError,
};

verus! {

/// Why a value was refused.
#[derive(Debug)]
pub enum SetError {
    /// The value failed sanitization or validation.
    Invalid(ValidationError),
    /// The sanitized origin value is none of the accepted aliases.
    UnknownOrigin { value: String },
}

pub open spec fn unknown_origin_message(value: Seq<char>) -> Seq<char> {
    "'"@ + value + "' is not recognised. Enter 'github' (or 'gh') or 'tangled' (or 'tngl')."@
}

pub open spec fn set_error_message(e: SetError) -> Seq<char> {
    match e {
        SetError::Invalid(v) => validation_message(v),
        SetError::UnknownOrigin { value } => unknown_origin_message(value@),
    }
}

impl SetError {
    /// The human-readable message for this error.
    pub fn message(&self) -> (r: String)
        ensures
            r@ == set_error_message(*self),
    {
        match self {
            SetError::Invalid(e) => e.message(),
            SetError::UnknownOrigin { value } => concat3(
                "'",
                value.as_str(),
                "' is not recognised. Enter 'github' (or 'gh') or 'tangled' (or 'tngl').",
            ),
        }
    }
}

/// What [`parse_origin`] returns: the input is sanitized, then matched
/// against the aliases `github`/`gh` and `tangled`/`tngl`.
pub open spec fn origin_input_outcome(raw: Seq<char>, r: Result<OriginPreference, SetError>) -> bool {
    match spec_sanitize(raw) {
        Err(c) => r == Err::<OriginPreference, SetError>(
            SetError::Invalid(ValidationError::DangerousCharacter { ch: c }),
        ),
        Ok(s) => match origin_from_alias(s) {
            Some(o) => r == Ok::<OriginPreference, SetError>(o),
            None => r matches Err(SetError::UnknownOrigin { value }) && value@ == s,
        },
    }
}

/// Read an origin preference typed by the user: sanitize (trim, drop quotes,
/// lowercase), then accept `github`/`gh` or `tangled`/`tngl`.
pub fn parse_origin(raw: &str) -> (r: Result<OriginPreference, SetError>)
    ensures
        origin_input_outcome(raw@, r),
{
    match sanitize(raw) {
        Err(e) => Err(SetError::Invalid(e)),
        Ok(s) => match OriginPreference::from_alias(s.as_str()) {
            Some(o) => Ok(o),
            None => Err(SetError::UnknownOrigin { value: s }),
        },
    }
}

/// A checked value for one config field.
#[derive(Debug, Clone)]
pub enum ConfigUpdate {
    GithubUsername(String),
    TangledUsername(String),
    Origin(OriginPreference),
}

/// What [`check_set_value`] returns for `entangle set <key> <value>`.
pub open spec fn set_value_outcome(key: SetKey, value: Seq<char>, r: Result<ConfigUpdate, SetError>) -> bool {
    match key {
        SetKey::GithubUser => match r {
            Ok(ConfigUpdate::GithubUsername(v)) => github_username_outcome(value, Ok(v)),
            Err(SetError::Invalid(e)) => github_username_outcome(value, Err(e)),
            _ => false,
        },
        SetKey::TangledUser => match r {
            Ok(ConfigUpdate::TangledUsername(v)) => tangled_username_outcome(value, Ok(v)),
            Err(SetError::Invalid(e)) => tangled_username_outcome(value, Err(e)),
            _ => false,
        },
        SetKey::Origin => match r {
            Ok(ConfigUpdate::Origin(o)) => origin_input_outcome(value, Ok(o)),
            Ok(_) => false,
            Err(e) => origin_input_outcome(value, Err(e)),
        },
    }
}

/// Check the value given for `key`: a GitHub username or a Tangled handle is
/// validated (and comes back sanitized), an origin preference is parsed.
pub fn check_set_value(key: SetKey, value: &str) -> (r: Result<ConfigUpdate, SetError>)
    ensures
        set_value_outcome(key, value@, r),
{
    match key {
        SetKey::GithubUser => match validate_github_username(value) {
            Ok(v) => Ok(ConfigUpdate::GithubUsername(v)),
            Err(e) => Err(SetError::Invalid(e)),
        },
        SetKey::TangledUser => match validate_tangled_username(value) {
            Ok(v) => Ok(ConfigUpdate::TangledUsername(v)),
            Err(e) => Err(SetError::Invalid(e)),
        },
        SetKey::Origin => match parse_origin(value) {
            Ok(o) => Ok(ConfigUpdate::Origin(o)),
            Err(e) => Err(e),
        },
    }
}

/// `c` with the one field that `u` names replaced.
pub open spec fn applied(c: PartialConfig, u: ConfigUpdate) -> PartialConfig {
    match u {
        ConfigUpdate::GithubUsername(v) => PartialConfig {
            github_username: Some(v),
            tangled_username: c.tangled_username,
            origin_preference: c.origin_preference,
        },
        ConfigUpdate::TangledUsername(v) => PartialConfig {
            github_username: c.github_username,
            tangled_username: Some(v),
            origin_preference: c.origin_preference,
        },
        ConfigUpdate::Origin(o) => PartialConfig {
            github_username: c.github_username,
            tangled_username: c.tangled_username,
            origin_preference: Some(o),
        },
    }
}

/// The confirmation printed after a successful `entangle set`.
pub open spec fn update_confirmation(u: ConfigUpdate) -> Seq<char> {
    match u {
        ConfigUpdate::GithubUsername(v) => "GitHub username set to: "@ + v@,
        ConfigUpdate::TangledUsername(v) => "Tangled username set to: "@ + v@,
        ConfigUpdate::Origin(o) => "Origin preference set to: "@ + origin_name(o),
    }
}

impl ConfigUpdate {
    /// Put the value into `config`, leaving the other fields as they are.
    pub fn apply(self, config: PartialConfig) -> (r: PartialConfig)
        ensures
            r == applied(config, self),
    {
        match self {
            ConfigUpdate::GithubUsername(v) => PartialConfig {
                github_username: Some(v),
                tangled_username: config.tangled_username,
                origin_preference: config.origin_preference,
            },
            ConfigUpdate::TangledUsername(v) => PartialConfig {
                github_username: config.github_username,
                tangled_username: Some(v),
                origin_preference: config.origin_preference,
            },
            ConfigUpdate::Origin(o) => PartialConfig {
                github_username: config.github_username,
                tangled_username: config.tangled_username,
                origin_preference: Some(o),
            },
        }
    }

    /// The confirmation for this value, e.g. `GitHub username set to: cyrusae`.
    pub fn confirmation(&self) -> (r: String)
        ensures
            r@ == update_confirmation(*self),
    {
        match self {
            ConfigUpdate::GithubUsername(v) => concat2("GitHub username set to: ", v.as_str()),
            ConfigUpdate::TangledUsername(v) => concat2("Tangled username set to: ", v.as_str()),
            ConfigUpdate::Origin(o) => concat2("Origin preference set to: ", o.name()),
        }
    }
}

/// `entangle set` changes only the field it names: the named field gets the
/// new value, and the two other fields keep what the config held.
pub proof fn law_set_changes_only_the_named_field(c: PartialConfig, u: ConfigUpdate)
    ensures
        u matches ConfigUpdate::GithubUsername(v) ==> applied(c, u).github_username == Some(v)
            && applied(c, u).tangled_username == c.tangled_username && applied(c, u).origin_preference
            == c.origin_preference,
        u matches ConfigUpdate::TangledUsername(v) ==> applied(c, u).tangled_username == Some(v)
            && applied(c, u).github_username == c.github_username && applied(c, u).origin_preference
            == c.origin_preference,
        u matches ConfigUpdate::Origin(o) ==> applied(c, u).origin_preference == Some(o)
            && applied(c, u).github_username == c.github_username && applied(c, u).tangled_username
            == c.tangled_username,
{
}

/// Two `entangle set` calls on different fields accumulate: the result does
/// not depend on their order, and each call's value is kept.
pub proof fn law_set_calls_accumulate(c: PartialConfig, u1: ConfigUpdate, u2: ConfigUpdate)
    requires
        !(u1 is GithubUsername && u2 is GithubUsername),
        !(u1 is TangledUsername && u2 is TangledUsername),
        !(u1 is Origin && u2 is Origin),
    ensures
        applied(applied(c, u1), u2) == applied(applied(c, u2), u1),
        applied(applied(c, u1), u2) == applied(applied(applied(c, u1), u2), u1),
{
}

} // verus!
