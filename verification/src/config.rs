//! The persisted user configuration and its JSON text.
//!
//! The file lives at `{config_dir}/entangle/config.json`; reading and writing
//! it is the front end's job, and so is serde's typed decoding of a document
//! into the stored form of a config. This module decides what a file's text
//! means (which [`ConfigError`] a broken file produces, checked before the
//! typed decoding is used) and which text stores a config.

use vstd::prelude::*;

use crate::json::{
    begins_with_brace, distinct_keys, find_member, lookup, pair_views, parse_json, pretty_string_object,
    parses_to_string_object, spec_parse_json, spec_pretty_string_object, str_eq, JsonValue,
};
use crate::text::{
    concat2, concat3, is_ws, lead_ws, lemma_lead_ws, lemma_trail_ws, str_chars, trail_ws, trim,
    trim_chars,
};

verus! {

// ---------------------------------------------------------------------------
// Verbosity
// ---------------------------------------------------------------------------

/// How much output `entangle` produces. Levels are ordered
/// `Quiet < Verbose < Debug`; each level shows everything the one below does.
#[derive(Debug, Clone, Copy, PartialEq, Eq, Structural, Ord)]
pub enum VerbosityLevel {
    /// Only errors and interactive prompts reach the user.
    Quiet,
    /// Full informational output (the default).
    Verbose,
    /// Everything in `Verbose` plus internal diagnostics.
    Debug,
}

impl VerbosityLevel {
    /// Position of the level in the order `Quiet < Verbose < Debug`.
    pub open spec fn rank(self) -> int {
        match self {
            VerbosityLevel::Quiet => 0,
            VerbosityLevel::Verbose => 1,
            VerbosityLevel::Debug => 2,
        }
    }

    /// `true` for the default level (`Verbose`), which the config file omits.
    pub fn is_default_verbosity(&self) -> (r: bool)
        ensures
            r == (*self == VerbosityLevel::Verbose),
    {
        match self {
            VerbosityLevel::Verbose => true,
            _ => false,
        }
    }

    /// The lowercase name used in the config file.
    pub fn name(&self) -> (r: &'static str)
        ensures
            r@ == verbosity_name(*self),
    {
        match self {
            VerbosityLevel::Quiet => "quiet",
            VerbosityLevel::Verbose => "verbose",
            VerbosityLevel::Debug => "debug",
        }
    }
}

/// Config-file name of each verbosity level.
pub open spec fn verbosity_name(v: VerbosityLevel) -> Seq<char> {
    match v {
        VerbosityLevel::Quiet => "quiet"@,
        VerbosityLevel::Verbose => "verbose"@,
        VerbosityLevel::Debug => "debug"@,
    }
}

impl Default for VerbosityLevel {
    fn default() -> (r: Self)
        ensures
            r == VerbosityLevel::Verbose,
    {
        VerbosityLevel::Verbose
    }
}

impl PartialOrd for VerbosityLevel {
    fn partial_cmp(&self, other: &Self) -> (r: Option<std::cmp::Ordering>) {
        let a: u8 = match self {
            VerbosityLevel::Quiet => 0,
            VerbosityLevel::Verbose => 1,
            VerbosityLevel::Debug => 2,
        };
        let b: u8 = match other {
            VerbosityLevel::Quiet => 0,
            VerbosityLevel::Verbose => 1,
            VerbosityLevel::Debug => 2,
        };
        if a < b {
            Some(std::cmp::Ordering::Less)
        } else if a == b {
            Some(std::cmp::Ordering::Equal)
        } else {
            Some(std::cmp::Ordering::Greater)
        }
    }
}

impl vstd::std_specs::cmp::PartialOrdSpecImpl for VerbosityLevel {
    open spec fn obeys_partial_cmp_spec() -> bool {
        true
    }

    open spec fn partial_cmp_spec(&self, other: &Self) -> Option<std::cmp::Ordering> {
        if self.rank() < other.rank() {
            Some(std::cmp::Ordering::Less)
        } else if self.rank() == other.rank() {
            Some(std::cmp::Ordering::Equal)
        } else {
            Some(std::cmp::Ordering::Greater)
        }
    }
}

// ---------------------------------------------------------------------------
// Origin preference
// ---------------------------------------------------------------------------

/// Which forge is the primary fetch remote; the other one is push-only.
#[derive(Debug, Clone, Copy, PartialEq, Eq, Structural)]
pub enum OriginPreference {
    /// GitHub is the fetch remote (default).
    Github,
    /// Tangled.org is the fetch remote.
    Tangled,
}

/// The aliases accepted for each origin preference.
pub open spec fn origin_from_alias(s: Seq<char>) -> Option<OriginPreference> {
    if s == "github"@ || s == "gh"@ {
        Some(OriginPreference::Github)
    } else if s == "tangled"@ || s == "tngl"@ {
        Some(OriginPreference::Tangled)
    } else {
        None
    }
}

/// Config-file name of each origin preference.
pub open spec fn origin_name(o: OriginPreference) -> Seq<char> {
    match o {
        OriginPreference::Github => "github"@,
        OriginPreference::Tangled => "tangled"@,
    }
}

impl OriginPreference {
    /// Parse an origin preference from a (sanitized) user-supplied alias:
    /// `github` or `gh`, `tangled` or `tngl`. Anything else gives `None`.
    pub fn from_alias(s: &str) -> (r: Option<Self>)
        ensures
            r == origin_from_alias(s@),
    {
        if str_eq(s, "github") || str_eq(s, "gh") {
            Some(OriginPreference::Github)
        } else if str_eq(s, "tangled") || str_eq(s, "tngl") {
            Some(OriginPreference::Tangled)
        } else {
            None
        }
    }

    /// The lowercase name shown to users and stored in the config file.
    pub fn name(&self) -> (r: &'static str)
        ensures
            r@ == origin_name(*self),
    {
        match self {
            OriginPreference::Github => "github",
            OriginPreference::Tangled => "tangled",
        }
    }
}

// ---------------------------------------------------------------------------
// Config and PartialConfig
// ---------------------------------------------------------------------------

/// Persisted user configuration.
#[derive(Debug, Clone, PartialEq, Eq)]
pub struct Config {
    /// GitHub username (at most 39 characters, alphanumerics and hyphens).
    pub github_username: String,
    /// Tangled username: an ATProto handle such as `atdot.fyi`.
    pub tangled_username: String,
    /// Which forge is the primary fetch remote.
    pub origin_preference: OriginPreference,
    /// How much output `entangle` produces; `Verbose` when absent.
    pub verbosity_preference: VerbosityLevel,
}

/// The level in effect: `quiet` wins, then `debug`, else the stored preference.
pub open spec fn spec_effective_verbosity(stored: VerbosityLevel, quiet: bool, debug: bool) -> VerbosityLevel {
    if quiet {
        VerbosityLevel::Quiet
    } else if debug {
        VerbosityLevel::Debug
    } else {
        stored
    }
}

impl Config {
    /// Resolve the effective verbosity for a command invocation: the `quiet`
    /// flag gives `Quiet`, otherwise the `debug` flag gives `Debug`, otherwise
    /// the stored preference applies.
    pub fn effective_verbosity(&self, quiet: bool, debug: bool) -> (r: VerbosityLevel)
        ensures
            r == spec_effective_verbosity(self.verbosity_preference, quiet, debug),
    {
        if quiet {
            VerbosityLevel::Quiet
        } else if debug {
            VerbosityLevel::Debug
        } else {
            self.verbosity_preference
        }
    }
}

/// [`Config`] with every field optional, for field-by-field updates.
#[derive(Debug, Clone, PartialEq, Eq)]
pub struct PartialConfig {
    /// GitHub username, if set.
    pub github_username: Option<String>,
    /// Tangled username, if set.
    pub tangled_username: Option<String>,
    /// Origin preference, if set.
    pub origin_preference: Option<OriginPreference>,
}

impl Default for PartialConfig {
    fn default() -> (r: Self)
        ensures
            r.github_username is None,
            r.tangled_username is None,
            r.origin_preference is None,
    {
        PartialConfig { github_username: None, tangled_username: None, origin_preference: None }
    }
}

// ---------------------------------------------------------------------------
// Errors
// ---------------------------------------------------------------------------

#[verifier::external_type_specification]
#[verifier::external_body]
pub struct ExIoError(std::io::Error);

/// Errors that can arise when loading or saving the config file; each one
/// names the `entangle` command that fixes it.
#[derive(Debug)]
pub enum ConfigError {
    /// No config directory is known for this platform.
    NoPlatformConfigDir,
    /// The config file doesn't exist yet.
    NotFound,
    /// The config file exists but couldn't be read.
    Unreadable(std::io::Error),
    /// The config file is empty, blank, or the empty object `{}`.
    Empty,
    /// The JSON has no `github_username`.
    MissingGithubUsername,
    /// The JSON has no `tangled_username`.
    MissingTangledUsername,
    /// The JSON has no `origin_preference`.
    MissingOriginPreference,
    /// The text is not a usable config document.
    Corrupted(String),
    /// The config directory couldn't be created.
    CannotCreateDir(std::io::Error),
    /// The config file couldn't be written.
    CannotWriteFile(std::io::Error),
}

/// Trusted wrapper for the `Display` text of `std::io::Error`. Nothing is
/// claimed of the text: it comes from the operating system.
#[verifier::external_body]
fn io_error_text(e: &std::io::Error) -> String {
    e.to_string()
}

/// The fixed message of each error, or for the three that carry an I/O error,
/// the part before the operating system's description.
pub open spec fn config_message_head(e: ConfigError) -> Seq<char> {
    match e {
        ConfigError::NoPlatformConfigDir => "Could not determine a config directory for this platform."@,
        ConfigError::NotFound => "No config file found. Run `entangle setup` to create one."@,
        ConfigError::Unreadable(_) => "Config file exists but couldn't be read: "@,
        ConfigError::Empty => "Config file is empty. Run `entangle setup` to fill it in."@,
        ConfigError::MissingGithubUsername => "Config is missing `github_username`. Run `entangle set gh-user <username>`."@,
        ConfigError::MissingTangledUsername => "Config is missing `tangled_username`. Run `entangle set tngl-user <username>`."@,
        ConfigError::MissingOriginPreference => "Config is missing `origin_preference`. Run `entangle set origin <github|tangled>`."@,
        ConfigError::Corrupted(msg) => "Config file is unreadable ("@ + msg@
            + "). Re-run `entangle setup` to overwrite it."@,
        ConfigError::CannotCreateDir(_) => "Couldn't create config directory: "@,
        ConfigError::CannotWriteFile(_) => "Couldn't write config file: "@,
    }
}

/// The three variants whose message ends with an operating-system text.
pub open spec fn carries_io_error(e: ConfigError) -> bool {
    e is Unreadable || e is CannotCreateDir || e is CannotWriteFile
}

impl ConfigError {
    /// The message for this error with `detail` as the operating system's
    /// description of the I/O error, for the three variants that carry one;
    /// the other variants ignore `detail`.
    pub fn message_with_detail(&self, detail: &str) -> (r: String)
        ensures
            carries_io_error(*self) ==> r@ == config_message_head(*self) + detail@,
            !carries_io_error(*self) ==> r@ == config_message_head(*self),
    {
        match self {
            ConfigError::NoPlatformConfigDir => String::from_str(
                "Could not determine a config directory for this platform.",
            ),
            ConfigError::NotFound => String::from_str(
                "No config file found. Run `entangle setup` to create one.",
            ),
            ConfigError::Unreadable(_) => concat2("Config file exists but couldn't be read: ", detail),
            ConfigError::Empty => String::from_str(
                "Config file is empty. Run `entangle setup` to fill it in.",
            ),
            ConfigError::MissingGithubUsername => String::from_str(
                "Config is missing `github_username`. Run `entangle set gh-user <username>`.",
            ),
            ConfigError::MissingTangledUsername => String::from_str(
                "Config is missing `tangled_username`. Run `entangle set tngl-user <username>`.",
            ),
            ConfigError::MissingOriginPreference => String::from_str(
                "Config is missing `origin_preference`. Run `entangle set origin <github|tangled>`.",
            ),
            ConfigError::Corrupted(msg) => concat3(
                "Config file is unreadable (",
                msg.as_str(),
                "). Re-run `entangle setup` to overwrite it.",
            ),
            ConfigError::CannotCreateDir(_) => concat2("Couldn't create config directory: ", detail),
            ConfigError::CannotWriteFile(_) => concat2("Couldn't write config file: ", detail),
        }
    }

    /// The human-readable message for this error (what `Display` prints):
    /// [`ConfigError::message_with_detail`] with the I/O error's own text.
    pub fn message(&self) -> (r: String)
        ensures
            carries_io_error(*self) ==> r@.len() >= config_message_head(*self).len()
                && r@.take(config_message_head(*self).len() as int) == config_message_head(*self),
            !carries_io_error(*self) ==> r@ == config_message_head(*self),
    {
        let detail = match self {
            ConfigError::Unreadable(e) => io_error_text(e),
            ConfigError::CannotCreateDir(e) => io_error_text(e),
            ConfigError::CannotWriteFile(e) => io_error_text(e),
            _ => String::new(),
        };
        let r = self.message_with_detail(detail.as_str());
        proof {
            if carries_io_error(*self) {
                assert(r@.take(config_message_head(*self).len() as int) =~= config_message_head(*self));
            }
        }
        r
    }
}

// ---------------------------------------------------------------------------
// Decoding the config file
// ---------------------------------------------------------------------------

/// Why a parsed document is not a config, checked in this order.
pub enum ConfigIssue {
    /// The top level is not an object.
    NotObject,
    /// The object has no members.
    Empty,
    MissingGithubUsername,
    MissingTangledUsername,
    MissingOriginPreference,
}

pub open spec fn config_issue(v: JsonValue) -> Option<ConfigIssue> {
    match v {
        JsonValue::Object(members) => {
            let m = members@;
            if m.len() == 0 {
                Some(ConfigIssue::Empty)
            } else if lookup(m, "github_username"@) is None {
                Some(ConfigIssue::MissingGithubUsername)
            } else if lookup(m, "tangled_username"@) is None {
                Some(ConfigIssue::MissingTangledUsername)
            } else if lookup(m, "origin_preference"@) is None {
                Some(ConfigIssue::MissingOriginPreference)
            } else {
                None
            }
        },
        _ => Some(ConfigIssue::NotObject),
    }
}

/// The result of loading once every check has passed: the typed decoding,
/// with a decoding error reported as `Corrupted` with the decoder's message.
pub open spec fn decoded_outcome(decoded: Result<Config, String>, r: Result<Config, ConfigError>) -> bool {
    match decoded {
        Ok(c) => r == Ok::<Config, ConfigError>(c),
        Err(m) => r matches Err(ConfigError::Corrupted(x)) && x@ == m@,
    }
}

/// The result of loading a partial config once the text is not blank.
pub open spec fn partial_decoded_outcome(
    decoded: Result<PartialConfig, String>,
    r: Result<PartialConfig, ConfigError>,
) -> bool {
    match decoded {
        Ok(p) => r == Ok::<PartialConfig, ConfigError>(p),
        Err(m) => r matches Err(ConfigError::Corrupted(x)) && x@ == m@,
    }
}

/// What [`Config::from_config_text`] returns for the text of a config file,
/// given `decoded`, what the typed decoding of the parsed document gave (a
/// config, or the decoder's error message).
pub open spec fn config_from_text_outcome(
    text: Seq<char>,
    decoded: Result<Config, String>,
    r: Result<Config, ConfigError>,
) -> bool {
    if trim(text).len() == 0 {
        r matches Err(ConfigError::Empty)
    } else {
        match spec_parse_json(text) {
            Err(msg) => r matches Err(ConfigError::Corrupted(m)) && m@ == msg,
            Ok(v) => match config_issue(v) {
                Some(ConfigIssue::NotObject) => r matches Err(ConfigError::Corrupted(msg)) && msg@
                    == "Expected a JSON object at the top level"@,
                Some(ConfigIssue::Empty) => r matches Err(ConfigError::Empty),
                Some(ConfigIssue::MissingGithubUsername) => r matches Err(
                    ConfigError::MissingGithubUsername,
                ),
                Some(ConfigIssue::MissingTangledUsername) => r matches Err(
                    ConfigError::MissingTangledUsername,
                ),
                Some(ConfigIssue::MissingOriginPreference) => r matches Err(
                    ConfigError::MissingOriginPreference,
                ),
                None => decoded_outcome(decoded, r),
            },
        }
    }
}

impl Config {
    /// Decide what the text of a config file means (everything `load` does
    /// after reading the file), in this order: blank text is
    /// [`ConfigError::Empty`]; text that is not JSON is
    /// [`ConfigError::Corrupted`] with the parser's message; a document that
    /// is not an object is `Corrupted`; `{}` is `Empty`; a missing
    /// `github_username`, `tangled_username` or `origin_preference` is the
    /// matching error. Otherwise the result is `decoded`, the typed decoding
    /// of the document into the stored form of [`Config`] (unknown members
    /// ignored, an absent `verbosity_preference` meaning `Verbose`), with a
    /// decoding error reported as `Corrupted` with the decoder's message.
    pub fn from_config_text(text: &str, decoded: Result<Config, String>) -> (r: Result<Config, ConfigError>)
        ensures
            config_from_text_outcome(text@, decoded, r),
    {
        let chars = str_chars(text);
        let t = trim_chars(chars.as_slice());
        if t.len() == 0 {
            return Err(ConfigError::Empty);
        }
        let v = match parse_json(text) {
            Err(msg) => return Err(ConfigError::Corrupted(msg)),
            Ok(v) => v,
        };
        let members = match &v {
            JsonValue::Object(m) => m,
            _ => {
                return Err(
                    ConfigError::Corrupted(String::from_str("Expected a JSON object at the top level")),
                );
            },
        };
        if members.len() == 0 {
            return Err(ConfigError::Empty);
        }
        if find_member(members, "github_username").is_none() {
            return Err(ConfigError::MissingGithubUsername);
        }
        if find_member(members, "tangled_username").is_none() {
            return Err(ConfigError::MissingTangledUsername);
        }
        if find_member(members, "origin_preference").is_none() {
            return Err(ConfigError::MissingOriginPreference);
        }
        match decoded {
            Ok(c) => Ok(c),
            Err(m) => Err(ConfigError::Corrupted(m)),
        }
    }
}

// ---------------------------------------------------------------------------
// Decoding a partial config file
// ---------------------------------------------------------------------------

/// The views of an optional string.
pub open spec fn opt_view(o: Option<String>) -> Option<Seq<char>> {
    match o {
        Some(s) => Some(s@),
        None => None,
    }
}

/// What [`PartialConfig::from_config_text`] returns for the text of a config
/// file, given `decoded`, what the typed decoding of the text gave.
pub open spec fn partial_from_text_outcome(
    text: Seq<char>,
    decoded: Result<PartialConfig, String>,
    r: Result<PartialConfig, ConfigError>,
) -> bool {
    if trim(text).len() == 0 {
        r matches Ok(c) && c.github_username is None && c.tangled_username is None
            && c.origin_preference is None
    } else {
        partial_decoded_outcome(decoded, r)
    }
}

impl PartialConfig {
    /// Decide what the text of a config file means for `entangle set` and
    /// `entangle setup`: blank text is an empty partial config (nothing set
    /// yet); any other text is `decoded`, the typed decoding of the text into
    /// the stored form of [`PartialConfig`], with a decoding error reported
    /// as [`ConfigError::Corrupted`] with the decoder's message.
    pub fn from_config_text(text: &str, decoded: Result<PartialConfig, String>) -> (r: Result<PartialConfig, ConfigError>)
        ensures
            partial_from_text_outcome(text@, decoded, r),
    {
        let chars = str_chars(text);
        let t = trim_chars(chars.as_slice());
        if t.len() == 0 {
            return Ok(PartialConfig::default());
        }
        match decoded {
            Ok(p) => Ok(p),
            Err(m) => Err(ConfigError::Corrupted(m)),
        }
    }
}

// ---------------------------------------------------------------------------
// The stored verbosity preference
// ---------------------------------------------------------------------------

/// The verbosity level stored under each config-file name.
pub open spec fn verbosity_from_name(s: Seq<char>) -> Option<VerbosityLevel> {
    if s == "quiet"@ {
        Some(VerbosityLevel::Quiet)
    } else if s == "verbose"@ {
        Some(VerbosityLevel::Verbose)
    } else if s == "debug"@ {
        Some(VerbosityLevel::Debug)
    } else {
        None
    }
}

/// The verbosity preference that the text of a config file stores: the
/// `verbosity_preference` member of the top-level object when it is one of
/// the three level names, and nothing otherwise.
pub open spec fn spec_stored_verbosity(text: Seq<char>) -> Option<VerbosityLevel> {
    match spec_parse_json(text) {
        Ok(JsonValue::Object(m)) => match lookup(m@, "verbosity_preference"@) {
            Some(JsonValue::Str(v)) => verbosity_from_name(v@),
            _ => None,
        },
        _ => None,
    }
}

/// The verbosity preference stored in the text of a config file, if it
/// stores one (see [`spec_stored_verbosity`]). `entangle setup` keeps it.
pub fn stored_verbosity(text: &str) -> (r: Option<VerbosityLevel>)
    ensures
        r == spec_stored_verbosity(text@),
{
    let v = match parse_json(text) {
        Ok(v) => v,
        Err(_) => return None,
    };
    let members = match &v {
        JsonValue::Object(m) => m,
        _ => return None,
    };
    let k = match find_member(members, "verbosity_preference") {
        Some(k) => k,
        None => return None,
    };
    match &members[k].1 {
        JsonValue::Str(name) => {
            if str_eq(name.as_str(), "quiet") {
                Some(VerbosityLevel::Quiet)
            } else if str_eq(name.as_str(), "verbose") {
                Some(VerbosityLevel::Verbose)
            } else if str_eq(name.as_str(), "debug") {
                Some(VerbosityLevel::Debug)
            } else {
                None
            }
        },
        _ => None,
    }
}

// ---------------------------------------------------------------------------
// Writing the config file
// ---------------------------------------------------------------------------

/// The members that store a config, in this order: `github_username`,
/// `tangled_username` and `origin_preference`, then `verbosity_preference`
/// only when it is not the default; every value is a string.
pub open spec fn config_pairs(c: Config) -> Seq<(Seq<char>, Seq<char>)> {
    seq![
        ("github_username"@, c.github_username@),
        ("tangled_username"@, c.tangled_username@),
        ("origin_preference"@, origin_name(c.origin_preference)),
    ] + if c.verbosity_preference == VerbosityLevel::Verbose {
        Seq::<(Seq<char>, Seq<char>)>::empty()
    } else {
        seq![("verbosity_preference"@, verbosity_name(c.verbosity_preference))]
    }
}

/// The members that store a partial config: the fields that are set, in
/// field order, as strings.
pub open spec fn partial_pairs(c: PartialConfig) -> Seq<(Seq<char>, Seq<char>)> {
    (match c.github_username {
        Some(g) => seq![("github_username"@, g@)],
        None => Seq::<(Seq<char>, Seq<char>)>::empty(),
    }) + (match c.tangled_username {
        Some(t) => seq![("tangled_username"@, t@)],
        None => Seq::<(Seq<char>, Seq<char>)>::empty(),
    }) + (match c.origin_preference {
        Some(o) => seq![("origin_preference"@, origin_name(o))],
        None => Seq::<(Seq<char>, Seq<char>)>::empty(),
    })
}

fn pair(key: &str, value: String) -> (r: (String, String))
    ensures
        (r.0@, r.1@) == (key@, value@),
{
    (String::from_str(key), value)
}

impl Config {
    /// The text of the config file that stores this config: a pretty-printed
    /// JSON object with the members of [`config_pairs`]. Loading that text
    /// passes every check, so what it gives is the typed decoding of the text.
    pub fn to_config_text(&self) -> (r: String)
        ensures
            r@ == spec_pretty_string_object(config_pairs(*self)),
            forall|decoded: Result<Config, String>, res: Result<Config, ConfigError>|
                #[trigger] config_from_text_outcome(r@, decoded, res) ==> decoded_outcome(decoded, res),
            spec_stored_verbosity(r@) == (if self.verbosity_preference == VerbosityLevel::Verbose {
                None::<VerbosityLevel>
            } else {
                Some(self.verbosity_preference)
            }),
    {
        let mut m: Vec<(String, String)> = Vec::new();
        m.push(pair("github_username", self.github_username.clone()));
        m.push(pair("tangled_username", self.tangled_username.clone()));
        m.push(pair("origin_preference", String::from_str(self.origin_preference.name())));
        if !self.verbosity_preference.is_default_verbosity() {
            m.push(pair("verbosity_preference", String::from_str(self.verbosity_preference.name())));
        }
        proof {
            assert(pair_views(m@) =~= config_pairs(*self));
            lemma_config_pairs_distinct(*self);
        }
        let r = pretty_string_object(&m);
        proof {
            lemma_saved_config_passes_checks(*self, r@);
            lemma_saved_verbosity(*self, r@);
        }
        r
    }
}

impl PartialConfig {
    /// The text of the config file that stores this partial config: a
    /// pretty-printed JSON object with the members of [`partial_pairs`] (only
    /// the fields that are set). That text is never blank, so loading it gives
    /// its typed decoding.
    pub fn to_config_text(&self) -> (r: String)
        ensures
            r@ == spec_pretty_string_object(partial_pairs(*self)),
            forall|decoded: Result<PartialConfig, String>, res: Result<PartialConfig, ConfigError>|
                #[trigger] partial_from_text_outcome(r@, decoded, res) ==> partial_decoded_outcome(
                    decoded,
                    res,
                ),
    {
        let mut m: Vec<(String, String)> = Vec::new();
        match &self.github_username {
            Some(g) => m.push(pair("github_username", g.clone())),
            None => {},
        }
        match &self.tangled_username {
            Some(t) => m.push(pair("tangled_username", t.clone())),
            None => {},
        }
        match self.origin_preference {
            Some(o) => m.push(pair("origin_preference", String::from_str(o.name()))),
            None => {},
        }
        proof {
            assert(pair_views(m@) =~= partial_pairs(*self));
        }
        let r = pretty_string_object(&m);
        proof {
            lemma_not_blank(r@);
        }
        r
    }
}

/// Text that begins with `{` is not blank.
proof fn lemma_not_blank(t: Seq<char>)
    requires
        begins_with_brace(t),
    ensures
        trim(t).len() > 0,
{
    lemma_lead_ws(t);
    lemma_trail_ws(t);
    assert(!is_ws('{'));
    assert(lead_ws(t) == 0);
    assert(t.skip(0) =~= t);
    assert(trail_ws(t) < t.len()) by {
        if trail_ws(t) >= t.len() {
            assert(is_ws(t[0]));
        }
    }
    assert(trim(t).len() == t.len() - trail_ws(t));
}

/// The keys of a stored config are distinct.
proof fn lemma_config_pairs_distinct(c: Config)
    ensures
        distinct_keys(config_pairs(c)),
{
    reveal_strlit("github_username");
    reveal_strlit("tangled_username");
    reveal_strlit("origin_preference");
    reveal_strlit("verbosity_preference");
    let p = config_pairs(c);
    assert(p[0].0 == "github_username"@);
    assert(p[1].0 == "tangled_username"@);
    assert(p[2].0 == "origin_preference"@);
    assert(p.len() == 4 ==> p[3].0 == "verbosity_preference"@);
    assert("github_username"@[0] != "tangled_username"@[0]);
    assert("github_username"@[0] != "origin_preference"@[0]);
    assert("github_username"@[0] != "verbosity_preference"@[0]);
    assert("tangled_username"@[0] != "origin_preference"@[0]);
    assert("tangled_username"@[0] != "verbosity_preference"@[0]);
    assert("origin_preference"@[0] != "verbosity_preference"@[0]);
}

/// The text that stores a config is not blank, parses, and has every member
/// that loading checks for, so loading it gives its typed decoding.
proof fn lemma_saved_config_passes_checks(c: Config, t: Seq<char>)
    requires
        begins_with_brace(t),
        parses_to_string_object(t, config_pairs(c)),
    ensures
        forall|decoded: Result<Config, String>, res: Result<Config, ConfigError>|
            #[trigger] config_from_text_outcome(t, decoded, res) ==> decoded_outcome(decoded, res),
{
    lemma_not_blank(t);
    let m = spec_parse_json(t)->Ok_0->Object_0@;
    let p = config_pairs(c);
    reveal_strlit("github_username");
    reveal_strlit("tangled_username");
    reveal_strlit("origin_preference");
    assert(m[0].0@ == p[0].0);
    assert(m[1].0@ == p[1].0);
    assert(m[2].0@ == p[2].0);
    assert(lookup(m, "github_username"@) is Some);
    assert(m.drop_first()[0] == m[1]);
    assert(lookup(m.drop_first(), "tangled_username"@) is Some);
    assert(lookup(m, "tangled_username"@) is Some);
    assert(m.drop_first().drop_first()[0] == m[2]);
    assert(lookup(m.drop_first().drop_first(), "origin_preference"@) is Some);
    assert(lookup(m.drop_first(), "origin_preference"@) is Some);
    assert(lookup(m, "origin_preference"@) is Some);
}

/// The verbosity stored in the text that stores a config is its own, unless
/// that is the default.
proof fn lemma_saved_verbosity(c: Config, t: Seq<char>)
    requires
        parses_to_string_object(t, config_pairs(c)),
    ensures
        spec_stored_verbosity(t) == (if c.verbosity_preference == VerbosityLevel::Verbose {
            None::<VerbosityLevel>
        } else {
            Some(c.verbosity_preference)
        }),
{
    let m = spec_parse_json(t)->Ok_0->Object_0@;
    let p = config_pairs(c);
    let k = "verbosity_preference"@;
    reveal_strlit("github_username");
    reveal_strlit("tangled_username");
    reveal_strlit("origin_preference");
    reveal_strlit("verbosity_preference");
    reveal_strlit("quiet");
    reveal_strlit("verbose");
    reveal_strlit("debug");
    assert(m[0].0@ == p[0].0 && m[1].0@ == p[1].0 && m[2].0@ == p[2].0);
    assert(m[0].0@[0] != k[0]);
    assert(m[1].0@[0] != k[0]);
    assert(m[2].0@[0] != k[0]);
    let m1 = m.drop_first();
    let m2 = m1.drop_first();
    let m3 = m2.drop_first();
    assert(m1[0] == m[1]);
    assert(m2[0] == m[2]);
    if c.verbosity_preference == VerbosityLevel::Verbose {
        assert(m3.len() == 0);
        assert(lookup(m3, k) is None);
    } else {
        assert(m3[0] == m[3]);
        assert(m[3].0@ == k);
        assert(lookup(m3, k) == Some(m[3].1));
        let name = verbosity_name(c.verbosity_preference);
        assert(m[3].1 matches JsonValue::Str(x) && x@ == name);
        if c.verbosity_preference == VerbosityLevel::Debug {
            assert(name == "debug"@);
            assert(name[0] != "quiet"@[0]);
            assert(name.len() != "verbose"@.len());
        } else {
            assert(name == "quiet"@);
        }
        assert(verbosity_from_name(name) == Some(c.verbosity_preference));
    }
    assert(lookup(m2, k) == lookup(m3, k));
    assert(lookup(m1, k) == lookup(m2, k));
    assert(lookup(m, k) == lookup(m1, k));
}

/// The text that stores a config holds, in order, the GitHub username, the
/// Tangled username and the origin preference's name; and it holds the
/// verbosity preference's name exactly when that is not the default: `quiet`
/// and `debug` are written, `verbose` is left out.
pub proof fn law_saved_config_members(c: Config)
    ensures
        config_pairs(c)[0] == ("github_username"@, c.github_username@),
        config_pairs(c)[1] == ("tangled_username"@, c.tangled_username@),
        c.origin_preference == OriginPreference::Github ==> config_pairs(c)[2] == ("origin_preference"@, "github"@),
        c.origin_preference == OriginPreference::Tangled ==> config_pairs(c)[2] == ("origin_preference"@, "tangled"@),
        c.verbosity_preference == VerbosityLevel::Verbose ==> config_pairs(c).len() == 3,
        c.verbosity_preference == VerbosityLevel::Quiet ==> config_pairs(c).len() == 4 && config_pairs(c)[3] == (
            "verbosity_preference"@,
            "quiet"@,
        ),
        c.verbosity_preference == VerbosityLevel::Debug ==> config_pairs(c).len() == 4 && config_pairs(c)[3] == (
            "verbosity_preference"@,
            "debug"@,
        ),
{
}

} // verus!
