//! `entangle setup`: the interactive collection of the three config values.
//!
//! Values are asked for in order: GitHub username, Tangled username, origin
//! preference. A value already in the config is offered first ("... is
//! already set to '...'. Keep it?"); a refused answer is reported and asked
//! for again. The config is saved only once all three values are in, so a
//! cancelled setup never writes anything.
//!
//! The front end runs the prompts: it performs each [`SetupAction`] and
//! reports what the user did as a [`SetupEvent`] to [`setup_next`].

use vstd::prelude::*;

use crate::config::{
    opt_view, origin_from_alias, origin_name, Config, OriginPreference, PartialConfig,
    VerbosityLevel,
};
use crate::output::{bold, cross_mark, error_inline, red};
use crate::set_command::unknown_origin_message;
use crate::text::{concat2, concat3};
use crate::validate::{
    github_username_problem, spec_sanitize, tangled_username_problem,
    validate_github_username, validate_tangled_username, validation_message, ValidationError,
};

verus! {

/// The value being collected.
#[derive(Debug, Clone, Copy, PartialEq, Eq, Structural)]
pub enum SetupField {
    GithubUsername,
    TangledUsername,
    OriginPreference,
}

/// How far setup has come, with the values collected so far.
#[derive(Debug, Clone)]
pub enum SetupStage {
    Github,
    Tangled { github: String },
    Origin { github: String, tangled: String },
}

/// The state between two prompts.
#[derive(Debug, Clone)]
pub struct SetupState {
    /// The stage and the values collected so far.
    pub stage: SetupStage,
    /// The pending question is whether to keep the existing value.
    pub awaiting_keep: bool,
    /// The config as it was on disk when setup started.
    pub existing: PartialConfig,
    /// The verbosity preference to save: the stored one, or `Verbose` for a
    /// fresh setup.
    pub verbosity: VerbosityLevel,
}

/// The verbosity preference that setup saves: the stored one if there is
/// one, else the default `Verbose`.
pub open spec fn kept_verbosity(stored: Option<VerbosityLevel>) -> VerbosityLevel {
    match stored {
        Some(v) => v,
        None => VerbosityLevel::Verbose,
    }
}

/// What the front end does next.
#[derive(Debug, Clone)]
pub enum SetupAction {
    /// Ask a yes/no question; pressing Enter answers yes (keep).
    AskKeep { question: String },
    /// Print `error` if there is one (the previous answer was refused), then
    /// ask for a value with `prompt`; `default` is what pressing Enter gives.
    AskValue { prompt: String, default: Option<String>, error: Option<String> },
    /// All values are in: save this config.
    Save(Config),
    /// The user cancelled: print `message` and stop without writing.
    Cancel { message: String },
}

/// What the user did with the last question.
#[derive(Debug, Clone)]
pub enum SetupEvent {
    /// Answered the keep question.
    Keep(bool),
    /// Typed a value (raw, before sanitizing).
    Value(String),
    /// Pressed Ctrl+C, or the terminal went away.
    Cancelled,
}

// ---------------------------------------------------------------------------
// The questions
// ---------------------------------------------------------------------------

pub open spec fn stage_field(s: SetupStage) -> SetupField {
    match s {
        SetupStage::Github => SetupField::GithubUsername,
        SetupStage::Tangled { .. } => SetupField::TangledUsername,
        SetupStage::Origin { .. } => SetupField::OriginPreference,
    }
}

/// The name of the field in the keep question.
pub open spec fn field_label(f: SetupField) -> Seq<char> {
    match f {
        SetupField::GithubUsername => "GitHub username"@,
        SetupField::TangledUsername => "Tangled username (ATProto handle, e.g. atdot.fyi)"@,
        SetupField::OriginPreference => "Origin preference"@,
    }
}

/// The prompt that asks for the field.
pub open spec fn field_prompt(f: SetupField) -> Seq<char> {
    match f {
        SetupField::GithubUsername => "GitHub username"@,
        SetupField::TangledUsername => "Tangled username (ATProto handle, e.g. atdot.fyi)"@,
        SetupField::OriginPreference => "Origin preference (github/gh or tangled/tngl; which forge is the fetch remote) [github]"@,
    }
}

/// What pressing Enter at the prompt gives.
pub open spec fn field_default(f: SetupField) -> Option<Seq<char>> {
    match f {
        SetupField::OriginPreference => Some("github"@),
        _ => None,
    }
}

/// The value of the field in the config on disk, as shown to the user.
pub open spec fn existing_text(c: PartialConfig, f: SetupField) -> Option<Seq<char>> {
    match f {
        SetupField::GithubUsername => opt_view(c.github_username),
        SetupField::TangledUsername => opt_view(c.tangled_username),
        SetupField::OriginPreference => match c.origin_preference {
            Some(o) => Some(origin_name(o)),
            None => None,
        },
    }
}

pub open spec fn keep_question(label: Seq<char>, current: Seq<char>) -> Seq<char> {
    label + " is already set to '"@ + current + "'. Keep it?"@
}

/// The current value, when the pending question is whether to keep it.
pub open spec fn keep_current(s: SetupState) -> Option<Seq<char>> {
    if s.awaiting_keep {
        existing_text(s.existing, stage_field(s.stage))
    } else {
        None
    }
}

/// On entering a stage, the keep question is pending exactly when the config
/// already holds the field.
pub open spec fn entered(s: SetupState) -> bool {
    s.awaiting_keep == existing_text(s.existing, stage_field(s.stage)) is Some
}

/// `a` asks for the field `f`, after printing `error` if there is one.
pub open spec fn asks_value(a: SetupAction, f: SetupField, error: Option<Seq<char>>) -> bool {
    a matches SetupAction::AskValue { prompt, default, error: e } && prompt@ == field_prompt(f)
        && opt_view(default) == field_default(f) && opt_view(e) == error
}

/// `a` poses the pending question of `s`.
pub open spec fn poses(s: SetupState, a: SetupAction) -> bool {
    match keep_current(s) {
        Some(cur) => a matches SetupAction::AskKeep { question } && question@ == keep_question(
            field_label(stage_field(s.stage)),
            cur,
        ),
        None => asks_value(a, stage_field(s.stage), None),
    }
}

// ---------------------------------------------------------------------------
// The answers
// ---------------------------------------------------------------------------

/// What a typed username gives: the sanitized name when it passes
/// validation, else the message of the error.
pub open spec fn text_answer(f: SetupField, raw: Seq<char>) -> Result<Seq<char>, Seq<char>> {
    match spec_sanitize(raw) {
        Err(c) => Err(validation_message(ValidationError::DangerousCharacter { ch: c })),
        Ok(s) => if f == SetupField::GithubUsername {
            match github_username_problem(s) {
                Some(reason) => Err("'"@ + s + "' is not a valid GitHub username: "@ + reason + "."@),
                None => Ok(s),
            }
        } else {
            match tangled_username_problem(s) {
                Some(reason) => Err("'"@ + s + "' is not a valid Tangled username: "@ + reason + "."@),
                None => Ok(s),
            }
        },
    }
}

/// What a typed origin preference gives: the preference, or the message of
/// the error.
pub open spec fn origin_answer(raw: Seq<char>) -> Result<OriginPreference, Seq<char>> {
    match spec_sanitize(raw) {
        Err(c) => Err(validation_message(ValidationError::DangerousCharacter { ch: c })),
        Ok(s) => match origin_from_alias(s) {
            Some(o) => Ok(o),
            None => Err(unknown_origin_message(s)),
        },
    }
}

/// How a refused answer is reported.
pub open spec fn error_line(m: Seq<char>) -> Seq<char> {
    red(bold(cross_mark())) + seq![' '] + m
}

/// `t` and `a` follow when the username stage of `s` is answered with `v`.
pub open spec fn follows_text(s: SetupState, t: SetupState, a: SetupAction, v: Seq<char>) -> bool {
    &&& t.existing == s.existing
    &&& t.verbosity == s.verbosity
    &&& entered(t)
    &&& poses(t, a)
    &&& match s.stage {
        SetupStage::Github => t.stage matches SetupStage::Tangled { github } && github@ == v,
        SetupStage::Tangled { github } => t.stage matches SetupStage::Origin { github: g, tangled }
            && g == github && tangled@ == v,
        SetupStage::Origin { .. } => false,
    }
}

/// `a` saves the collected usernames of `s` with the origin preference `o`.
pub open spec fn saves(s: SetupState, a: SetupAction, o: OriginPreference) -> bool {
    match s.stage {
        SetupStage::Origin { github, tangled } => a matches SetupAction::Save(c) && c.github_username
            == github && c.tangled_username == tangled && c.origin_preference == o
            && c.verbosity_preference == s.verbosity,
        _ => false,
    }
}

pub open spec fn cancel_message() -> Seq<char> {
    "\nSetup cancelled. No changes were made."@
}

// ---------------------------------------------------------------------------
// Transitions
// ---------------------------------------------------------------------------

fn field_of(stage: &SetupStage) -> (f: SetupField)
    ensures
        f == stage_field(*stage),
{
    match stage {
        SetupStage::Github => SetupField::GithubUsername,
        SetupStage::Tangled { .. } => SetupField::TangledUsername,
        SetupStage::Origin { .. } => SetupField::OriginPreference,
    }
}

fn existing_value(c: &PartialConfig, f: SetupField) -> (r: Option<String>)
    ensures
        opt_view(r) == existing_text(*c, f),
{
    match f {
        SetupField::GithubUsername => c.github_username.clone(),
        SetupField::TangledUsername => c.tangled_username.clone(),
        SetupField::OriginPreference => match c.origin_preference {
            Some(o) => Some(String::from_str(o.name())),
            None => None,
        },
    }
}

fn ask_value(f: SetupField, error: Option<String>) -> (a: SetupAction)
    ensures
        asks_value(a, f, opt_view(error)),
{
    let prompt = match f {
        SetupField::GithubUsername => String::from_str("GitHub username"),
        SetupField::TangledUsername => String::from_str(
            "Tangled username (ATProto handle, e.g. atdot.fyi)",
        ),
        SetupField::OriginPreference => String::from_str(
            "Origin preference (github/gh or tangled/tngl; which forge is the fetch remote) [github]",
        ),
    };
    let default = match f {
        SetupField::OriginPreference => Some(String::from_str("github")),
        _ => None,
    };
    SetupAction::AskValue { prompt, default, error }
}

fn ask_keep(f: SetupField, current: &str) -> (a: SetupAction)
    ensures
        a matches SetupAction::AskKeep { question } && question@ == keep_question(
            field_label(f),
            current@,
        ),
{
    let label = match f {
        SetupField::GithubUsername => "GitHub username",
        SetupField::TangledUsername => "Tangled username (ATProto handle, e.g. atdot.fyi)",
        SetupField::OriginPreference => "Origin preference",
    };
    let head = concat3(label, " is already set to '", current);
    SetupAction::AskKeep { question: concat2(head.as_str(), "'. Keep it?") }
}

/// The question that `state` has pending.
fn pending(state: &SetupState) -> (a: SetupAction)
    ensures
        poses(*state, a),
{
    let f = field_of(&state.stage);
    if state.awaiting_keep {
        match existing_value(&state.existing, f) {
            Some(cur) => ask_keep(f, cur.as_str()),
            None => ask_value(f, None),
        }
    } else {
        ask_value(f, None)
    }
}

/// Enter `stage`: offer the existing value if there is one, else ask.
fn enter(stage: SetupStage, existing: PartialConfig, verbosity: VerbosityLevel) -> (r: (
    SetupState,
    SetupAction,
))
    ensures
        r.0.stage == stage,
        r.0.existing == existing,
        r.0.verbosity == verbosity,
        entered(r.0),
        poses(r.0, r.1),
{
    let f = field_of(&stage);
    let has = existing_value(&existing, f).is_some();
    let state = SetupState { stage, awaiting_keep: has, existing, verbosity };
    let a = pending(&state);
    (state, a)
}

/// The first question of setup, given the config found on disk and the
/// verbosity preference stored there, if any (which setup keeps; a fresh
/// setup saves the default `Verbose`).
pub fn setup_begin(existing: PartialConfig, stored_verbosity: Option<VerbosityLevel>) -> (r: (
    SetupState,
    SetupAction,
))
    ensures
        r.0.stage is Github,
        r.0.existing == existing,
        r.0.verbosity == kept_verbosity(stored_verbosity),
        entered(r.0),
        poses(r.0, r.1),
        !(r.1 is Save),
{
    let verbosity = match stored_verbosity {
        Some(v) => v,
        None => VerbosityLevel::Verbose,
    };
    enter(SetupStage::Github, existing, verbosity)
}

/// Move past the current stage with an accepted username `v`, or with the
/// accepted origin preference `o` on the last stage.
fn advance(state: SetupState, v: String, o: OriginPreference) -> (r: (SetupState, SetupAction))
    ensures
        match state.stage {
            SetupStage::Origin { .. } => saves(state, r.1, o),
            _ => follows_text(state, r.0, r.1, v@),
        },
{
    let existing = state.existing;
    let verbosity = state.verbosity;
    match state.stage {
        SetupStage::Github => enter(SetupStage::Tangled { github: v }, existing, verbosity),
        SetupStage::Tangled { github } => enter(
            SetupStage::Origin { github, tangled: v },
            existing,
            verbosity,
        ),
        SetupStage::Origin { github, tangled } => {
            let config = Config {
                github_username: github,
                tangled_username: tangled,
                origin_preference: o,
                verbosity_preference: verbosity,
            };
            let again = SetupState {
                stage: SetupStage::Github,
                awaiting_keep: false,
                existing,
                verbosity,
            };
            (again, SetupAction::Save(config))
        },
    }
}

/// The step after the user answered the pending question of `state`.
///
/// Cancelling ends setup with nothing written. A kept value, or a typed value
/// that passes validation, moves on to the next field; after the last field
/// the config is saved. A refused value is reported and asked for again. An
/// answer that does not fit the pending question repeats the question.
pub fn setup_next(state: SetupState, event: SetupEvent) -> (r: (SetupState, SetupAction))
    ensures
        event is Cancelled ==> (r.1 matches SetupAction::Cancel { message } && message@
            == cancel_message()),
        (event matches SetupEvent::Keep(true) && keep_current(state) is Some) ==> match state.stage {
            SetupStage::Origin { .. } => saves(state, r.1, state.existing.origin_preference->0),
            _ => follows_text(state, r.0, r.1, keep_current(state)->0),
        },
        (event matches SetupEvent::Keep(false) && keep_current(state) is Some) ==> (r.0.stage
            == state.stage && r.0.existing == state.existing && r.0.verbosity == state.verbosity
            && !r.0.awaiting_keep && asks_value(
            r.1,
            stage_field(state.stage),
            None,
        )),
        event matches SetupEvent::Value(raw) ==> (keep_current(state) is None ==> match state.stage {
            SetupStage::Origin { .. } => match origin_answer(raw@) {
                Ok(o) => saves(state, r.1, o),
                Err(m) => r.0 == state && asks_value(r.1, SetupField::OriginPreference, Some(error_line(m))),
            },
            _ => match text_answer(stage_field(state.stage), raw@) {
                Ok(v) => follows_text(state, r.0, r.1, v),
                Err(m) => r.0 == state && asks_value(r.1, stage_field(state.stage), Some(error_line(m))),
            },
        }),
        (event is Keep && keep_current(state) is None) || (event is Value && keep_current(state) is Some)
            ==> r.0 == state && poses(state, r.1),
        r.1 is Save ==> state.stage is Origin && !(event is Cancelled),
{
    let f = field_of(&state.stage);
    match event {
        SetupEvent::Cancelled => {
            (state, SetupAction::Cancel { message: String::from_str("\nSetup cancelled. No changes were made.") })
        },
        SetupEvent::Keep(keep) => {
            let current = if state.awaiting_keep {
                existing_value(&state.existing, f)
            } else {
                None
            };
            match current {
                None => {
                    let a = pending(&state);
                    (state, a)
                },
                Some(cur) => {
                    if keep {
                        let o = match state.existing.origin_preference {
                            Some(o) => o,
                            None => OriginPreference::Github,
                        };
                        advance(state, cur, o)
                    } else {
                        let next = SetupState {
                            stage: state.stage,
                            awaiting_keep: false,
                            existing: state.existing,
                            verbosity: state.verbosity,
                        };
                        (next, ask_value(f, None))
                    }
                },
            }
        },
        SetupEvent::Value(raw) => {
            let waiting = state.awaiting_keep && existing_value(&state.existing, f).is_some();
            if waiting {
                let a = pending(&state);
                return (state, a);
            }
            match f {
                SetupField::GithubUsername => match validate_github_username(raw.as_str()) {
                    Ok(v) => advance(state, v, OriginPreference::Github),
                    Err(e) => {
                        let m = e.message();
                        let line = error_inline(m.as_str());
                        (state, ask_value(f, Some(line)))
                    },
                },
                SetupField::TangledUsername => match validate_tangled_username(raw.as_str()) {
                    Ok(v) => advance(state, v, OriginPreference::Github),
                    Err(e) => {
                        let m = e.message();
                        let line = error_inline(m.as_str());
                        (state, ask_value(f, Some(line)))
                    },
                },
                SetupField::OriginPreference => match crate::set_command::parse_origin(raw.as_str()) {
                    Ok(o) => advance(state, String::new(), o),
                    Err(e) => {
                        let m = e.message();
                        let line = error_inline(m.as_str());
                        (state, ask_value(f, Some(line)))
                    },
                },
            }
        },
    }
}

} // verus!
