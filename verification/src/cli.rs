//! The command line: the subcommands and their arguments, as plain values.
//!
//! The front end parses the arguments into these types and hands them to the
//! library; [`crate::set_command`] and [`crate::shove`] hold the decisions
//! that the subcommands make.

use vstd::prelude::*;

verus! {

/// The parsed command line: a subcommand, or none (then the available
/// commands are listed).
#[derive(Debug, Clone)]
pub struct Cli {
    pub command: Option<Commands>,
}

/// The four subcommands.
#[derive(Debug, Clone)]
pub enum Commands {
    /// Interactive configuration of usernames and origin preference.
    Setup,
    /// Non-interactively set one config value (`entangle set`).
    SetValue {
        /// The config key to update.
        key: SetKey,
        /// The value to assign to the key.
        value: String,
    },
    /// Wire up GitHub and Tangled push remotes in the current repository.
    Init {
        /// The repository name on GitHub (and Tangled, unless an alias is given).
        repo: Option<String>,
        /// Optional alternate name for the repository on the non-origin forge.
        alias: Option<String>,
        /// Suppress informational output.
        quiet: bool,
        /// Print internal diagnostics as well.
        debug: bool,
    },
    /// Push all branches and tags to both forges.
    Shove,
}

/// The keys that `entangle set` accepts.
#[derive(Debug, Clone, Copy, PartialEq, Eq, Structural)]
pub enum SetKey {
    /// GitHub username (`gh-user`, alias `github-user`).
    GithubUser,
    /// Tangled (ATProto) handle (`tngl-user`, alias `tangled-user`).
    TangledUser,
    /// Which forge is the primary fetch remote (`origin`).
    Origin,
}

} // verus!
