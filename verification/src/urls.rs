//! SSH remote URLs for GitHub and Tangled.
//!
//! GitHub: `git@github.com:{username}/{repo}.git` (with the conventional
//! `.git` suffix). Tangled: `git@tangled.org:{username}/{repo}` (no suffix;
//! the Tangled SSH server rejects one).
//!
//! [`resolve_urls`] returns `(origin_url, mirror_url)`: the fetch remote on the
//! preferred forge, and the push-only remote on the other forge. An alias, if
//! given, is the repository name on the mirror forge only.

use vstd::prelude::*;

use crate::config::{Config, OriginPreference};
use crate::text::{concat2, concat3};

verus! {

pub open spec fn github_url(username: Seq<char>, repo: Seq<char>) -> Seq<char> {
    "git@github.com:"@ + username + "/"@ + repo + ".git"@
}

pub open spec fn tangled_url(username: Seq<char>, repo: Seq<char>) -> Seq<char> {
    "git@tangled.org:"@ + username + "/"@ + repo
}

/// Build the GitHub SSH remote URL for a username and repository name.
pub fn build_github_url(username: &str, repo: &str) -> (r: String)
    ensures
        r@ == github_url(username@, repo@),
{
    let head = concat3("git@github.com:", username, "/");
    concat3(head.as_str(), repo, ".git")
}

/// Build the Tangled SSH remote URL for a username and repository name.
pub fn build_tangled_url(username: &str, repo: &str) -> (r: String)
    ensures
        r@ == tangled_url(username@, repo@),
{
    let head = concat3("git@tangled.org:", username, "/");
    concat2(head.as_str(), repo)
}

/// The repository name used on the mirror forge.
pub open spec fn mirror_repo(repo: Seq<char>, alias: Option<Seq<char>>) -> Seq<char> {
    match alias {
        Some(a) => a,
        None => repo,
    }
}

/// `(origin_url, mirror_url)` for the given usernames, preference, repository
/// name and optional mirror alias.
pub open spec fn spec_resolve_urls(
    github_username: Seq<char>,
    tangled_username: Seq<char>,
    origin: OriginPreference,
    repo: Seq<char>,
    alias: Option<Seq<char>>,
) -> (Seq<char>, Seq<char>) {
    match origin {
        OriginPreference::Github => (
            github_url(github_username, repo),
            tangled_url(tangled_username, mirror_repo(repo, alias)),
        ),
        OriginPreference::Tangled => (
            tangled_url(tangled_username, repo),
            github_url(github_username, mirror_repo(repo, alias)),
        ),
    }
}

pub open spec fn alias_view(alias: Option<&str>) -> Option<Seq<char>> {
    match alias {
        Some(a) => Some(a@),
        None => None,
    }
}

/// Resolve the origin and mirror URLs from a full config and repository name.
///
/// The origin URL is on the forge named by `config.origin_preference` and
/// always uses `repo`; the mirror URL is on the other forge and uses `alias`
/// when one is given, `repo` otherwise.
pub fn resolve_urls(config: &Config, repo: &str, alias: Option<&str>) -> (r: (String, String))
    ensures
        (r.0@, r.1@) == spec_resolve_urls(
            config.github_username@,
            config.tangled_username@,
            config.origin_preference,
            repo@,
            alias_view(alias),
        ),
{
    let mirror_repo: &str = match alias {
        Some(a) => a,
        None => repo,
    };
    match config.origin_preference {
        OriginPreference::Github => {
            let origin = build_github_url(config.github_username.as_str(), repo);
            let mirror = build_tangled_url(config.tangled_username.as_str(), mirror_repo);
            (origin, mirror)
        },
        OriginPreference::Tangled => {
            let origin = build_tangled_url(config.tangled_username.as_str(), repo);
            let mirror = build_github_url(config.github_username.as_str(), mirror_repo);
            (origin, mirror)
        },
    }
}

/// Passing the repository name itself as the alias is the same as passing no
/// alias: both URLs come out identical.
pub proof fn law_alias_equal_to_repo_is_no_alias(
    github_username: Seq<char>,
    tangled_username: Seq<char>,
    origin: OriginPreference,
    repo: Seq<char>,
)
    ensures
        spec_resolve_urls(github_username, tangled_username, origin, repo, Some(repo))
            == spec_resolve_urls(github_username, tangled_username, origin, repo, None),
{
}

/// The alias never affects the origin URL, which always names `repo`.
pub proof fn law_alias_only_changes_the_mirror(
    github_username: Seq<char>,
    tangled_username: Seq<char>,
    origin: OriginPreference,
    repo: Seq<char>,
    a: Option<Seq<char>>,
    b: Option<Seq<char>>,
)
    ensures
        spec_resolve_urls(github_username, tangled_username, origin, repo, a).0
            == spec_resolve_urls(github_username, tangled_username, origin, repo, b).0,
{
}

} // verus!
