//! `entangle shove`: push every branch, then every tag, to `origin`.
//!
//! Because `origin` carries one push URL per forge, each push reaches both
//! GitHub and Tangled. The front end inspects the repository and runs
//! `git push`; this module decides what happens next after each step and
//! words the messages.

use vstd::prelude::*;

use crate::output::{bold, cmd, success};
use crate::text::{concat2, concat3};

verus! {

// ---------------------------------------------------------------------------
// Decimal numbers
// ---------------------------------------------------------------------------

pub open spec fn digit_char(d: int) -> char {
    if d == 0 {
        '0'
    } else if d == 1 {
        '1'
    } else if d == 2 {
        '2'
    } else if d == 3 {
        '3'
    } else if d == 4 {
        '4'
    } else if d == 5 {
        '5'
    } else if d == 6 {
        '6'
    } else if d == 7 {
        '7'
    } else if d == 8 {
        '8'
    } else {
        '9'
    }
}

/// The decimal digits of `n`, most significant first, without leading zeros
/// (`0` is the single digit `0`).
pub open spec fn digits(n: nat) -> Seq<char>
    decreases n,
{
    if n < 10 {
        seq![digit_char(n as int)]
    } else {
        digits(n / 10) + seq![digit_char((n % 10) as int)]
    }
}

/// `n` written in decimal, with a leading `-` when negative.
pub open spec fn decimal(n: int) -> Seq<char> {
    if n < 0 {
        seq!['-'] + digits((-n) as nat)
    } else {
        digits(n as nat)
    }
}

fn digit_char_exec(d: u64) -> (c: char)
    requires
        d < 10,
    ensures
        c == digit_char(d as int),
{
    if d == 0 {
        '0'
    } else if d == 1 {
        '1'
    } else if d == 2 {
        '2'
    } else if d == 3 {
        '3'
    } else if d == 4 {
        '4'
    } else if d == 5 {
        '5'
    } else if d == 6 {
        '6'
    } else if d == 7 {
        '7'
    } else if d == 8 {
        '8'
    } else {
        '9'
    }
}

fn push_digits(out: &mut Vec<char>, n: u64)
    ensures
        final(out)@ == old(out)@ + digits(n as nat),
    decreases n,
{
    if n >= 10 {
        push_digits(out, n / 10);
    }
    out.push(digit_char_exec(n % 10));
    proof {
        if n >= 10 {
            assert(old(out)@ + digits((n / 10) as nat) + seq![digit_char((n % 10) as int)] =~= old(out)@
                + digits(n as nat));
        } else {
            assert(old(out)@ + seq![digit_char((n % 10) as int)] =~= old(out)@ + digits(n as nat));
        }
    }
}

/// `n` in decimal, as `i32`'s `Display` writes it.
pub fn decimal_i32(n: i32) -> (r: String)
    ensures
        r@ == decimal(n as int),
{
    let mut out: Vec<char> = Vec::new();
    if n < 0 {
        out.push('-');
        let m: i64 = -(n as i64);
        push_digits(&mut out, m as u64);
    } else {
        push_digits(&mut out, n as u64);
    }
    proof {
        assert(out@ =~= decimal(n as int));
    }
    crate::text::chars_to_string(out.as_slice())
}

// ---------------------------------------------------------------------------
// Checks before pushing
// ---------------------------------------------------------------------------

pub open spec fn not_a_repository_message() -> Seq<char> {
    "not a git repository. Navigate to your project directory and run `entangle init` to set one up."@
}

pub open spec fn no_origin_message() -> Seq<char> {
    "no 'origin' remote is configured. Run `entangle init` to set up the GitHub and Tangled push remotes."@
}

pub open spec fn no_commits_message() -> Seq<char> {
    "no commits to push. Make your first commit, then run `entangle shove` again."@
}

/// The push that runs in a step of `entangle shove`.
#[derive(Debug, Clone, Copy, PartialEq, Eq, Structural)]
pub enum PushStage {
    /// `git push origin --all`
    Branches,
    /// `git push origin --tags`
    Tags,
}

/// What the front end does next.
#[derive(Debug, Clone)]
pub enum ShoveAction {
    /// Print `progress`, then run `git` with `args` in the working directory
    /// and report how it ended through [`shove_after_push`].
    Push { stage: PushStage, args: Vec<String>, progress: String },
    /// Stop with this error message.
    Fail(String),
    /// Print this message; the command succeeded.
    Done(String),
}

/// The `git` arguments of each push.
pub open spec fn push_args(stage: PushStage) -> Seq<Seq<char>> {
    match stage {
        PushStage::Branches => seq!["push"@, "origin"@, "--all"@],
        PushStage::Tags => seq!["push"@, "origin"@, "--tags"@],
    }
}

pub open spec fn push_progress(stage: PushStage) -> Seq<char> {
    match stage {
        PushStage::Branches => crate::output::dimmed("Pushing all branches to both forges\u{2026}"@),
        PushStage::Tags => crate::output::dimmed("Pushing tags to both forges\u{2026}"@),
    }
}

/// The views of a vector of strings.
pub open spec fn arg_views(v: Seq<String>) -> Seq<Seq<char>> {
    v.map_values(|s: String| s@)
}

/// `action` asks for the push of `stage`.
pub open spec fn is_push(action: ShoveAction, stage: PushStage) -> bool {
    action matches ShoveAction::Push { stage: s, args, progress } && s == stage && arg_views(args@)
        == push_args(stage) && progress@ == push_progress(stage)
}

fn push_action(stage: PushStage) -> (r: ShoveAction)
    ensures
        is_push(r, stage),
{
    let mut args: Vec<String> = Vec::new();
    args.push(String::from_str("push"));
    args.push(String::from_str("origin"));
    let (flag, text) = match stage {
        PushStage::Branches => ("--all", "Pushing all branches to both forges\u{2026}"),
        PushStage::Tags => ("--tags", "Pushing tags to both forges\u{2026}"),
    };
    args.push(String::from_str(flag));
    let progress = crate::output::progress(text);
    proof {
        assert(arg_views(args@) =~= push_args(stage));
    }
    ShoveAction::Push { stage, args, progress }
}

/// The first step of `entangle shove`, given what the front end found: the
/// working directory is inside a git repository, that repository has an
/// `origin` remote, and it has at least one commit. The checks go in this
/// order and the first that fails ends the command with its message;
/// otherwise the branches are pushed.
pub fn shove_start(in_repository: bool, has_origin: bool, has_commits: bool) -> (r: ShoveAction)
    ensures
        !in_repository ==> (r matches ShoveAction::Fail(m) && m@ == not_a_repository_message()),
        in_repository && !has_origin ==> (r matches ShoveAction::Fail(m) && m@ == no_origin_message()),
        in_repository && has_origin && !has_commits ==> (r matches ShoveAction::Fail(m) && m@
            == no_commits_message()),
        in_repository && has_origin && has_commits ==> is_push(r, PushStage::Branches),
{
    if !in_repository {
        ShoveAction::Fail(
            String::from_str(
                "not a git repository. Navigate to your project directory and run `entangle init` to set one up.",
            ),
        )
    } else if !has_origin {
        ShoveAction::Fail(
            String::from_str(
                "no 'origin' remote is configured. Run `entangle init` to set up the GitHub and Tangled push remotes.",
            ),
        )
    } else if !has_commits {
        ShoveAction::Fail(
            String::from_str(
                "no commits to push. Make your first commit, then run `entangle shove` again.",
            ),
        )
    } else {
        push_action(PushStage::Branches)
    }
}

// ---------------------------------------------------------------------------
// After each push
// ---------------------------------------------------------------------------

/// The error after a failed push: which push failed, its exit code, and the
/// command to re-run.
pub open spec fn push_failed_message(stage: PushStage, code: int) -> Seq<char> {
    (match stage {
        PushStage::Branches => "branch"@,
        PushStage::Tags => "tag"@,
    }) + " push failed (exit "@ + decimal(code)
        + "). Check the output above for details, fix the issue, and re-run "@ + seq!['`'] + bold(
        "entangle shove"@,
    ) + seq!['`'] + "."@
}

pub open spec fn shove_done_message() -> Seq<char> {
    crate::output::green(bold(crate::output::check_mark())) + seq![' ']
        + "All branches and tags pushed to both forges."@
}

/// The step after a push of `stage` ended: `succeeded` is whether `git`
/// exited successfully and `code` its exit code (none when it was stopped by
/// a signal, which counts as 1). A failed push ends the command; pushed
/// branches are followed by the tags; pushed tags end the command with
/// success.
pub fn shove_after_push(stage: PushStage, succeeded: bool, code: Option<i32>) -> (r: ShoveAction)
    ensures
        !succeeded ==> (r matches ShoveAction::Fail(m) && m@ == push_failed_message(
            stage,
            match code {
                Some(c) => c as int,
                None => 1,
            },
        )),
        succeeded && stage == PushStage::Branches ==> is_push(r, PushStage::Tags),
        succeeded && stage == PushStage::Tags ==> (r matches ShoveAction::Done(m) && m@
            == shove_done_message()),
{
    if !succeeded {
        let c: i32 = match code {
            Some(c) => c,
            None => 1,
        };
        let what = match stage {
            PushStage::Branches => "branch",
            PushStage::Tags => "tag",
        };
        let n = decimal_i32(c);
        let head = concat3(what, " push failed (exit ", n.as_str());
        let rerun = cmd("entangle shove");
        let tail = concat3(
            "). Check the output above for details, fix the issue, and re-run ",
            rerun.as_str(),
            ".",
        );
        let m = concat2(head.as_str(), tail.as_str());
        proof {
            assert(m@ =~= push_failed_message(stage, c as int));
        }
        ShoveAction::Fail(m)
    } else {
        match stage {
            PushStage::Branches => push_action(PushStage::Tags),
            PushStage::Tags => ShoveAction::Done(success("All branches and tags pushed to both forges.")),
        }
    }
}

} // verus!
