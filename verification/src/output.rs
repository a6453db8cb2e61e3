//! Terminal output helpers: icons and colours.
//!
//! | Category | Icon | Style       |
//! |----------|------|-------------|
//! | Success  | `✓`  | bold green  |
//! | Warning  | `!`  | bold yellow |
//! | Error    | `✗`  | bold red    |
//! | Progress | none | dimmed      |
//! | Tip      | none | `Tip:` bold |
//! | URL      | none | cyan        |
//! | Command  | none | bold        |
//! | Debug    | none | dimmed      |
//!
//! The styling itself is `owo-colors`: each style wraps the text in one ANSI
//! escape sequence and its reset.

use vstd::prelude::*;

use crate::text::{concat2, concat3};

verus! {

/// `ESC [ code m`, the ANSI select-graphic-rendition sequence for `code`.
pub open spec fn sgr(code: Seq<char>) -> Seq<char> {
    seq!['\u{1b}', '['] + code + seq!['m']
}

pub open spec fn bold(s: Seq<char>) -> Seq<char> {
    sgr(seq!['1']) + s + sgr(seq!['0'])
}

pub open spec fn dimmed(s: Seq<char>) -> Seq<char> {
    sgr(seq!['2']) + s + sgr(seq!['0'])
}

/// Foreground colour `code` around `s`, followed by the default-foreground
/// reset.
pub open spec fn fg(code: Seq<char>, s: Seq<char>) -> Seq<char> {
    sgr(code) + s + sgr(seq!['3', '9'])
}

pub open spec fn green(s: Seq<char>) -> Seq<char> {
    fg(seq!['3', '2'], s)
}

pub open spec fn yellow(s: Seq<char>) -> Seq<char> {
    fg(seq!['3', '3'], s)
}

pub open spec fn red(s: Seq<char>) -> Seq<char> {
    fg(seq!['3', '1'], s)
}

pub open spec fn cyan(s: Seq<char>) -> Seq<char> {
    fg(seq!['3', '6'], s)
}

/// Trusted wrapper for `OwoColorize::bold`, rendered with `to_string`:
/// `ESC[1m`, the text, `ESC[0m` (owo-colors' `BoldDisplay`).
#[verifier::external_body]
fn paint_bold(s: &str) -> (r: String)
    ensures
        r@ == bold(s@),
{
    owo_colors::OwoColorize::bold(&s).to_string()
}

/// Trusted wrapper for `OwoColorize::dimmed`: `ESC[2m`, the text, `ESC[0m`.
#[verifier::external_body]
fn paint_dimmed(s: &str) -> (r: String)
    ensures
        r@ == dimmed(s@),
{
    owo_colors::OwoColorize::dimmed(&s).to_string()
}

/// Trusted wrapper for `OwoColorize::green`: `ESC[32m`, the text, `ESC[39m`.
#[verifier::external_body]
fn paint_green(s: &str) -> (r: String)
    ensures
        r@ == green(s@),
{
    owo_colors::OwoColorize::green(&s).to_string()
}

/// Trusted wrapper for `OwoColorize::yellow`: `ESC[33m`, the text, `ESC[39m`.
#[verifier::external_body]
fn paint_yellow(s: &str) -> (r: String)
    ensures
        r@ == yellow(s@),
{
    owo_colors::OwoColorize::yellow(&s).to_string()
}

/// Trusted wrapper for `OwoColorize::red`: `ESC[31m`, the text, `ESC[39m`.
#[verifier::external_body]
fn paint_red(s: &str) -> (r: String)
    ensures
        r@ == red(s@),
{
    owo_colors::OwoColorize::red(&s).to_string()
}

/// Trusted wrapper for `OwoColorize::cyan`: `ESC[36m`, the text, `ESC[39m`.
#[verifier::external_body]
fn paint_cyan(s: &str) -> (r: String)
    ensures
        r@ == cyan(s@),
{
    owo_colors::OwoColorize::cyan(&s).to_string()
}

pub open spec fn check_mark() -> Seq<char> {
    seq!['\u{2713}']
}

pub open spec fn cross_mark() -> Seq<char> {
    seq!['\u{2717}']
}

/// `✓ <msg>` with the check mark in bold green.
pub fn success(msg: &str) -> (r: String)
    ensures
        r@ == green(bold(check_mark())) + seq![' '] + msg@,
{
    proof {
        reveal_strlit("\u{2713}");
        reveal_strlit(" ");
    }
    let b = paint_bold("\u{2713}");
    let icon = paint_green(b.as_str());
    concat3(icon.as_str(), " ", msg)
}

/// `! <msg>` with the exclamation mark in bold yellow.
pub fn warn(msg: &str) -> (r: String)
    ensures
        r@ == yellow(bold(seq!['!'])) + seq![' '] + msg@,
{
    proof {
        reveal_strlit("!");
        reveal_strlit(" ");
    }
    let b = paint_bold("!");
    let icon = paint_yellow(b.as_str());
    concat3(icon.as_str(), " ", msg)
}

/// `✗ <msg>` with the cross in bold red, for an inline validation error.
pub fn error_inline(msg: &str) -> (r: String)
    ensures
        r@ == red(bold(cross_mark())) + seq![' '] + msg@,
{
    proof {
        reveal_strlit("\u{2717}");
        reveal_strlit(" ");
    }
    let b = paint_bold("\u{2717}");
    let icon = paint_red(b.as_str());
    concat3(icon.as_str(), " ", msg)
}

/// Dimmed text, for in-flight progress messages.
pub fn progress(msg: &str) -> (r: String)
    ensures
        r@ == dimmed(msg@),
{
    paint_dimmed(msg)
}

/// `  Tip: <msg>` with `Tip:` in bold.
pub fn tip(msg: &str) -> (r: String)
    ensures
        r@ == seq![' ', ' '] + bold(seq!['T', 'i', 'p', ':']) + seq![' '] + msg@,
{
    proof {
        reveal_strlit("Tip:");
        reveal_strlit("  ");
        reveal_strlit(" ");
    }
    let b = paint_bold("Tip:");
    let head = concat2("  ", b.as_str());
    concat3(head.as_str(), " ", msg)
}

/// Cyan text, for git remote URLs.
pub fn url(s: &str) -> (r: String)
    ensures
        r@ == cyan(s@),
{
    paint_cyan(s)
}

/// `` `name` `` with the name in bold, for command references in sentences.
pub fn cmd(name: &str) -> (r: String)
    ensures
        r@ == seq!['`'] + bold(name@) + seq!['`'],
{
    proof {
        reveal_strlit("`");
    }
    let b = paint_bold(name);
    concat3("`", b.as_str(), "`")
}

/// Dimmed `[debug]` tag.
pub fn debug_tag() -> (r: String)
    ensures
        r@ == dimmed(seq!['[', 'd', 'e', 'b', 'u', 'g', ']']),
{
    proof {
        reveal_strlit("[debug]");
    }
    paint_dimmed("[debug]")
}

/// Bold red `Error:`, the prefix of top-level errors.
pub fn error_prefix() -> (r: String)
    ensures
        r@ == red(bold(seq!['E', 'r', 'r', 'o', 'r', ':'])),
{
    proof {
        reveal_strlit("Error:");
    }
    let b = paint_bold("Error:");
    paint_red(b.as_str())
}

} // verus!
