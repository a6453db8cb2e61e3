//! The text of `.git/config`: recognising section headers, rewriting the
//! `[remote "origin"]` section, and reading its push URLs.
//!
//! Reading and writing the file is the front end's job; everything here maps
//! the file's text to new text or to values. All functions work line by line
//! (`str::lines`) on lines trimmed of whitespace, as git does:
//! section names compare case-insensitively, subsection names (the quoted
//! remote name) case-sensitively, and keys case-insensitively.

use vstd::prelude::*;

use crate::text::{
    chars_to_string, contains_char, eq_ignore_ascii_case, eq_ignore_ascii_case_exec, find_char,
    find_char_exec, is_ws, lead_ws, lead_ws_len, lemma_find_char, lemma_find_char_at,
    lemma_lead_ws, lemma_lead_ws_unique, lemma_lines_cons,
    lemma_lines_no_char, lemma_lines_no_newline, lemma_trail_ws, lemma_trim_is, lemma_trim_strip_cr,
    lemma_trim_take_ws_tail, lemma_trim_ws_prefix, lines, lines_exec, slice_range, str_chars,
    strip_cr, trail_ws, trim, trim_chars, trim_start,
};

verus! {

// ---------------------------------------------------------------------------
// Origin status
// ---------------------------------------------------------------------------

/// The state of the `origin` remote in a repository.
#[derive(Debug, Clone)]
pub enum OriginStatus {
    /// No remote named `origin` is configured.
    Absent,
    /// A remote named `origin` exists.
    Present {
        /// The remote's primary URL (`remote.origin.url`).
        fetch_url: String,
        /// All explicitly configured push URLs (`remote.origin.pushurl`), in
        /// file order; git's implicit fallback to `fetch_url` is not included.
        push_urls: Vec<String>,
    },
}

// ---------------------------------------------------------------------------
// Small sequence helpers
// ---------------------------------------------------------------------------

pub open spec fn nl() -> Seq<char> {
    seq!['\n']
}

pub open spec fn starts_with_char(s: Seq<char>, c: char) -> bool {
    s.len() > 0 && s[0] == c
}

pub open spec fn ends_with_char(s: Seq<char>, c: char) -> bool {
    s.len() > 0 && s.last() == c
}

/// Append all of `src` to `dst`.
fn push_all(dst: &mut Vec<char>, src: &[char])
    ensures
        final(dst)@ == old(dst)@ + src@,
{
    let mut i: usize = 0;
    while i < src.len()
        invariant
            i <= src@.len(),
            dst@ == old(dst)@ + src@.take(i as int),
        decreases src@.len() - i,
    {
        dst.push(src[i]);
        proof {
            assert(src@.take(i + 1) =~= src@.take(i as int).push(src@[i as int]));
        }
        i = i + 1;
    }
    proof {
        assert(src@.take(src@.len() as int) =~= src@);
    }
}

fn chars_eq(a: &[char], b: &[char]) -> (r: bool)
    ensures
        r == (a@ == b@),
{
    if a.len() != b.len() {
        return false;
    }
    let mut i: usize = 0;
    while i < a.len()
        invariant
            a@.len() == b@.len(),
            i <= a@.len(),
            forall|j: int| 0 <= j < i ==> a@[j] == b@[j],
        decreases a@.len() - i,
    {
        if a[i] != b[i] {
            assert(a@[i as int] != b@[i as int]);
            return false;
        }
        i = i + 1;
    }
    assert(a@ =~= b@);
    true
}

// ---------------------------------------------------------------------------
// Section headers
// ---------------------------------------------------------------------------

/// `t` (a trimmed line) is the header `[<section> "<subsection>"]`: the text
/// between the brackets, trimmed, splits at its first `"` into a name equal to
/// `section` ignoring ASCII case and a rest that is exactly `"<subsection>"`
/// (both trimmed).
pub open spec fn spec_section_header_matches(t: Seq<char>, section: Seq<char>, subsection: Seq<char>) -> bool {
    if !(starts_with_char(t, '[') && ends_with_char(t, ']')) {
        false
    } else {
        let inner = trim(t.subrange(1, t.len() - 1));
        match find_char(inner, '"') {
            None => false,
            Some(q) => eq_ignore_ascii_case(trim(inner.take(q)), section) && trim(inner.skip(q))
                == seq!['"'] + subsection + seq!['"'],
        }
    }
}

fn header_matches_chars(t: &[char], section: &[char], subsection: &[char]) -> (r: bool)
    ensures
        r == spec_section_header_matches(t@, section@, subsection@),
{
    if !(t.len() > 0 && t[0] == '[' && t[t.len() - 1] == ']') {
        return false;
    }
    let inner0 = slice_range(t, 1, t.len() - 1);
    let inner = trim_chars(inner0.as_slice());
    match find_char_exec(inner.as_slice(), '"') {
        None => false,
        Some(q) => {
            proof {
                lemma_find_char(inner@, '"');
            }
            let name0 = slice_range(inner.as_slice(), 0, q);
            let name = trim_chars(name0.as_slice());
            let rest0 = slice_range(inner.as_slice(), q, inner.len());
            let rest = trim_chars(rest0.as_slice());
            let mut expected: Vec<char> = Vec::new();
            expected.push('"');
            push_all(&mut expected, subsection);
            expected.push('"');
            proof {
                assert(name0@ =~= inner@.take(q as int));
                assert(rest0@ =~= inner@.skip(q as int));
                assert(expected@ =~= seq!['"'] + subsection@ + seq!['"']);
            }
            eq_ignore_ascii_case_exec(name.as_slice(), section) && chars_eq(
                rest.as_slice(),
                expected.as_slice(),
            )
        },
    }
}

/// Returns `true` if `trimmed` (a line of `.git/config`, already trimmed) is
/// the header for `[<section> "<subsection>"]`. Section names compare
/// case-insensitively; subsection names case-sensitively.
pub fn section_header_matches(trimmed: &str, section: &str, subsection: &str) -> (r: bool)
    ensures
        r == spec_section_header_matches(trimmed@, section@, subsection@),
{
    let t = str_chars(trimmed);
    let s = str_chars(section);
    let u = str_chars(subsection);
    header_matches_chars(t.as_slice(), s.as_slice(), u.as_slice())
}

/// The trimmed line `t` is the `[remote "origin"]` header.
pub open spec fn is_origin_header(t: Seq<char>) -> bool {
    spec_section_header_matches(t, "remote"@, "origin"@)
}

/// The key of a trimmed `key = value` line: the trimmed text before the
/// first `=`.
pub open spec fn line_key(t: Seq<char>) -> Option<Seq<char>> {
    match find_char(t, '=') {
        Some(e) => Some(trim(t.take(e))),
        None => None,
    }
}

/// The value of a trimmed `key = value` line: the trimmed text after the
/// first `=`.
pub open spec fn line_value(t: Seq<char>) -> Seq<char> {
    match find_char(t, '=') {
        Some(e) => trim(t.skip(e + 1)),
        None => seq![],
    }
}

/// The trimmed line `t` assigns the key `key` (compared ignoring ASCII case).
pub open spec fn has_key(t: Seq<char>, key: Seq<char>) -> bool {
    match line_key(t) {
        Some(k) => eq_ignore_ascii_case(k, key),
        None => false,
    }
}

fn has_key_exec(t: &[char], key: &[char]) -> (r: bool)
    ensures
        r == has_key(t@, key@),
{
    match find_char_exec(t, '=') {
        None => false,
        Some(e) => {
            proof {
                lemma_find_char(t@, '=');
            }
            let k0 = slice_range(t, 0, e);
            proof {
                assert(k0@ =~= t@.take(e as int));
            }
            let k = trim_chars(k0.as_slice());
            eq_ignore_ascii_case_exec(k.as_slice(), key)
        },
    }
}

// ---------------------------------------------------------------------------
// Replacing the origin fetch URL
// ---------------------------------------------------------------------------

/// Output of the replacement for the lines `ls`, given whether the previous
/// line left us inside `[remote "origin"]` and whether a `url` was already
/// replaced. Header lines switch the section; the first `url` key inside the
/// origin section is rewritten with the same indentation; every other line is
/// copied. Each line is followed by `'\n'`.
pub open spec fn replace_from(in_section: bool, replaced: bool, ls: Seq<Seq<char>>, new_url: Seq<char>) -> Seq<char>
    decreases ls.len(),
{
    if ls.len() == 0 {
        seq![]
    } else {
        let line = ls[0];
        let t = trim(line);
        if starts_with_char(t, '[') {
            line + nl() + replace_from(is_origin_header(t), replaced, ls.drop_first(), new_url)
        } else if in_section && !replaced && has_key(t, "url"@) {
            line.take(lead_ws(line) as int) + "url = "@ + new_url + nl() + replace_from(
                in_section,
                true,
                ls.drop_first(),
                new_url,
            )
        } else {
            line + nl() + replace_from(in_section, replaced, ls.drop_first(), new_url)
        }
    }
}

pub open spec fn spec_replace_url_in_origin_section(config_text: Seq<char>, new_url: Seq<char>) -> Seq<char> {
    replace_from(false, false, lines(config_text), new_url)
}

/// Replace the `url = ...` line inside the `[remote "origin"]` section of a
/// git config text.
///
/// Only the first `url` key after the first `[remote "origin"]` header is
/// replaced, keeping its indentation; everything else is copied line by line.
/// Without such a section or key the text comes back unchanged apart from
/// line endings (each line ends in `'\n'`).
pub fn replace_url_in_origin_section(config_text: &str, new_url: &str) -> (r: String)
    ensures
        r@ == spec_replace_url_in_origin_section(config_text@, new_url@),
{
    let text = str_chars(config_text);
    let url = str_chars(new_url);
    let ls = lines_exec(text.as_slice());
    let ghost lv = ls@.map_values(|v: Vec<char>| v@);
    let remote = str_chars("remote");
    let origin = str_chars("origin");
    let url_key = str_chars("url");
    let url_prefix = str_chars("url = ");
    let mut out: Vec<char> = Vec::new();
    let mut in_section = false;
    let mut replaced = false;
    let mut i: usize = 0;
    proof {
        assert(lv.skip(0) =~= lv);
    }
    while i < ls.len()
        invariant
            i <= ls@.len(),
            lv == ls@.map_values(|v: Vec<char>| v@),
            remote@ == "remote"@,
            origin@ == "origin"@,
            url_key@ == "url"@,
            url_prefix@ == "url = "@,
            replace_from(false, false, lv, url@) == out@ + replace_from(
                in_section,
                replaced,
                lv.skip(i as int),
                url@,
            ),
        decreases ls@.len() - i,
    {
        let line = &ls[i];
        let t = trim_chars(line.as_slice());
        let ghost before = out@;
        proof {
            assert(lv.skip(i as int)[0] == line@);
            assert(lv.skip(i as int).drop_first() =~= lv.skip(i + 1));
        }
        if t.len() > 0 && t[0] == '[' {
            in_section = header_matches_chars(t.as_slice(), remote.as_slice(), origin.as_slice());
            push_all(&mut out, line.as_slice());
            out.push('\n');
            proof {
                assert(out@ =~= before + line@ + nl());
            }
        } else if in_section && !replaced && has_key_exec(t.as_slice(), url_key.as_slice()) {
            let n = lead_ws_len(line.as_slice());
            proof {
                crate::text::lemma_lead_ws(line@);
            }
            let indent = slice_range(line.as_slice(), 0, n);
            push_all(&mut out, indent.as_slice());
            push_all(&mut out, url_prefix.as_slice());
            push_all(&mut out, url.as_slice());
            out.push('\n');
            replaced = true;
            proof {
                assert(indent@ =~= line@.take(lead_ws(line@) as int));
                assert(out@ =~= before + line@.take(lead_ws(line@) as int) + "url = "@ + url@ + nl());
            }
        } else {
            push_all(&mut out, line.as_slice());
            out.push('\n');
            proof {
                assert(out@ =~= before + line@ + nl());
            }
        }
        i = i + 1;
    }
    proof {
        assert(lv.skip(i as int) =~= Seq::<Seq<char>>::empty());
        assert(out@ + Seq::<char>::empty() =~= out@);
    }
    chars_to_string(out.as_slice())
}

// ---------------------------------------------------------------------------
// Adding push URLs
// ---------------------------------------------------------------------------

/// `\tpushurl = <url>\n` for each URL, in order.
pub open spec fn push_lines(urls: Seq<Seq<char>>) -> Seq<char>
    decreases urls.len(),
{
    if urls.len() == 0 {
        seq![]
    } else {
        "\tpushurl = "@ + urls[0] + nl() + push_lines(urls.drop_first())
    }
}

/// Output of the insertion for the lines `ls`: lines are copied; the push
/// lines go in front of the first header that ends a `[remote "origin"]`
/// section, or at the very end if the text ends inside that section.
pub open spec fn insert_from(in_section: bool, inserted: bool, ls: Seq<Seq<char>>, urls: Seq<Seq<char>>) -> Seq<char>
    decreases ls.len(),
{
    if ls.len() == 0 {
        if in_section && !inserted {
            push_lines(urls)
        } else {
            seq![]
        }
    } else {
        let line = ls[0];
        let t = trim(line);
        if starts_with_char(t, '[') {
            if in_section && !inserted {
                push_lines(urls) + line + nl() + insert_from(
                    is_origin_header(t),
                    true,
                    ls.drop_first(),
                    urls,
                )
            } else {
                line + nl() + insert_from(is_origin_header(t), inserted, ls.drop_first(), urls)
            }
        } else {
            line + nl() + insert_from(in_section, inserted, ls.drop_first(), urls)
        }
    }
}

pub open spec fn spec_insert_push_urls_in_config(config_text: Seq<char>, urls: Seq<Seq<char>>) -> Seq<char> {
    if urls.len() == 0 {
        config_text
    } else {
        insert_from(false, false, lines(config_text), urls)
    }
}

/// The views of a slice of string slices.
pub open spec fn str_views(v: Seq<&str>) -> Seq<Seq<char>> {
    v.map_values(|s: &str| s@)
}

fn push_lines_exec(out: &mut Vec<char>, urls: &[&str])
    ensures
        final(out)@ == old(out)@ + push_lines(str_views(urls@)),
{
    let prefix = str_chars("\tpushurl = ");
    let ghost uv = str_views(urls@);
    let mut i: usize = 0;
    proof {
        assert(uv.skip(0) =~= uv);
    }
    while i < urls.len()
        invariant
            i <= urls@.len(),
            prefix@ == "\tpushurl = "@,
            uv == str_views(urls@),
            old(out)@ + push_lines(uv) == out@ + push_lines(uv.skip(i as int)),
        decreases urls@.len() - i,
    {
        let ghost before = out@;
        let u = str_chars(urls[i]);
        push_all(out, prefix.as_slice());
        push_all(out, u.as_slice());
        out.push('\n');
        proof {
            assert(uv.skip(i as int)[0] == u@);
            assert(uv.skip(i as int).drop_first() =~= uv.skip(i + 1));
            assert(out@ =~= before + "\tpushurl = "@ + u@ + nl());
        }
        i = i + 1;
    }
    proof {
        assert(uv.skip(i as int) =~= Seq::<Seq<char>>::empty());
        assert(out@ + Seq::<char>::empty() =~= out@);
    }
}

/// Insert `pushurl = ...` entries into the `[remote "origin"]` section.
///
/// The entries (tab-indented, in order) go immediately before the header that
/// ends the first origin section, or at the end if that section is last.
/// Without an origin section the text comes back unchanged apart from line
/// endings; with no URLs it comes back exactly unchanged.
pub fn insert_push_urls_in_config(config_text: &str, push_urls: &[&str]) -> (r: String)
    ensures
        r@ == spec_insert_push_urls_in_config(config_text@, str_views(push_urls@)),
{
    if push_urls.len() == 0 {
        return String::from_str(config_text);
    }
    let text = str_chars(config_text);
    let ls = lines_exec(text.as_slice());
    let ghost lv = ls@.map_values(|v: Vec<char>| v@);
    let ghost uv = str_views(push_urls@);
    let remote = str_chars("remote");
    let origin = str_chars("origin");
    let mut out: Vec<char> = Vec::new();
    let mut in_section = false;
    let mut inserted = false;
    let mut i: usize = 0;
    proof {
        assert(lv.skip(0) =~= lv);
    }
    while i < ls.len()
        invariant
            i <= ls@.len(),
            lv == ls@.map_values(|v: Vec<char>| v@),
            uv == str_views(push_urls@),
            remote@ == "remote"@,
            origin@ == "origin"@,
            insert_from(false, false, lv, uv) == out@ + insert_from(
                in_section,
                inserted,
                lv.skip(i as int),
                uv,
            ),
        decreases ls@.len() - i,
    {
        let line = &ls[i];
        let t = trim_chars(line.as_slice());
        let ghost before = out@;
        proof {
            assert(lv.skip(i as int)[0] == line@);
            assert(lv.skip(i as int).drop_first() =~= lv.skip(i + 1));
        }
        if t.len() > 0 && t[0] == '[' {
            let ghost was = in_section && !inserted;
            if in_section && !inserted {
                push_lines_exec(&mut out, push_urls);
                inserted = true;
            }
            proof {
                if was {
                    assert(out@ =~= before + push_lines(uv));
                } else {
                    assert(out@ =~= before);
                }
            }
            let ghost mid = out@;
            in_section = header_matches_chars(t.as_slice(), remote.as_slice(), origin.as_slice());
            push_all(&mut out, line.as_slice());
            out.push('\n');
            proof {
                assert(out@ =~= mid + line@ + nl());
                if was {
                    assert(out@ =~= before + (push_lines(uv) + line@ + nl()));
                } else {
                    assert(out@ =~= before + (line@ + nl()));
                }
            }
        } else {
            push_all(&mut out, line.as_slice());
            out.push('\n');
            proof {
                assert(out@ =~= before + line@ + nl());
            }
        }
        i = i + 1;
    }
    if in_section && !inserted {
        push_lines_exec(&mut out, push_urls);
    }
    proof {
        assert(lv.skip(i as int) =~= Seq::<Seq<char>>::empty());
    }
    chars_to_string(out.as_slice())
}

// ---------------------------------------------------------------------------
// Reading push URLs
// ---------------------------------------------------------------------------

/// The trimmed line `t` is blank or a comment (`#` or `;`).
pub open spec fn is_blank_or_comment(t: Seq<char>) -> bool {
    t.len() == 0 || t[0] == '#' || t[0] == ';'
}

/// Push URLs of remote `name` found in the lines `ls`, given whether the
/// previous line left us inside a `[remote "<name>"]` section. Every section
/// with that header contributes, in file order; keys compare ignoring ASCII
/// case; values are trimmed.
pub open spec fn read_from(in_section: bool, ls: Seq<Seq<char>>, name: Seq<char>) -> Seq<Seq<char>>
    decreases ls.len(),
{
    if ls.len() == 0 {
        seq![]
    } else {
        let t = trim(ls[0]);
        if is_blank_or_comment(t) {
            read_from(in_section, ls.drop_first(), name)
        } else if t[0] == '[' {
            read_from(spec_section_header_matches(t, "remote"@, name), ls.drop_first(), name)
        } else if in_section && has_key(t, "pushurl"@) {
            seq![line_value(t)] + read_from(in_section, ls.drop_first(), name)
        } else {
            read_from(in_section, ls.drop_first(), name)
        }
    }
}

pub open spec fn spec_push_urls(config_text: Seq<char>, remote_name: Seq<char>) -> Seq<Seq<char>> {
    read_from(false, lines(config_text), remote_name)
}

/// The views of a vector of strings.
pub open spec fn string_views(v: Seq<String>) -> Seq<Seq<char>> {
    v.map_values(|s: String| s@)
}

/// Value of a trimmed `key = value` line that has an `=`.
fn line_value_exec(t: &[char]) -> (r: Vec<char>)
    requires
        find_char(t@, '=') is Some,
    ensures
        r@ == line_value(t@),
{
    proof {
        lemma_find_char(t@, '=');
    }
    match find_char_exec(t, '=') {
        Some(e) => {
            proof {
                lemma_find_char(t@, '=');
                assert(find_char(t@, '=') == Some(e as int));
            }
            if e < t.len() {
                let v0 = slice_range(t, e + 1, t.len());
                proof {
                    assert(v0@ =~= t@.skip(e + 1));
                }
                trim_chars(v0.as_slice())
            } else {
                Vec::new()
            }
        },
        None => Vec::new(),
    }
}

/// All `pushurl` values of `[remote "<remote_name>"]` in a git config text,
/// in file order, across every section with that header. Blank and comment
/// lines are skipped; inline comments after values are kept.
pub fn parse_push_urls(config_text: &str, remote_name: &str) -> (r: Vec<String>)
    ensures
        string_views(r@) == spec_push_urls(config_text@, remote_name@),
{
    let text = str_chars(config_text);
    let name = str_chars(remote_name);
    let ls = lines_exec(text.as_slice());
    let ghost lv = ls@.map_values(|v: Vec<char>| v@);
    let remote = str_chars("remote");
    let key = str_chars("pushurl");
    let mut out: Vec<String> = Vec::new();
    let mut in_section = false;
    let mut i: usize = 0;
    proof {
        assert(lv.skip(0) =~= lv);
        assert(string_views(out@) + read_from(false, lv, name@) =~= read_from(false, lv, name@));
    }
    while i < ls.len()
        invariant
            i <= ls@.len(),
            lv == ls@.map_values(|v: Vec<char>| v@),
            name@ == remote_name@,
            remote@ == "remote"@,
            key@ == "pushurl"@,
            read_from(false, lv, name@) == string_views(out@) + read_from(
                in_section,
                lv.skip(i as int),
                name@,
            ),
        decreases ls@.len() - i,
    {
        let line = &ls[i];
        let t = trim_chars(line.as_slice());
        proof {
            assert(lv.skip(i as int)[0] == line@);
            assert(lv.skip(i as int).drop_first() =~= lv.skip(i + 1));
        }
        if t.len() == 0 || t[0] == '#' || t[0] == ';' {
        } else if t[0] == '[' {
            in_section = header_matches_chars(t.as_slice(), remote.as_slice(), name.as_slice());
        } else if in_section && has_key_exec(t.as_slice(), key.as_slice()) {
            let v = line_value_exec(t.as_slice());
            let ghost before = out@;
            out.push(chars_to_string(v.as_slice()));
            proof {
                assert(string_views(out@) =~= string_views(before).push(v@));
                assert(string_views(out@) + read_from(in_section, lv.skip(i + 1), name@)
                    =~= string_views(before) + (seq![v@] + read_from(in_section, lv.skip(i + 1), name@)));
            }
        }
        i = i + 1;
    }
    proof {
        assert(lv.skip(i as int) =~= Seq::<Seq<char>>::empty());
        assert(string_views(out@) + Seq::<Seq<char>>::empty() =~= string_views(out@));
    }
    out
}

// ---------------------------------------------------------------------------
// A new origin section
// ---------------------------------------------------------------------------

/// The text appended to `.git/config` to create the origin remote: a blank
/// line, the `[remote "origin"]` header, the fetch URL, the standard fetch
/// refspec and one `pushurl` line per push URL.
pub open spec fn spec_origin_section(fetch_url: Seq<char>, urls: Seq<Seq<char>>) -> Seq<char> {
    "\n[remote \"origin\"]\n"@ + "\turl = "@ + fetch_url + nl()
        + "\tfetch = +refs/heads/*:refs/remotes/origin/*\n"@ + push_lines(urls)
}

/// The text that creates a `[remote "origin"]` section with the given fetch
/// URL and push URLs, to be appended to `.git/config`.
pub fn origin_section_text(fetch_url: &str, push_urls: &[&str]) -> (r: String)
    ensures
        r@ == spec_origin_section(fetch_url@, str_views(push_urls@)),
{
    let mut out: Vec<char> = Vec::new();
    let header = str_chars("\n[remote \"origin\"]\n");
    let url_prefix = str_chars("\turl = ");
    let fetch = str_chars(fetch_url);
    let refspec = str_chars("\tfetch = +refs/heads/*:refs/remotes/origin/*\n");
    push_all(&mut out, header.as_slice());
    push_all(&mut out, url_prefix.as_slice());
    push_all(&mut out, fetch.as_slice());
    out.push('\n');
    push_all(&mut out, refspec.as_slice());
    push_lines_exec(&mut out, push_urls);
    proof {
        assert(out@ =~= spec_origin_section(fetch_url@, str_views(push_urls@)));
    }
    chars_to_string(out.as_slice())
}

// ---------------------------------------------------------------------------
// Laws: what the rewrites do to the push URLs that git will read
// ---------------------------------------------------------------------------

/// Each piece followed by a line break.
pub open spec fn joined(ps: Seq<Seq<char>>) -> Seq<char>
    decreases ps.len(),
{
    if ps.len() == 0 {
        seq![]
    } else {
        ps[0] + nl() + joined(ps.drop_first())
    }
}

pub open spec fn no_newlines(ps: Seq<Seq<char>>) -> bool {
    forall|k: int| 0 <= k < ps.len() ==> !contains_char(#[trigger] ps[k], '\n')
}

proof fn lemma_lines_joined(ps: Seq<Seq<char>>)
    requires
        no_newlines(ps),
    ensures
        lines(joined(ps)) == ps.map_values(|p: Seq<char>| strip_cr(p)),
    decreases ps.len(),
{
    if ps.len() == 0 {
        assert(lines(joined(ps)) =~= ps.map_values(|p: Seq<char>| strip_cr(p)));
    } else {
        let rest = ps.drop_first();
        assert(no_newlines(rest)) by {
            assert forall|k: int| 0 <= k < rest.len() implies !contains_char(#[trigger] rest[k], '\n') by {
                assert(rest[k] == ps[k + 1]);
            }
        }
        lemma_lines_joined(rest);
        assert(!contains_char(ps[0], '\n'));
        lemma_lines_cons(ps[0], joined(rest));
        assert(ps[0] + nl() + joined(rest) == ps[0] + seq!['\n'] + joined(rest));
        assert(lines(joined(ps)) =~= ps.map_values(|p: Seq<char>| strip_cr(p)));
    }
}

/// Whether the lines `ls` leave the reader inside a `[remote "<name>"]`
/// section.
pub open spec fn read_state(in_section: bool, ls: Seq<Seq<char>>, name: Seq<char>) -> bool
    decreases ls.len(),
{
    if ls.len() == 0 {
        in_section
    } else {
        let t = trim(ls[0]);
        if is_blank_or_comment(t) {
            read_state(in_section, ls.drop_first(), name)
        } else if t[0] == '[' {
            read_state(spec_section_header_matches(t, "remote"@, name), ls.drop_first(), name)
        } else {
            read_state(in_section, ls.drop_first(), name)
        }
    }
}

proof fn lemma_read_append(st: bool, a: Seq<Seq<char>>, b: Seq<Seq<char>>, name: Seq<char>)
    ensures
        read_from(st, a + b, name) == read_from(st, a, name) + read_from(read_state(st, a, name), b, name),
        read_state(st, a + b, name) == read_state(read_state(st, a, name), b, name),
    decreases a.len(),
{
    if a.len() == 0 {
        assert(a + b =~= b);
        assert(read_from(st, a, name) + read_from(st, b, name) =~= read_from(st, b, name));
    } else {
        assert((a + b)[0] == a[0]);
        assert((a + b).drop_first() =~= a.drop_first() + b);
        let t = trim(a[0]);
        let st2 = if is_blank_or_comment(t) {
            st
        } else if t[0] == '[' {
            spec_section_header_matches(t, "remote"@, name)
        } else {
            st
        };
        lemma_read_append(st2, a.drop_first(), b, name);
        if !is_blank_or_comment(t) && t[0] != '[' && st && has_key(t, "pushurl"@) {
            assert(read_from(st, a + b, name) =~= read_from(st, a, name) + read_from(
                read_state(st, a, name),
                b,
                name,
            ));
        }
    }
}

/// Reading only looks at lines through `trim`.
proof fn lemma_read_trim_equiv(st: bool, a: Seq<Seq<char>>, b: Seq<Seq<char>>, name: Seq<char>)
    requires
        a.len() == b.len(),
        forall|k: int| 0 <= k < a.len() ==> trim(#[trigger] a[k]) == trim(b[k]),
    ensures
        read_from(st, a, name) == read_from(st, b, name),
        read_state(st, a, name) == read_state(st, b, name),
    decreases a.len(),
{
    if a.len() > 0 {
        assert(trim(a[0]) == trim(b[0]));
        assert forall|k: int| 0 <= k < a.drop_first().len() implies trim(#[trigger] a.drop_first()[k])
            == trim(b.drop_first()[k]) by {
            assert(a.drop_first()[k] == a[k + 1]);
            assert(b.drop_first()[k] == b[k + 1]);
        }
        let t = trim(a[0]);
        let st2 = if is_blank_or_comment(t) {
            st
        } else if t[0] == '[' {
            spec_section_header_matches(t, "remote"@, name)
        } else {
            st
        };
        lemma_read_trim_equiv(st2, a.drop_first(), b.drop_first(), name);
    }
}

/// Reading the lines of a joined text is reading the pieces.
proof fn lemma_read_joined(st: bool, ps: Seq<Seq<char>>, name: Seq<char>)
    requires
        no_newlines(ps),
    ensures
        read_from(st, lines(joined(ps)), name) == read_from(st, ps, name),
        read_state(st, lines(joined(ps)), name) == read_state(st, ps, name),
{
    lemma_lines_joined(ps);
    let a = lines(joined(ps));
    assert forall|k: int| 0 <= k < a.len() implies trim(#[trigger] a[k]) == trim(ps[k]) by {
        lemma_trim_strip_cr(ps[k]);
    }
    lemma_read_trim_equiv(st, a, ps, name);
}

/// A line that reading passes over without effect: blank, a comment, or a
/// non-header line whose key is not `pushurl`.
pub open spec fn read_neutral(t: Seq<char>) -> bool {
    is_blank_or_comment(t) || (t[0] != '[' && !has_key(t, "pushurl"@))
}

proof fn lemma_read_neutral(st: bool, l: Seq<char>, rest: Seq<Seq<char>>, name: Seq<char>)
    requires
        read_neutral(trim(l)),
    ensures
        read_from(st, seq![l] + rest, name) == read_from(st, rest, name),
        read_state(st, seq![l] + rest, name) == read_state(st, rest, name),
{
    assert((seq![l] + rest)[0] == l);
    assert((seq![l] + rest).drop_first() =~= rest);
}

/// The trimmed form of `w + k + "=" + rest` for leading whitespace `w` and a
/// key text `k` without `=` that starts with a non-whitespace character.
proof fn lemma_key_line(w: Seq<char>, k: Seq<char>, rest: Seq<char>)
    requires
        forall|i: int| 0 <= i < w.len() ==> is_ws(#[trigger] w[i]),
        k.len() > 0,
        !is_ws(k[0]),
        !contains_char(k, '='),
    ensures
        trim(w + k + seq!['='] + rest).len() > 0,
        trim(w + k + seq!['='] + rest)[0] == k[0],
        line_key(trim(w + k + seq!['='] + rest)) == Some(trim(k)),
        line_value(trim(w + k + seq!['='] + rest)) == trim(rest),
{
    let p = w + k + seq!['='] + rest;
    assert forall|j: int| 0 <= j < w.len() implies is_ws(#[trigger] p[j]) by {
        assert(p[j] == w[j]);
    }
    assert(p[w.len() as int] == k[0]);
    lemma_lead_ws_unique(p, w.len() as int);
    let x = trim_start(p);
    assert(x =~= k + seq!['='] + rest);
    lemma_trail_ws(x);
    let m = x.len() - trail_ws(x);
    let kl = k.len() as int;
    assert(x[kl] == '=');
    assert(!is_ws('='));
    assert(m > kl) by {
        if m <= kl {
            assert(is_ws(x[kl]));
        }
    }
    let t = trim(p);
    assert(t =~= x.take(m));
    assert(t[0] == k[0]);
    assert forall|j: int| 0 <= j < kl implies t[j] != '=' by {
        assert(t[j] == k[j]);
        if t[j] == '=' {
            assert(contains_char(k, '='));
        }
    }
    lemma_find_char_at(t, '=', kl);
    assert(t.take(kl) =~= k);
    let r = rest;
    let j = m - kl - 1;
    assert(t.skip(kl + 1) =~= r.take(j));
    assert forall|i: int| j <= i < r.len() implies is_ws(#[trigger] r[i]) by {
        assert(r[i] == x[kl + 1 + i]);
    }
    lemma_trim_take_ws_tail(r, j);
}

/// `trim("url ")`, `trim("pushurl ")` and the like: a word followed by one
/// space trims to the word.
proof fn lemma_trim_word_space(word: Seq<char>)
    requires
        word.len() > 0,
        forall|i: int| 0 <= i < word.len() ==> !is_ws(#[trigger] word[i]),
    ensures
        trim(word + seq![' ']) == word,
{
    let s = word + seq![' '];
    assert forall|j: int| word.len() <= j < s.len() implies is_ws(#[trigger] s[j]) by {
        assert(s[j] == ' ');
    }
    assert(s[0] == word[0]);
    assert(s[word.len() - 1] == word[word.len() - 1]);
    lemma_trim_is(s, 0, word.len() as int);
    assert(s.subrange(0, word.len() as int) =~= word);
}

proof fn lemma_joined_cons(p: Seq<char>, rest: Seq<Seq<char>>)
    ensures
        joined(seq![p] + rest) == p + nl() + joined(rest),
{
    let s = seq![p] + rest;
    assert(s[0] == p);
    assert(s.drop_first() =~= rest);
}

proof fn lemma_joined_append(a: Seq<Seq<char>>, b: Seq<Seq<char>>)
    ensures
        joined(a + b) == joined(a) + joined(b),
    decreases a.len(),
{
    if a.len() == 0 {
        assert(a + b =~= b);
        assert(joined(a) + joined(b) =~= joined(b));
    } else {
        assert((a + b)[0] == a[0]);
        assert((a + b).drop_first() =~= a.drop_first() + b);
        lemma_joined_append(a.drop_first(), b);
        assert(joined(a + b) =~= joined(a) + joined(b));
    }
}

proof fn lemma_no_char_concat(a: Seq<char>, b: Seq<char>, c: char)
    requires
        !contains_char(a, c),
        !contains_char(b, c),
    ensures
        !contains_char(a + b, c),
{
    assert forall|i: int| 0 <= i < (a + b).len() implies (a + b)[i] != c by {
        if i < a.len() {
            assert((a + b)[i] == a[i]);
        } else {
            assert((a + b)[i] == b[i - a.len()]);
        }
    }
}

/// Reading one line and then the rest.
proof fn lemma_read_cons(st: bool, l: Seq<char>, rest: Seq<Seq<char>>, name: Seq<char>)
    ensures
        read_from(st, seq![l] + rest, name) == read_from(st, seq![l], name) + read_from(
            read_state(st, seq![l], name),
            rest,
            name,
        ),
        read_state(st, seq![l] + rest, name) == read_state(read_state(st, seq![l], name), rest, name),
{
    lemma_read_append(st, seq![l], rest, name);
}

/// The lines that the fetch-URL replacement writes, without their line breaks.
pub open spec fn replace_pieces(in_section: bool, replaced: bool, ls: Seq<Seq<char>>, new_url: Seq<char>) -> Seq<Seq<char>>
    decreases ls.len(),
{
    if ls.len() == 0 {
        seq![]
    } else {
        let line = ls[0];
        let t = trim(line);
        if starts_with_char(t, '[') {
            seq![line] + replace_pieces(is_origin_header(t), replaced, ls.drop_first(), new_url)
        } else if in_section && !replaced && has_key(t, "url"@) {
            seq![line.take(lead_ws(line) as int) + "url = "@ + new_url] + replace_pieces(
                in_section,
                true,
                ls.drop_first(),
                new_url,
            )
        } else {
            seq![line] + replace_pieces(in_section, replaced, ls.drop_first(), new_url)
        }
    }
}

proof fn lemma_replace_joined(in_section: bool, replaced: bool, ls: Seq<Seq<char>>, new_url: Seq<char>)
    ensures
        replace_from(in_section, replaced, ls, new_url) == joined(
            replace_pieces(in_section, replaced, ls, new_url),
        ),
    decreases ls.len(),
{
    if ls.len() > 0 {
        let line = ls[0];
        let t = trim(line);
        let rest = ls.drop_first();
        if starts_with_char(t, '[') {
            lemma_replace_joined(is_origin_header(t), replaced, rest, new_url);
            lemma_joined_cons(line, replace_pieces(is_origin_header(t), replaced, rest, new_url));
        } else if in_section && !replaced && has_key(t, "url"@) {
            lemma_replace_joined(in_section, true, rest, new_url);
            let p = line.take(lead_ws(line) as int) + "url = "@ + new_url;
            lemma_joined_cons(p, replace_pieces(in_section, true, rest, new_url));
        } else {
            lemma_replace_joined(in_section, replaced, rest, new_url);
            lemma_joined_cons(line, replace_pieces(in_section, replaced, rest, new_url));
        }
    }
}

/// A line `<indent>url = <value>` is passed over when reading push URLs.
proof fn lemma_url_line_neutral(w: Seq<char>, value: Seq<char>)
    requires
        forall|i: int| 0 <= i < w.len() ==> is_ws(#[trigger] w[i]),
    ensures
        read_neutral(trim(w + "url = "@ + value)),
{
    reveal_strlit("url = ");
    reveal_strlit("pushurl");
    let k = seq!['u', 'r', 'l', ' '];
    let rest = seq![' '] + value;
    assert(w + "url = "@ + value =~= w + k + seq!['='] + rest);
    assert(!contains_char(k, '=')) by {
        assert forall|i: int| 0 <= i < k.len() implies k[i] != '=' by {}
    }
    lemma_key_line(w, k, rest);
    lemma_trim_word_space(seq!['u', 'r', 'l']);
    assert(seq!['u', 'r', 'l'] + seq![' '] =~= k);
}

/// A line whose trimmed form assigns `url` is passed over when reading push URLs.
proof fn lemma_url_key_neutral(t: Seq<char>)
    requires
        has_key(t, "url"@),
        !starts_with_char(t, '['),
    ensures
        read_neutral(t),
{
    reveal_strlit("url");
    reveal_strlit("pushurl");
    lemma_find_char(t, '=');
}

proof fn lemma_replace_read(
    in_section: bool,
    replaced: bool,
    st: bool,
    ls: Seq<Seq<char>>,
    new_url: Seq<char>,
    name: Seq<char>,
)
    ensures
        read_from(st, replace_pieces(in_section, replaced, ls, new_url), name) == read_from(st, ls, name),
        read_state(st, replace_pieces(in_section, replaced, ls, new_url), name) == read_state(st, ls, name),
    decreases ls.len(),
{
    if ls.len() > 0 {
        let line = ls[0];
        let t = trim(line);
        let rest = ls.drop_first();
        assert(ls =~= seq![line] + rest);
        lemma_read_cons(st, line, rest, name);
        let st1 = read_state(st, seq![line], name);
        if starts_with_char(t, '[') {
            let p = replace_pieces(is_origin_header(t), replaced, rest, new_url);
            lemma_read_cons(st, line, p, name);
            lemma_replace_read(is_origin_header(t), replaced, st1, rest, new_url, name);
        } else if in_section && !replaced && has_key(t, "url"@) {
            let w = line.take(lead_ws(line) as int);
            let q = w + "url = "@ + new_url;
            let p = replace_pieces(in_section, true, rest, new_url);
            lemma_lead_ws(line);
            assert forall|i: int| 0 <= i < w.len() implies is_ws(#[trigger] w[i]) by {
                assert(w[i] == line[i]);
            }
            lemma_url_line_neutral(w, new_url);
            lemma_url_key_neutral(t);
            lemma_read_neutral(st, q, p, name);
            lemma_read_neutral(st, line, rest, name);
            lemma_replace_read(in_section, true, st, rest, new_url, name);
        } else {
            let p = replace_pieces(in_section, replaced, rest, new_url);
            lemma_read_cons(st, line, p, name);
            lemma_replace_read(in_section, replaced, st1, rest, new_url, name);
        }
    }
}

/// The replacement adds no line break and no carriage return of its own.
proof fn lemma_replace_no_char(
    in_section: bool,
    replaced: bool,
    ls: Seq<Seq<char>>,
    new_url: Seq<char>,
    c: char,
)
    requires
        c == '\n' || c == '\r',
        forall|k: int| 0 <= k < ls.len() ==> !contains_char(#[trigger] ls[k], c),
        !contains_char(new_url, c),
    ensures
        forall|k: int| 0 <= k < replace_pieces(in_section, replaced, ls, new_url).len()
            ==> !contains_char(#[trigger] replace_pieces(in_section, replaced, ls, new_url)[k], c),
    decreases ls.len(),
{
    if ls.len() > 0 {
        let line = ls[0];
        let t = trim(line);
        let rest = ls.drop_first();
        assert(forall|k: int| 0 <= k < rest.len() ==> !contains_char(#[trigger] rest[k], c)) by {
            assert forall|k: int| 0 <= k < rest.len() implies !contains_char(#[trigger] rest[k], c) by {
                assert(rest[k] == ls[k + 1]);
            }
        }
        assert(!contains_char(ls[0], c));
        let (head, p) = if starts_with_char(t, '[') {
            lemma_replace_no_char(is_origin_header(t), replaced, rest, new_url, c);
            (line, replace_pieces(is_origin_header(t), replaced, rest, new_url))
        } else if in_section && !replaced && has_key(t, "url"@) {
            lemma_replace_no_char(in_section, true, rest, new_url, c);
            let w = line.take(lead_ws(line) as int);
            lemma_lead_ws(line);
            assert(!contains_char(w, c)) by {
                assert forall|i: int| 0 <= i < w.len() implies w[i] != c by {
                    assert(w[i] == line[i]);
                }
            }
            reveal_strlit("url = ");
            assert(!contains_char("url = "@, c));
            lemma_no_char_concat(w, "url = "@, c);
            lemma_no_char_concat(w + "url = "@, new_url, c);
            (w + "url = "@ + new_url, replace_pieces(in_section, true, rest, new_url))
        } else {
            lemma_replace_no_char(in_section, replaced, rest, new_url, c);
            (line, replace_pieces(in_section, replaced, rest, new_url))
        };
        let all = seq![head] + p;
        assert forall|k: int| 0 <= k < all.len() implies !contains_char(#[trigger] all[k], c) by {
            if k > 0 {
                assert(all[k] == p[k - 1]);
            }
        }
    }
}

/// Replacing the fetch URL of `origin` changes no remote's push URLs: git
/// reads the same `pushurl` values, in the same order, before and after.
pub proof fn law_replace_url_keeps_push_urls(config_text: Seq<char>, new_url: Seq<char>, remote_name: Seq<char>)
    requires
        !contains_char(new_url, '\n'),
    ensures
        spec_push_urls(spec_replace_url_in_origin_section(config_text, new_url), remote_name)
            == spec_push_urls(config_text, remote_name),
{
    let ls = lines(config_text);
    let ps = replace_pieces(false, false, ls, new_url);
    lemma_replace_joined(false, false, ls, new_url);
    lemma_lines_no_newline(config_text);
    lemma_replace_no_char(false, false, ls, new_url, '\n');
    lemma_read_joined(false, ps, remote_name);
    lemma_replace_read(false, false, false, ls, new_url, remote_name);
}

/// Pieces without line breaks or carriage returns are split back into
/// themselves once joined.
proof fn lemma_lines_joined_plain(ps: Seq<Seq<char>>)
    requires
        no_newlines(ps),
        forall|k: int| 0 <= k < ps.len() ==> !contains_char(#[trigger] ps[k], '\r'),
    ensures
        lines(joined(ps)) == ps,
{
    lemma_lines_joined(ps);
    assert forall|k: int| 0 <= k < ps.len() implies strip_cr(#[trigger] ps[k]) == ps[k] by {
        if ps[k].len() > 0 && ps[k].last() == '\r' {
            assert(ps[k][ps[k].len() - 1] == '\r');
            assert(contains_char(ps[k], '\r'));
        }
    }
    assert(ps.map_values(|p: Seq<char>| strip_cr(p)) =~= ps);
}

/// A rewritten line `<indent>url = <value>` is seen again as a `url` line
/// with the same indentation.
proof fn lemma_url_line_again(w: Seq<char>, value: Seq<char>)
    requires
        forall|i: int| 0 <= i < w.len() ==> is_ws(#[trigger] w[i]),
    ensures
        !starts_with_char(trim(w + "url = "@ + value), '['),
        has_key(trim(w + "url = "@ + value), "url"@),
        lead_ws(w + "url = "@ + value) == w.len(),
{
    reveal_strlit("url = ");
    reveal_strlit("url");
    let q = w + "url = "@ + value;
    let k = seq!['u', 'r', 'l', ' '];
    let rest = seq![' '] + value;
    assert(q =~= w + k + seq!['='] + rest);
    assert(!contains_char(k, '=')) by {
        assert forall|i: int| 0 <= i < k.len() implies k[i] != '=' by {}
    }
    lemma_key_line(w, k, rest);
    lemma_trim_word_space(seq!['u', 'r', 'l']);
    assert(seq!['u', 'r', 'l'] + seq![' '] =~= k);
    assert(eq_ignore_ascii_case("url"@, "url"@));
    assert forall|j: int| 0 <= j < w.len() implies is_ws(#[trigger] q[j]) by {
        assert(q[j] == w[j]);
    }
    assert(q[w.len() as int] == 'u');
    lemma_lead_ws_unique(q, w.len() as int);
}

/// Rewriting the pieces that a rewrite produced, from the same state, gives
/// them back.
proof fn lemma_replace_twice(in_section: bool, replaced: bool, ls: Seq<Seq<char>>, new_url: Seq<char>)
    ensures
        replace_pieces(in_section, replaced, replace_pieces(in_section, replaced, ls, new_url), new_url)
            == replace_pieces(in_section, replaced, ls, new_url),
    decreases ls.len(),
{
    if ls.len() > 0 {
        let line = ls[0];
        let t = trim(line);
        let rest = ls.drop_first();
        if starts_with_char(t, '[') {
            let p = replace_pieces(is_origin_header(t), replaced, rest, new_url);
            lemma_replace_twice(is_origin_header(t), replaced, rest, new_url);
            let ps = seq![line] + p;
            assert(ps[0] == line);
            assert(ps.drop_first() =~= p);
        } else if in_section && !replaced && has_key(t, "url"@) {
            let w = line.take(lead_ws(line) as int);
            let q = w + "url = "@ + new_url;
            lemma_lead_ws(line);
            assert forall|i: int| 0 <= i < w.len() implies is_ws(#[trigger] w[i]) by {
                assert(w[i] == line[i]);
            }
            lemma_url_line_again(w, new_url);
            assert(q.take(lead_ws(q) as int) =~= w);
            let p = replace_pieces(in_section, true, rest, new_url);
            lemma_replace_twice(in_section, true, rest, new_url);
            let ps = seq![q] + p;
            assert(ps[0] == q);
            assert(ps.drop_first() =~= p);
        } else {
            let p = replace_pieces(in_section, replaced, rest, new_url);
            lemma_replace_twice(in_section, replaced, rest, new_url);
            let ps = seq![line] + p;
            assert(ps[0] == line);
            assert(ps.drop_first() =~= p);
        }
    }
}

/// Replacing the fetch URL of `origin` is idempotent: replacing it again with
/// the same URL leaves the text unchanged. This holds for texts without
/// carriage returns and URLs without line breaks or carriage returns.
pub proof fn law_replace_url_is_idempotent(config_text: Seq<char>, new_url: Seq<char>)
    requires
        !contains_char(config_text, '\r'),
        !contains_char(new_url, '\n'),
        !contains_char(new_url, '\r'),
    ensures
        spec_replace_url_in_origin_section(
            spec_replace_url_in_origin_section(config_text, new_url),
            new_url,
        ) == spec_replace_url_in_origin_section(config_text, new_url),
{
    let ls = lines(config_text);
    let ps = replace_pieces(false, false, ls, new_url);
    lemma_replace_joined(false, false, ls, new_url);
    lemma_lines_no_newline(config_text);
    lemma_replace_no_char(false, false, ls, new_url, '\n');
    lemma_lines_no_char(config_text, '\r');
    lemma_replace_no_char(false, false, ls, new_url, '\r');
    lemma_lines_joined_plain(ps);
    lemma_replace_joined(false, false, ps, new_url);
    lemma_replace_twice(false, false, ls, new_url);
}

/// Reading a single line.
proof fn lemma_read_single(st: bool, l: Seq<char>, name: Seq<char>)
    ensures
        read_state(st, seq![l], name) == (if !is_blank_or_comment(trim(l)) && trim(l)[0] == '[' {
            spec_section_header_matches(trim(l), "remote"@, name)
        } else {
            st
        }),
        read_from(st, seq![l], name) == (if !is_blank_or_comment(trim(l)) && trim(l)[0] != '[' && st
            && has_key(trim(l), "pushurl"@) {
            seq![line_value(trim(l))]
        } else {
            seq![]
        }),
{
    let s = seq![l];
    let e = Seq::<Seq<char>>::empty();
    assert(s[0] == l);
    assert(s.drop_first() =~= e);
    assert(read_from(true, e, name) == Seq::<Seq<char>>::empty());
    assert(read_from(false, e, name) == Seq::<Seq<char>>::empty());
    assert(read_state(true, e, name));
    assert(!read_state(false, e, name));
    if !is_blank_or_comment(trim(l)) && trim(l)[0] != '[' && st && has_key(trim(l), "pushurl"@) {
        assert(seq![line_value(trim(l))] + e =~= seq![line_value(trim(l))]);
    }
}

/// Each URL is its own trimmed form and holds no line break.
pub open spec fn clean_urls(urls: Seq<Seq<char>>) -> bool {
    forall|i: int| 0 <= i < urls.len() ==> trim(#[trigger] urls[i]) == urls[i] && !contains_char(urls[i], '\n')
}

/// The `\tpushurl = <url>` lines for the URLs, in order, without line breaks.
pub open spec fn push_pieces(urls: Seq<Seq<char>>) -> Seq<Seq<char>> {
    urls.map_values(|u: Seq<char>| "\tpushurl = "@ + u)
}

proof fn lemma_push_lines_joined(urls: Seq<Seq<char>>)
    ensures
        push_lines(urls) == joined(push_pieces(urls)),
    decreases urls.len(),
{
    if urls.len() > 0 {
        let rest = urls.drop_first();
        lemma_push_lines_joined(rest);
        assert(push_pieces(urls) =~= seq!["\tpushurl = "@ + urls[0]] + push_pieces(rest));
        lemma_joined_cons("\tpushurl = "@ + urls[0], push_pieces(rest));
    } else {
        assert(push_pieces(urls) =~= Seq::<Seq<char>>::empty());
    }
}

/// A `\tpushurl = <u>` line is read as `u` inside the section and passed over
/// outside it.
proof fn lemma_push_line_read(st: bool, u: Seq<char>, name: Seq<char>)
    requires
        trim(u) == u,
    ensures
        read_from(st, seq!["\tpushurl = "@ + u], name) == (if st {
            seq![u]
        } else {
            seq![]
        }),
        read_state(st, seq!["\tpushurl = "@ + u], name) == st,
{
    reveal_strlit("\tpushurl = ");
    reveal_strlit("pushurl");
    let l = "\tpushurl = "@ + u;
    let w = seq!['\t'];
    let word = seq!['p', 'u', 's', 'h', 'u', 'r', 'l'];
    let k = word + seq![' '];
    let rest = seq![' '] + u;
    assert(l =~= w + k + seq!['='] + rest);
    assert(!contains_char(k, '=')) by {
        assert forall|i: int| 0 <= i < k.len() implies k[i] != '=' by {}
    }
    assert(forall|i: int| 0 <= i < w.len() ==> is_ws(#[trigger] w[i]));
    lemma_key_line(w, k, rest);
    lemma_trim_word_space(word);
    lemma_trim_ws_prefix(' ', u);
    assert(word =~= "pushurl"@);
    lemma_read_single(st, l, name);
}

proof fn lemma_push_pieces_read(urls: Seq<Seq<char>>, name: Seq<char>)
    requires
        clean_urls(urls),
    ensures
        read_from(true, push_pieces(urls), name) == urls,
        read_state(true, push_pieces(urls), name),
    decreases urls.len(),
{
    if urls.len() > 0 {
        let rest = urls.drop_first();
        let first = "\tpushurl = "@ + urls[0];
        assert(push_pieces(urls) =~= seq![first] + push_pieces(rest));
        lemma_read_cons(true, first, push_pieces(rest), name);
        assert(trim(urls[0]) == urls[0]);
        lemma_push_line_read(true, urls[0], name);
        assert(clean_urls(rest)) by {
            assert forall|i: int| 0 <= i < rest.len() implies trim(#[trigger] rest[i]) == rest[i]
                && !contains_char(rest[i], '\n') by {
                assert(rest[i] == urls[i + 1]);
            }
        }
        lemma_push_pieces_read(rest, name);
        assert(urls =~= seq![urls[0]] + rest);
    } else {
        assert(push_pieces(urls) =~= Seq::<Seq<char>>::empty());
        assert(urls =~= Seq::<Seq<char>>::empty());
    }
}

/// The lines that the push-URL insertion writes, without their line breaks.
pub open spec fn insert_pieces(in_section: bool, inserted: bool, ls: Seq<Seq<char>>, urls: Seq<Seq<char>>) -> Seq<Seq<char>>
    decreases ls.len(),
{
    if ls.len() == 0 {
        if in_section && !inserted {
            push_pieces(urls)
        } else {
            seq![]
        }
    } else {
        let line = ls[0];
        let t = trim(line);
        if starts_with_char(t, '[') {
            if in_section && !inserted {
                push_pieces(urls) + (seq![line] + insert_pieces(
                    is_origin_header(t),
                    true,
                    ls.drop_first(),
                    urls,
                ))
            } else {
                seq![line] + insert_pieces(is_origin_header(t), inserted, ls.drop_first(), urls)
            }
        } else {
            seq![line] + insert_pieces(in_section, inserted, ls.drop_first(), urls)
        }
    }
}

proof fn lemma_insert_joined(in_section: bool, inserted: bool, ls: Seq<Seq<char>>, urls: Seq<Seq<char>>)
    ensures
        insert_from(in_section, inserted, ls, urls) == joined(
            insert_pieces(in_section, inserted, ls, urls),
        ),
    decreases ls.len(),
{
    lemma_push_lines_joined(urls);
    if ls.len() == 0 {
        if !(in_section && !inserted) {
            assert(joined(Seq::<Seq<char>>::empty()) =~= Seq::<char>::empty());
        }
    } else {
        let line = ls[0];
        let t = trim(line);
        let rest = ls.drop_first();
        if starts_with_char(t, '[') {
            if in_section && !inserted {
                let p = insert_pieces(is_origin_header(t), true, rest, urls);
                lemma_insert_joined(is_origin_header(t), true, rest, urls);
                lemma_joined_cons(line, p);
                lemma_joined_append(push_pieces(urls), seq![line] + p);
                assert(push_lines(urls) + line + nl() + joined(p) =~= push_lines(urls) + (line + nl()
                    + joined(p)));
            } else {
                lemma_insert_joined(is_origin_header(t), inserted, rest, urls);
                lemma_joined_cons(line, insert_pieces(is_origin_header(t), inserted, rest, urls));
            }
        } else {
            lemma_insert_joined(in_section, inserted, rest, urls);
            lemma_joined_cons(line, insert_pieces(in_section, inserted, rest, urls));
        }
    }
}

/// Once the URLs are in, the rest of the lines are copied as they are.
proof fn lemma_insert_done(in_section: bool, ls: Seq<Seq<char>>, urls: Seq<Seq<char>>)
    ensures
        insert_pieces(in_section, true, ls, urls) == ls,
    decreases ls.len(),
{
    if ls.len() == 0 {
        assert(insert_pieces(in_section, true, ls, urls) =~= ls);
    } else {
        let t = trim(ls[0]);
        let s2 = if starts_with_char(t, '[') {
            is_origin_header(t)
        } else {
            in_section
        };
        lemma_insert_done(s2, ls.drop_first(), urls);
        assert(ls =~= seq![ls[0]] + ls.drop_first());
    }
}

/// Some line of `ls`, once trimmed, is the `[remote "origin"]` header.
pub open spec fn has_origin_header(ls: Seq<Seq<char>>) -> bool {
    exists|i: int| 0 <= i < ls.len() && is_origin_header(trim(#[trigger] ls[i]))
}

proof fn lemma_has_origin_header_cons(ls: Seq<Seq<char>>)
    requires
        ls.len() > 0,
    ensures
        has_origin_header(ls) == (is_origin_header(trim(ls[0])) || has_origin_header(ls.drop_first())),
{
    let rest = ls.drop_first();
    if has_origin_header(ls) {
        let i = choose|i: int| 0 <= i < ls.len() && is_origin_header(trim(#[trigger] ls[i]));
        if i > 0 {
            assert(rest[i - 1] == ls[i]);
            assert(is_origin_header(trim(rest[i - 1])));
        }
    }
    if is_origin_header(trim(ls[0])) {
        assert(is_origin_header(trim(ls[0])));
    }
    if has_origin_header(rest) {
        let j = choose|j: int| 0 <= j < rest.len() && is_origin_header(trim(#[trigger] rest[j]));
        assert(rest[j] == ls[j + 1]);
        assert(is_origin_header(trim(ls[j + 1])));
    }
}

/// What reading `origin`'s push URLs gives after the insertion, by induction
/// over the lines; the reader's section state and the insertion's coincide.
proof fn lemma_insert_read(st: bool, ls: Seq<Seq<char>>, urls: Seq<Seq<char>>) -> (k: int)
    requires
        clean_urls(urls),
    ensures
        (st || has_origin_header(ls)) ==> 0 <= k <= read_from(st, ls, "origin"@).len() && read_from(
            st,
            insert_pieces(st, false, ls, urls),
            "origin"@,
        ) == read_from(st, ls, "origin"@).take(k) + urls + read_from(st, ls, "origin"@).skip(k),
        !(st || has_origin_header(ls)) ==> read_from(st, insert_pieces(st, false, ls, urls), "origin"@)
            == read_from(st, ls, "origin"@),
    decreases ls.len(),
{
    let name = "origin"@;
    if ls.len() == 0 {
        if st {
            lemma_push_pieces_read(urls, name);
            assert(read_from(st, ls, name).take(0) + urls + read_from(st, ls, name).skip(0) =~= urls);
        }
        assert(!has_origin_header(ls));
        0
    } else {
        let line = ls[0];
        let t = trim(line);
        let rest = ls.drop_first();
        assert(ls =~= seq![line] + rest);
        lemma_read_cons(st, line, rest, name);
        lemma_read_single(st, line, name);
        lemma_has_origin_header_cons(ls);
        let st1 = read_state(st, seq![line], name);
        let r1 = read_from(st1, rest, name);
        if starts_with_char(t, '[') {
            if st {
                lemma_insert_done(is_origin_header(t), rest, urls);
                lemma_read_append(true, push_pieces(urls), ls, name);
                lemma_push_pieces_read(urls, name);
                let r = read_from(st, ls, name);
                assert(r.take(0) + urls + r.skip(0) =~= urls + r);
                0
            } else {
                let p = insert_pieces(st1, false, rest, urls);
                lemma_read_cons(st, line, p, name);
                let k1 = lemma_insert_read(st1, rest, urls);
                assert(read_from(st, ls, name) =~= r1);
                k1
            }
        } else {
            assert(!is_origin_header(t));
            let p = insert_pieces(st, false, rest, urls);
            lemma_read_cons(st, line, p, name);
            let k1 = lemma_insert_read(st, rest, urls);
            let c = read_from(st, seq![line], name);
            let k = c.len() + k1;
            if st || has_origin_header(rest) {
                assert(c + (r1.take(k1) + urls + r1.skip(k1)) =~= (c + r1).take(k) + urls + (c
                    + r1).skip(k));
            }
            k
        }
    }
}

proof fn lemma_push_pieces_no_newlines(urls: Seq<Seq<char>>)
    requires
        clean_urls(urls),
    ensures
        no_newlines(push_pieces(urls)),
{
    reveal_strlit("\tpushurl = ");
    assert(!contains_char("\tpushurl = "@, '\n'));
    assert forall|k: int| 0 <= k < push_pieces(urls).len() implies !contains_char(
        #[trigger] push_pieces(urls)[k],
        '\n',
    ) by {
        assert(!contains_char(urls[k], '\n'));
        lemma_no_char_concat("\tpushurl = "@, urls[k], '\n');
    }
}

proof fn lemma_no_newlines_append(a: Seq<Seq<char>>, b: Seq<Seq<char>>)
    requires
        no_newlines(a),
        no_newlines(b),
    ensures
        no_newlines(a + b),
{
    assert forall|k: int| 0 <= k < (a + b).len() implies !contains_char(#[trigger] (a + b)[k], '\n') by {
        if k < a.len() {
            assert((a + b)[k] == a[k]);
        } else {
            assert((a + b)[k] == b[k - a.len()]);
        }
    }
}

proof fn lemma_insert_no_newlines(in_section: bool, inserted: bool, ls: Seq<Seq<char>>, urls: Seq<Seq<char>>)
    requires
        no_newlines(ls),
        clean_urls(urls),
    ensures
        no_newlines(insert_pieces(in_section, inserted, ls, urls)),
    decreases ls.len(),
{
    lemma_push_pieces_no_newlines(urls);
    if ls.len() == 0 {
        assert(no_newlines(Seq::<Seq<char>>::empty()));
    } else {
        let line = ls[0];
        let t = trim(line);
        let rest = ls.drop_first();
        assert(no_newlines(rest)) by {
            assert forall|k: int| 0 <= k < rest.len() implies !contains_char(#[trigger] rest[k], '\n') by {
                assert(rest[k] == ls[k + 1]);
            }
        }
        assert(no_newlines(seq![line])) by {
            assert(!contains_char(ls[0], '\n'));
            assert forall|k: int| 0 <= k < seq![line].len() implies !contains_char(
                #[trigger] seq![line][k],
                '\n',
            ) by {
                assert(seq![line][k] == line);
            }
        }
        let (s2, i2) = if starts_with_char(t, '[') {
            if in_section && !inserted {
                (is_origin_header(t), true)
            } else {
                (is_origin_header(t), inserted)
            }
        } else {
            (in_section, inserted)
        };
        lemma_insert_no_newlines(s2, i2, rest, urls);
        let p = insert_pieces(s2, i2, rest, urls);
        lemma_no_newlines_append(seq![line], p);
        if starts_with_char(t, '[') && in_section && !inserted {
            lemma_no_newlines_append(push_pieces(urls), seq![line] + p);
        }
    }
}

/// Adding push URLs to a text with a `[remote "origin"]` section makes git
/// read them for `origin`, in order and as one block among the push URLs it
/// read before, none of which is lost or moved. Without such a section, what
/// git reads for `origin` does not change.
pub proof fn law_insert_push_urls_adds_them(config_text: Seq<char>, urls: Seq<Seq<char>>)
    requires
        clean_urls(urls),
    ensures
        has_origin_header(lines(config_text)) ==> exists|k: int|
            0 <= k <= spec_push_urls(config_text, "origin"@).len() && spec_push_urls(
                spec_insert_push_urls_in_config(config_text, urls),
                "origin"@,
            ) == #[trigger] spec_push_urls(config_text, "origin"@).take(k) + urls + spec_push_urls(
                config_text,
                "origin"@,
            ).skip(k),
        !has_origin_header(lines(config_text)) ==> spec_push_urls(
            spec_insert_push_urls_in_config(config_text, urls),
            "origin"@,
        ) == spec_push_urls(config_text, "origin"@),
{
    let r = spec_push_urls(config_text, "origin"@);
    if urls.len() == 0 {
        assert(r.take(0) + urls + r.skip(0) =~= r);
    } else {
        let ls = lines(config_text);
        let ps = insert_pieces(false, false, ls, urls);
        lemma_insert_joined(false, false, ls, urls);
        lemma_lines_no_newline(config_text);
        lemma_insert_no_newlines(false, false, ls, urls);
        lemma_read_joined(false, ps, "origin"@);
        let k = lemma_insert_read(false, ls, urls);
        if has_origin_header(ls) {
            assert(spec_push_urls(spec_insert_push_urls_in_config(config_text, urls), "origin"@)
                == r.take(k) + urls + r.skip(k));
        }
    }
}

/// Reading the lines of `t`, a line break and `j` is reading the lines of `t`
/// and then those of `j`.
proof fn lemma_read_lines_concat(st: bool, t: Seq<char>, j: Seq<char>, name: Seq<char>)
    ensures
        read_from(st, lines(t + nl() + j), name) == read_from(st, lines(t), name) + read_from(
            read_state(st, lines(t), name),
            lines(j),
            name,
        ),
        read_state(st, lines(t + nl() + j), name) == read_state(
            read_state(st, lines(t), name),
            lines(j),
            name,
        ),
    decreases t.len(),
{
    let s = t + nl() + j;
    let e = Seq::<Seq<char>>::empty();
    if t.len() == 0 {
        let p = Seq::<char>::empty();
        assert(s =~= p + seq!['\n'] + j);
        assert(!contains_char(p, '\n'));
        lemma_lines_cons(p, j);
        assert(strip_cr(p) =~= p);
        lemma_read_cons(st, p, lines(j), name);
        lemma_read_single(st, p, name);
        assert(lines(t) == e);
        assert(read_from(st, e, name) == e);
        assert(read_from(st, e, name) + read_from(st, lines(j), name) =~= read_from(st, lines(j), name));
    } else {
        lemma_find_char(t, '\n');
        match find_char(t, '\n') {
            None => {
                lemma_lines_cons(t, j);
                assert(lines(t) == seq![t]);
                lemma_trim_strip_cr(t);
                lemma_read_cons(st, strip_cr(t), lines(j), name);
                lemma_read_single(st, strip_cr(t), name);
                lemma_read_single(st, t, name);
            },
            Some(i) => {
                let p = t.take(i);
                let t2 = t.skip(i + 1);
                assert(!contains_char(p, '\n')) by {
                    assert forall|k: int| 0 <= k < p.len() implies p[k] != '\n' by {
                        assert(p[k] == t[k]);
                    }
                }
                assert(s =~= p + seq!['\n'] + (t2 + nl() + j));
                lemma_lines_cons(p, t2 + nl() + j);
                assert(lines(t) == seq![strip_cr(p)] + lines(t2));
                let c = strip_cr(p);
                let st1 = read_state(st, seq![c], name);
                lemma_read_cons(st, c, lines(t2 + nl() + j), name);
                lemma_read_cons(st, c, lines(t2), name);
                lemma_read_lines_concat(st1, t2, j, name);
                let st2 = read_state(st1, lines(t2), name);
                assert(read_from(st, seq![c], name) + (read_from(st1, lines(t2), name) + read_from(
                    st2,
                    lines(j),
                    name,
                )) =~= read_from(st, seq![c], name) + read_from(st1, lines(t2), name) + read_from(
                    st2,
                    lines(j),
                    name,
                ));
            },
        }
    }
}

/// `[remote "origin"]` is, trimmed, the origin header.
proof fn lemma_origin_header_literal()
    ensures
        trim("[remote \"origin\"]"@) == "[remote \"origin\"]"@,
        is_origin_header("[remote \"origin\"]"@),
{
    reveal_strlit("[remote \"origin\"]");
    reveal_strlit("remote");
    reveal_strlit("origin");
    let h = "[remote \"origin\"]"@;
    assert(h.len() == 17);
    lemma_trim_is(h, 0, 17);
    assert(h.subrange(0, 17) =~= h);
    let inner0 = h.subrange(1, 16);
    lemma_trim_is(inner0, 0, 15);
    assert(inner0.subrange(0, 15) =~= inner0);
    let inner = trim(inner0);
    assert(inner[7] == '"');
    lemma_find_char_at(inner, '"', 7);
    let word = "remote"@;
    assert(inner.take(7) =~= word + seq![' ']);
    assert forall|i: int| 0 <= i < word.len() implies !is_ws(#[trigger] word[i]) by {}
    lemma_trim_word_space(word);
    let q = inner.skip(7);
    assert(q.len() == 8);
    lemma_trim_is(q, 0, 8);
    assert(q.subrange(0, 8) =~= q);
    assert(q =~= seq!['"'] + "origin"@ + seq!['"']);
    assert(eq_ignore_ascii_case(word, "remote"@));
}

/// The standard fetch refspec line is passed over when reading push URLs.
proof fn lemma_fetch_line_neutral()
    ensures
        read_neutral(trim("\tfetch = +refs/heads/*:refs/remotes/origin/*"@)),
{
    reveal_strlit("\tfetch = +refs/heads/*:refs/remotes/origin/*");
    reveal_strlit("pushurl");
    let l = "\tfetch = +refs/heads/*:refs/remotes/origin/*"@;
    let w = seq!['\t'];
    let word = seq!['f', 'e', 't', 'c', 'h'];
    let k = word + seq![' '];
    let rest = l.skip(8);
    assert(l =~= w + k + seq!['='] + rest);
    assert(!contains_char(k, '=')) by {
        assert forall|i: int| 0 <= i < k.len() implies k[i] != '=' by {}
    }
    assert(forall|i: int| 0 <= i < w.len() ==> is_ws(#[trigger] w[i]));
    lemma_key_line(w, k, rest);
    lemma_trim_word_space(word);
}

/// Appending a new origin section makes git read, for `origin`, the push URLs
/// it read before followed by exactly the new section's push URLs, in order.
pub proof fn law_origin_section_adds_push_urls(config_text: Seq<char>, fetch_url: Seq<char>, urls: Seq<Seq<char>>)
    requires
        !contains_char(fetch_url, '\n'),
        clean_urls(urls),
    ensures
        spec_push_urls(config_text + spec_origin_section(fetch_url, urls), "origin"@) == spec_push_urls(
            config_text,
            "origin"@,
        ) + urls,
{
    reveal_strlit("\n[remote \"origin\"]\n");
    reveal_strlit("[remote \"origin\"]");
    reveal_strlit("\turl = ");
    reveal_strlit("url = ");
    reveal_strlit("\tfetch = +refs/heads/*:refs/remotes/origin/*\n");
    reveal_strlit("\tfetch = +refs/heads/*:refs/remotes/origin/*");
    let name = "origin"@;
    let hdr = "[remote \"origin\"]"@;
    let urlp = "\turl = "@ + fetch_url;
    let fetchp = "\tfetch = +refs/heads/*:refs/remotes/origin/*"@;
    let pp = push_pieces(urls);
    let ps = seq![hdr] + (seq![urlp] + (seq![fetchp] + pp));
    lemma_push_lines_joined(urls);
    lemma_joined_cons(fetchp, pp);
    lemma_joined_cons(urlp, seq![fetchp] + pp);
    lemma_joined_cons(hdr, seq![urlp] + (seq![fetchp] + pp));
    assert(spec_origin_section(fetch_url, urls) =~= nl() + joined(ps));
    assert(config_text + spec_origin_section(fetch_url, urls) =~= config_text + nl() + joined(ps));
    lemma_read_lines_concat(false, config_text, joined(ps), name);
    let st = read_state(false, lines(config_text), name);
    // No piece holds a line break.
    lemma_push_pieces_no_newlines(urls);
    assert(!contains_char(hdr, '\n'));
    assert(!contains_char(fetchp, '\n'));
    assert(!contains_char("\turl = "@, '\n'));
    lemma_no_char_concat("\turl = "@, fetch_url, '\n');
    let three = seq![hdr, urlp, fetchp];
    assert(no_newlines(three)) by {
        assert forall|k: int| 0 <= k < three.len() implies !contains_char(#[trigger] three[k], '\n') by {}
    }
    assert(three + pp =~= ps);
    lemma_no_newlines_append(three, pp);
    lemma_read_joined(st, ps, name);
    // The header opens the section; the url and fetch lines are passed over.
    lemma_origin_header_literal();
    lemma_read_cons(st, hdr, seq![urlp] + (seq![fetchp] + pp), name);
    lemma_read_single(st, hdr, name);
    assert(forall|i: int| 0 <= i < seq!['\t'].len() ==> is_ws(#[trigger] seq!['\t'][i]));
    assert(urlp =~= seq!['\t'] + "url = "@ + fetch_url);
    lemma_url_line_neutral(seq!['\t'], fetch_url);
    lemma_read_neutral(true, urlp, seq![fetchp] + pp, name);
    lemma_fetch_line_neutral();
    lemma_read_neutral(true, fetchp, pp, name);
    lemma_push_pieces_read(urls, name);
    assert(Seq::<Seq<char>>::empty() + urls =~= urls);
}

proof fn lemma_replace_pieces_index(
    in_section: bool,
    replaced: bool,
    ls: Seq<Seq<char>>,
    new_url: Seq<char>,
    i: int,
)
    requires
        0 <= i < ls.len(),
        starts_with_char(trim(ls[i]), '['),
    ensures
        replace_pieces(in_section, replaced, ls, new_url).len() == ls.len(),
        replace_pieces(in_section, replaced, ls, new_url)[i] == ls[i],
    decreases ls.len(),
{
    let line = ls[0];
    let t = trim(line);
    let rest = ls.drop_first();
    let (s2, r2) = if starts_with_char(t, '[') {
        (is_origin_header(t), replaced)
    } else if in_section && !replaced && has_key(t, "url"@) {
        (in_section, true)
    } else {
        (in_section, replaced)
    };
    let p = replace_pieces(s2, r2, rest, new_url);
    lemma_replace_pieces_len(s2, r2, rest, new_url);
    if i > 0 {
        assert(rest[i - 1] == ls[i]);
        lemma_replace_pieces_index(s2, r2, rest, new_url, i - 1);
        assert((seq![replace_pieces(in_section, replaced, ls, new_url)[0]] + p)[i] == p[i - 1]);
    }
}

proof fn lemma_replace_pieces_len(in_section: bool, replaced: bool, ls: Seq<Seq<char>>, new_url: Seq<char>)
    ensures
        replace_pieces(in_section, replaced, ls, new_url).len() == ls.len(),
    decreases ls.len(),
{
    if ls.len() > 0 {
        let t = trim(ls[0]);
        let (s2, r2) = if starts_with_char(t, '[') {
            (is_origin_header(t), replaced)
        } else if in_section && !replaced && has_key(t, "url"@) {
            (in_section, true)
        } else {
            (in_section, replaced)
        };
        lemma_replace_pieces_len(s2, r2, ls.drop_first(), new_url);
    }
}

/// Replacing the fetch URL keeps the `[remote "origin"]` header line.
pub proof fn lemma_replace_keeps_origin_header(config_text: Seq<char>, new_url: Seq<char>)
    requires
        !contains_char(new_url, '\n'),
        has_origin_header(lines(config_text)),
    ensures
        has_origin_header(lines(spec_replace_url_in_origin_section(config_text, new_url))),
{
    let ls = lines(config_text);
    let i = choose|i: int| 0 <= i < ls.len() && is_origin_header(trim(#[trigger] ls[i]));
    let ps = replace_pieces(false, false, ls, new_url);
    lemma_replace_pieces_index(false, false, ls, new_url, i);
    lemma_replace_joined(false, false, ls, new_url);
    lemma_lines_no_newline(config_text);
    lemma_replace_no_char(false, false, ls, new_url, '\n');
    lemma_lines_joined(ps);
    let out = lines(joined(ps));
    assert(out[i] == strip_cr(ps[i]));
    lemma_trim_strip_cr(ps[i]);
    assert(is_origin_header(trim(out[i])));
}

} // verus!
