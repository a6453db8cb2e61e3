//! Input sanitization and validation.
//!
//! Every user-supplied name goes through [`sanitize`] first (trim, drop
//! quotes, reject shell metacharacters, lowercase) and is validated only
//! afterwards, so `"CyrusAE"` is accepted as `cyrusae` rather than rejected
//! for its capitals.
//!
//! Error messages follow the pattern
//! `'<input>' is not a valid <field>: <reason>.`

use vstd::prelude::*;
use vstd::utf8::encode_utf8;

use crate::text::{
    all_ascii, ascii_lower_code, chars_to_string, concat3, contains_char, contains_char_exec,
    is_ascii_alnum, is_ascii_alnum_exec, is_ascii_alpha, is_ascii_alpha_exec, is_ascii_digit,
    is_ascii_lower, is_ascii_upper,
    is_ws, lemma_find_char, lemma_trim_is, ascii_lower_char, ascii_lower_seq, find_char, lowercase, split_on, split_on_exec, str_chars, to_lowercase,
    trim, trim_chars,
};

verus! {

// ---------------------------------------------------------------------------
// ValidationError
// ---------------------------------------------------------------------------

/// Errors produced by sanitization or validation.
#[derive(Debug, PartialEq, Eq)]
pub enum ValidationError {
    /// Input contains a shell metacharacter, a space or a line break.
    DangerousCharacter {
        /// The character that triggered the rejection.
        ch: char,
    },
    /// Input failed the GitHub username rules.
    InvalidGithubUsername {
        /// The sanitized value that was tested.
        input: String,
        /// Human-readable reason.
        reason: &'static str,
    },
    /// Input failed the ATProto handle rules.
    InvalidTangledUsername {
        /// The sanitized value that was tested.
        input: String,
        /// Human-readable reason.
        reason: &'static str,
    },
    /// Input failed the repository name rules.
    InvalidRepoName {
        /// The sanitized value that was tested.
        input: String,
        /// Human-readable reason.
        reason: &'static str,
    },
}

/// Name for the result of `char::escape_debug` (collected into a string).
pub uninterp spec fn spec_escape_debug(c: char) -> Seq<char>;

/// The escapes that std documents for a tab, a carriage return, a line feed
/// and a backslash: a backslash followed by `t`, `r`, `n` and a backslash.
pub open spec fn documented_escape(c: char) -> Option<Seq<char>> {
    if c == '\t' {
        Some(seq!['\\', 't'])
    } else if c == '\r' {
        Some(seq!['\\', 'r'])
    } else if c == '\n' {
        Some(seq!['\\', 'n'])
    } else if c == '\\' {
        Some(seq!['\\', '\\'])
    } else {
        None
    }
}

/// Trusted wrapper for `char::escape_debug`, collected into a `String`: the
/// result is the named escape sequence of `c`. As std documents for the
/// escapes it shares with `char::escape_default`, a tab, a carriage return, a
/// line feed and a backslash come out as a backslash followed by `t`, `r`,
/// `n` and a backslash. Nothing more is stated of other characters (Unicode
/// printability decides which are escaped).
#[verifier::external_body]
fn escape_debug(c: char) -> (r: String)
    ensures
        r@ == spec_escape_debug(c),
        documented_escape(c) matches Some(e) ==> r@ == e,
{
    c.escape_debug().to_string()
}

/// Text of the message for each error (what `Display` prints).
pub open spec fn validation_message(e: ValidationError) -> Seq<char> {
    match e {
        ValidationError::DangerousCharacter { ch } => "Input contains a disallowed character: '"@
            + spec_escape_debug(ch)
            + "'. Shell metacharacters, spaces, and control characters are not allowed."@,
        ValidationError::InvalidGithubUsername { input, reason } => "'"@ + input@
            + "' is not a valid GitHub username: "@ + reason@ + "."@,
        ValidationError::InvalidTangledUsername { input, reason } => "'"@ + input@
            + "' is not a valid Tangled username: "@ + reason@ + "."@,
        ValidationError::InvalidRepoName { input, reason } => "'"@ + input@
            + "' is not a valid repository name: "@ + reason@ + "."@,
    }
}

impl ValidationError {
    /// The human-readable message for this error.
    pub fn message(&self) -> (r: String)
        ensures
            r@ == validation_message(*self),
            *self matches ValidationError::DangerousCharacter { ch } ==> (documented_escape(ch) matches Some(
                e,
            ) ==> r@ == "Input contains a disallowed character: '"@ + e
                + "'. Shell metacharacters, spaces, and control characters are not allowed."@),
    {
        match self {
            ValidationError::DangerousCharacter { ch } => {
                let esc = escape_debug(*ch);
                concat3(
                    "Input contains a disallowed character: '",
                    esc.as_str(),
                    "'. Shell metacharacters, spaces, and control characters are not allowed.",
                )
            },
            ValidationError::InvalidGithubUsername { input, reason } => {
                let head = concat3("'", input.as_str(), "' is not a valid GitHub username: ");
                concat3(head.as_str(), reason, ".")
            },
            ValidationError::InvalidTangledUsername { input, reason } => {
                let head = concat3("'", input.as_str(), "' is not a valid Tangled username: ");
                concat3(head.as_str(), reason, ".")
            },
            ValidationError::InvalidRepoName { input, reason } => {
                let head = concat3("'", input.as_str(), "' is not a valid repository name: ");
                concat3(head.as_str(), reason, ".")
            },
        }
    }
}

// ---------------------------------------------------------------------------
// Sanitization
// ---------------------------------------------------------------------------

/// Characters rejected loudly rather than stripped: whitespace and line
/// breaks, shell expansion (`$` and backtick), control flow (`;`, `|`, `&`),
/// redirection (`>`, `<`), globbing (`*`, `?`, `[`, `]`), grouping (`(`,
/// `)`, `{`, `}`) and path/escape characters (`\`, `~`).
pub open spec fn is_dangerous(c: char) -> bool {
    ||| c == ' '
    ||| c == '\t'
    ||| c == '\n'
    ||| c == '\r'
    ||| c == '$'
    ||| c == '`'
    ||| c == ';'
    ||| c == '|'
    ||| c == '&'
    ||| c == '>'
    ||| c == '<'
    ||| c == '*'
    ||| c == '?'
    ||| c == '['
    ||| c == ']'
    ||| c == '('
    ||| c == ')'
    ||| c == '{'
    ||| c == '}'
    ||| c == '\\'
    ||| c == '~'
}

fn is_dangerous_exec(c: char) -> (r: bool)
    ensures
        r == is_dangerous(c),
{
    c == ' ' || c == '\t' || c == '\n' || c == '\r' || c == '$' || c == '`' || c == ';' || c
        == '|' || c == '&' || c == '>' || c == '<' || c == '*' || c == '?' || c == '[' || c == ']'
        || c == '(' || c == ')' || c == '{' || c == '}' || c == '\\' || c == '~'
}

pub open spec fn is_quote(c: char) -> bool {
    c == '\'' || c == '"'
}

/// `s` with every single and double quote removed.
pub open spec fn dequote(s: Seq<char>) -> Seq<char>
    decreases s.len(),
{
    if s.len() == 0 {
        s
    } else if is_quote(s.last()) {
        dequote(s.drop_last())
    } else {
        dequote(s.drop_last()).push(s.last())
    }
}

/// The first dangerous character of `s`, if any.
pub open spec fn first_dangerous(s: Seq<char>) -> Option<char>
    decreases s.len(),
{
    if s.len() == 0 {
        None
    } else if is_dangerous(s[0]) {
        Some(s[0])
    } else {
        first_dangerous(s.drop_first())
    }
}

/// No character of `s` is an ASCII capital letter.
pub open spec fn no_ascii_upper(s: Seq<char>) -> bool {
    forall|i: int| 0 <= i < s.len() ==> !is_ascii_upper(#[trigger] s[i])
}

/// `s` with ASCII capitals lowered, position by position.
pub open spec fn ascii_lowered(s: Seq<char>, t: Seq<char>) -> bool {
    &&& t.len() == s.len()
    &&& forall|i: int| 0 <= i < s.len() ==> (#[trigger] t[i] as u32) == ascii_lower_code(s[i])
}

/// A lowercase ASCII letter, a digit or a hyphen.
pub open spec fn is_lower_name_char(c: char) -> bool {
    is_ascii_lower(c) || is_ascii_digit(c) || c == '-'
}

/// Every character is a lowercase ASCII letter, a digit or a hyphen.
pub open spec fn all_lower_name_chars(s: Seq<char>) -> bool {
    forall|i: int| 0 <= i < s.len() ==> is_lower_name_char(#[trigger] s[i])
}

/// What [`sanitize`] computes: trim, drop quotes, then either the first
/// dangerous character or the lowercased text.
pub open spec fn spec_sanitize(input: Seq<char>) -> Result<Seq<char>, char> {
    let d = dequote(trim(input));
    match first_dangerous(d) {
        Some(c) => Err(c),
        None => Ok(lowercase(d)),
    }
}

pub proof fn lemma_dequote(s: Seq<char>)
    ensures
        forall|i: int| 0 <= i < dequote(s).len() ==> !is_quote(#[trigger] dequote(s)[i]),
        forall|i: int| 0 <= i < dequote(s).len() ==> s.contains(#[trigger] dequote(s)[i]),
        (forall|i: int| 0 <= i < s.len() ==> !is_quote(#[trigger] s[i])) ==> dequote(s) == s,
    decreases s.len(),
{
    if s.len() > 0 {
        lemma_dequote(s.drop_last());
        let d0 = dequote(s.drop_last());
        assert forall|i: int| 0 <= i < dequote(s).len() implies s.contains(#[trigger] dequote(s)[i]) by {
            if i < d0.len() {
                let k = choose|k: int| 0 <= k < s.drop_last().len() && s.drop_last()[k] == d0[i];
                assert(s[k] == d0[i]);
            } else {
                assert(s[s.len() - 1] == dequote(s)[i]);
            }
        }
        if forall|i: int| 0 <= i < s.len() ==> !is_quote(#[trigger] s[i]) {
            assert(forall|i: int| 0 <= i < s.drop_last().len() ==> !is_quote(#[trigger] s.drop_last()[i])
                ) by {
                assert forall|i: int| 0 <= i < s.drop_last().len() implies !is_quote(
                    #[trigger] s.drop_last()[i],
                ) by {
                    assert(s.drop_last()[i] == s[i]);
                }
            }
            assert(!is_quote(s[s.len() - 1]));
            assert(s.drop_last().push(s.last()) =~= s);
        }
    }
}

pub proof fn lemma_first_dangerous(s: Seq<char>)
    ensures
        first_dangerous(s) is None <==> forall|i: int| 0 <= i < s.len() ==> !is_dangerous(#[trigger] s[i]),
        first_dangerous(s) matches Some(c) ==> is_dangerous(c) && s.contains(c),
    decreases s.len(),
{
    if s.len() > 0 {
        lemma_first_dangerous(s.drop_first());
        if !is_dangerous(s[0]) {
            if first_dangerous(s) is None {
                assert forall|i: int| 0 <= i < s.len() implies !is_dangerous(#[trigger] s[i]) by {
                    if i > 0 {
                        assert(s[i] == s.drop_first()[i - 1]);
                    }
                }
            } else {
                let c = first_dangerous(s)->0;
                let k = choose|k: int| 0 <= k < s.drop_first().len() && s.drop_first()[k] == c;
                assert(s[k + 1] == c);
            }
            if forall|i: int| 0 <= i < s.len() ==> !is_dangerous(#[trigger] s[i]) {
                assert forall|i: int| 0 <= i < s.drop_first().len() implies !is_dangerous(
                    #[trigger] s.drop_first()[i],
                ) by {
                    assert(s.drop_first()[i] == s[i + 1]);
                }
            }
        } else {
            assert(s[0] == s[0]);
        }
    }
}

/// Sanitize a raw user input string.
///
/// 1. Strip leading and trailing whitespace.
/// 2. Remove single and double quotes silently.
/// 3. Reject the first remaining dangerous character loudly.
/// 4. Lowercase everything.
pub fn sanitize(input: &str) -> (r: Result<String, ValidationError>)
    ensures
        match spec_sanitize(input@) {
            Ok(s) => r matches Ok(v) && v@ == s,
            Err(c) => r == Err::<String, ValidationError>(ValidationError::DangerousCharacter { ch: c }),
        },
        r matches Ok(v) ==> no_ascii_upper(v@),
        r matches Ok(v) ==> (all_ascii(dequote(trim(input@))) ==> ascii_lowered(
            dequote(trim(input@)),
            v@,
        )),
        r matches Ok(v) ==> (all_ascii(dequote(trim(input@))) && trim(v@) == v@ ==> spec_sanitize(
            v@,
        ) == Ok::<Seq<char>, char>(v@)),
{
    let chars = str_chars(input);
    let trimmed = trim_chars(chars.as_slice());

    let mut dequoted: Vec<char> = Vec::new();
    let mut i: usize = 0;
    while i < trimmed.len()
        invariant
            i <= trimmed@.len(),
            dequoted@ == dequote(trimmed@.take(i as int)),
        decreases trimmed@.len() - i,
    {
        let c = trimmed[i];
        proof {
            assert(trimmed@.take(i + 1).drop_last() =~= trimmed@.take(i as int));
            assert(trimmed@.take(i + 1).last() == c);
        }
        if c != '\'' && c != '"' {
            dequoted.push(c);
        }
        i = i + 1;
    }
    proof {
        assert(trimmed@.take(trimmed@.len() as int) =~= trimmed@);
    }

    let mut j: usize = 0;
    proof {
        assert(dequoted@.skip(0) =~= dequoted@);
    }
    while j < dequoted.len()
        invariant
            j <= dequoted@.len(),
            dequoted@ == dequote(trim(input@)),
            first_dangerous(dequoted@) == first_dangerous(dequoted@.skip(j as int)),
        decreases dequoted@.len() - j,
    {
        let c = dequoted[j];
        if is_dangerous_exec(c) {
            proof {
                assert(dequoted@.skip(j as int)[0] == c);
                assert(first_dangerous(dequoted@.skip(j as int)) == Some(c));
            }
            return Err(ValidationError::DangerousCharacter { ch: c });
        }
        proof {
            assert(dequoted@.skip(j as int).drop_first() =~= dequoted@.skip(j + 1));
        }
        j = j + 1;
    }
    proof {
        assert(dequoted@.skip(j as int) =~= Seq::<char>::empty());
    }
    let d = chars_to_string(dequoted.as_slice());
    let v = to_lowercase(d.as_str());
    proof {
        if all_ascii(dequoted@) && trim(v@) == v@ {
            lemma_sanitize_again(trim(input@));
        }
    }
    Ok(v)
}

/// Sanitizing what sanitizing gave, where that was ASCII text and has no
/// whitespace at either end, gives it back unchanged.
proof fn lemma_sanitize_again(t: Seq<char>)
    requires
        first_dangerous(dequote(t)) is None,
        all_ascii(dequote(t)),
        trim(ascii_lower_seq(dequote(t))) == ascii_lower_seq(dequote(t)),
    ensures
        spec_sanitize(ascii_lower_seq(dequote(t))) == Ok::<Seq<char>, char>(
            ascii_lower_seq(dequote(t)),
        ),
{
    let d = dequote(t);
    let v = ascii_lower_seq(d);
    lemma_dequote(t);
    lemma_first_dangerous(d);
    assert forall|i: int| 0 <= i < v.len() implies !is_quote(#[trigger] v[i]) && !is_dangerous(v[i])
        && (v[i] as u32) < 128 && !is_ascii_upper(v[i]) by {
        assert(v[i] == ascii_lower_char(d[i]));
        assert(!is_quote(d[i]));
        assert(!is_dangerous(d[i]));
        assert((d[i] as u32) < 128);
    }
    lemma_dequote(v);
    lemma_first_dangerous(v);
    assert(all_ascii(v));
    assert(ascii_lower_seq(v) =~= v);
}

// ---------------------------------------------------------------------------
// Shared character checks
// ---------------------------------------------------------------------------

/// Length in bytes of the UTF-8 encoding (what `str::len` reports).
pub open spec fn utf8_len(s: Seq<char>) -> usize {
    encode_utf8(s).len() as usize
}

/// `s.contains("--")`.
pub open spec fn has_double_hyphen(s: Seq<char>) -> bool {
    exists|i: int| 0 <= i && i + 1 < s.len() && #[trigger] s[i] == '-' && s[i + 1] == '-'
}

pub open spec fn is_name_char(c: char) -> bool {
    is_ascii_alnum(c) || c == '-'
}

/// Every character is ASCII alphanumeric or a hyphen.
pub open spec fn all_name_chars(s: Seq<char>) -> bool {
    forall|i: int| 0 <= i < s.len() ==> is_name_char(#[trigger] s[i])
}

/// Every character is an ASCII letter.
pub open spec fn all_letters(s: Seq<char>) -> bool {
    forall|i: int| 0 <= i < s.len() ==> is_ascii_alpha(#[trigger] s[i])
}

fn has_double_hyphen_exec(s: &[char]) -> (r: bool)
    ensures
        r == has_double_hyphen(s@),
{
    let mut i: usize = 0;
    while i < s.len()
        invariant
            i <= s@.len(),
            forall|j: int| 0 <= j < i && j + 1 < s@.len() ==> !(#[trigger] s@[j] == '-' && s@[j + 1] == '-'),
        decreases s@.len() - i,
    {
        if i + 1 < s.len() && s[i] == '-' && s[i + 1] == '-' {
            return true;
        }
        i = i + 1;
    }
    false
}

fn all_name_chars_exec(s: &[char]) -> (r: bool)
    ensures
        r == all_name_chars(s@),
{
    let mut i: usize = 0;
    while i < s.len()
        invariant
            i <= s@.len(),
            forall|j: int| 0 <= j < i ==> is_name_char(#[trigger] s@[j]),
        decreases s@.len() - i,
    {
        if !(is_ascii_alnum_exec(s[i]) || s[i] == '-') {
            assert(!is_name_char(s@[i as int]));
            return false;
        }
        i = i + 1;
    }
    true
}

fn all_letters_exec(s: &[char]) -> (r: bool)
    ensures
        r == all_letters(s@),
{
    let mut i: usize = 0;
    while i < s.len()
        invariant
            i <= s@.len(),
            forall|j: int| 0 <= j < i ==> is_ascii_alpha(#[trigger] s@[j]),
        decreases s@.len() - i,
    {
        if !is_ascii_alpha_exec(s[i]) {
            assert(!is_ascii_alpha(s@[i as int]));
            return false;
        }
        i = i + 1;
    }
    true
}

// ---------------------------------------------------------------------------
// GitHub username validation
// ---------------------------------------------------------------------------

/// The first GitHub username rule that the sanitized `s` breaks, as the
/// reason text reported for it.
pub open spec fn github_username_problem(s: Seq<char>) -> Option<Seq<char>> {
    if s.len() == 0 {
        Some("must not be empty"@)
    } else if utf8_len(s) > 39 {
        Some("must be 39 characters or fewer"@)
    } else if s[0] == '-' {
        Some("must not start with a hyphen"@)
    } else if s.last() == '-' {
        Some("must not end with a hyphen"@)
    } else if has_double_hyphen(s) {
        Some("must not contain consecutive hyphens"@)
    } else if !all_name_chars(s) {
        Some("may only contain alphanumeric characters and hyphens"@)
    } else {
        None
    }
}

/// What [`validate_github_username`] returns for `input`.
pub open spec fn github_username_outcome(input: Seq<char>, r: Result<String, ValidationError>) -> bool {
    match spec_sanitize(input) {
        Err(c) => r == Err::<String, ValidationError>(ValidationError::DangerousCharacter { ch: c }),
        Ok(s) => match github_username_problem(s) {
            Some(reason) => r matches Err(ValidationError::InvalidGithubUsername { input: i, reason: why })
                && i@ == s && why@ == reason,
            None => r matches Ok(v) && v@ == s,
        },
    }
}

/// Byte length of the UTF-8 encoding of `s` (`str::len`).
fn byte_len(s: &str) -> (n: usize)
    ensures
        n == utf8_len(s@),
{
    s.len()
}

/// Validate a GitHub username.
///
/// Sanitizes first, then enforces: 1 to 39 bytes, no leading or trailing
/// hyphen, no `--`, only ASCII alphanumerics and hyphens. Returns the
/// sanitized name on success.
pub fn validate_github_username(input: &str) -> (r: Result<String, ValidationError>)
    ensures
        github_username_outcome(input@, r),
        r matches Ok(v) ==> all_lower_name_chars(v@),
        r matches Ok(v) ==> github_username_outcome(v@, r),
{
    let s = match sanitize(input) {
        Ok(s) => s,
        Err(e) => return Err(e),
    };
    let c = str_chars(s.as_str());
    let reason: Option<&'static str> = if c.len() == 0 {
        Some("must not be empty")
    } else if byte_len(s.as_str()) > 39 {
        Some("must be 39 characters or fewer")
    } else if c[0] == '-' {
        Some("must not start with a hyphen")
    } else if c[c.len() - 1] == '-' {
        Some("must not end with a hyphen")
    } else if has_double_hyphen_exec(c.as_slice()) {
        Some("must not contain consecutive hyphens")
    } else if !all_name_chars_exec(c.as_slice()) {
        Some("may only contain alphanumeric characters and hyphens")
    } else {
        None
    };
    match reason {
        Some(why) => Err(ValidationError::InvalidGithubUsername { input: s, reason: why }),
        None => {
            proof {
                assert(all_lower_name_chars(s@));
                lemma_sanitize_keeps_lower_name(s@);
            }
            Ok(s)
        },
    }
}

// ---------------------------------------------------------------------------
// Tangled (ATProto) username validation
// ---------------------------------------------------------------------------

/// The first rule that a non-final handle label breaks: 1 to 63 bytes, ASCII
/// alphanumerics with interior hyphens only.
pub open spec fn non_tld_label_problem(l: Seq<char>) -> Option<Seq<char>> {
    if l.len() == 0 {
        Some("each part of the handle must not be empty (check for double dots)"@)
    } else if utf8_len(l) > 63 {
        Some("each part of the handle must be 63 characters or fewer"@)
    } else if l[0] == '-' {
        Some("each part of the handle must not start with a hyphen"@)
    } else if l.last() == '-' {
        Some("each part of the handle must not end with a hyphen"@)
    } else if !all_name_chars(l) {
        Some("each part of the handle may only contain alphanumeric characters and hyphens"@)
    } else {
        None
    }
}

/// The first rule that the final label (the TLD) breaks: 1 to 63 bytes of
/// ASCII letters.
pub open spec fn tld_label_problem(l: Seq<char>) -> Option<Seq<char>> {
    if l.len() == 0 {
        Some("must end with a valid TLD (e.g. '.fyi', '.social', '.sh')"@)
    } else if utf8_len(l) > 63 {
        Some("TLD must be 63 characters or fewer"@)
    } else if !all_letters(l) {
        Some("TLD must contain only letters (e.g. '.fyi', '.social')"@)
    } else {
        None
    }
}

/// The problem of the first label in `ls` that has one.
pub open spec fn first_label_problem(ls: Seq<Seq<char>>) -> Option<Seq<char>>
    decreases ls.len(),
{
    if ls.len() == 0 {
        None
    } else {
        match non_tld_label_problem(ls[0]) {
            Some(p) => Some(p),
            None => first_label_problem(ls.drop_first()),
        }
    }
}

/// The first ATProto handle rule that the sanitized `s` breaks.
pub open spec fn tangled_username_problem(s: Seq<char>) -> Option<Seq<char>> {
    if s.len() == 0 {
        Some("must not be empty"@)
    } else if contains_char(s, '_') {
        Some("underscores are not allowed in ATProto handles"@)
    } else {
        let labels = split_on(s, '.');
        if labels.len() < 2 {
            Some("must contain at least one dot (e.g. 'user.bsky.social')"@)
        } else {
            match first_label_problem(labels.drop_last()) {
                Some(p) => Some(p),
                None => tld_label_problem(labels.last()),
            }
        }
    }
}

/// What [`validate_tangled_username`] returns for `input`.
pub open spec fn tangled_username_outcome(input: Seq<char>, r: Result<String, ValidationError>) -> bool {
    match spec_sanitize(input) {
        Err(c) => r == Err::<String, ValidationError>(ValidationError::DangerousCharacter { ch: c }),
        Ok(s) => match tangled_username_problem(s) {
            Some(reason) => r matches Err(ValidationError::InvalidTangledUsername { input: i, reason: why })
                && i@ == s && why@ == reason,
            None => r matches Ok(v) && v@ == s,
        },
    }
}

/// Validate a single non-TLD ATProto label (e.g. `atdot` in `atdot.fyi`).
pub fn validate_atproto_non_tld_label(label: &str) -> (r: Result<(), &'static str>)
    ensures
        match non_tld_label_problem(label@) {
            Some(p) => r matches Err(why) && why@ == p,
            None => r is Ok,
        },
{
    let c = str_chars(label);
    if c.len() == 0 {
        return Err("each part of the handle must not be empty (check for double dots)");
    }
    if byte_len(label) > 63 {
        return Err("each part of the handle must be 63 characters or fewer");
    }
    if c[0] == '-' {
        return Err("each part of the handle must not start with a hyphen");
    }
    if c[c.len() - 1] == '-' {
        return Err("each part of the handle must not end with a hyphen");
    }
    if !all_name_chars_exec(c.as_slice()) {
        return Err("each part of the handle may only contain alphanumeric characters and hyphens");
    }
    Ok(())
}

/// Validate the TLD label of an ATProto handle (e.g. `fyi` in `atdot.fyi`).
pub fn validate_atproto_tld_label(tld: &str) -> (r: Result<(), &'static str>)
    ensures
        match tld_label_problem(tld@) {
            Some(p) => r matches Err(why) && why@ == p,
            None => r is Ok,
        },
{
    let c = str_chars(tld);
    if c.len() == 0 {
        return Err("must end with a valid TLD (e.g. '.fyi', '.social', '.sh')");
    }
    if byte_len(tld) > 63 {
        return Err("TLD must be 63 characters or fewer");
    }
    if !all_letters_exec(c.as_slice()) {
        return Err("TLD must contain only letters (e.g. '.fyi', '.social')");
    }
    Ok(())
}

/// Validate a Tangled username (an ATProto handle).
///
/// Sanitizes first, then requires at least two dot-separated labels; every
/// label but the last is 1 to 63 bytes of ASCII alphanumerics with interior
/// hyphens; the last (the TLD) is 1 to 63 ASCII letters; no underscores.
/// Returns the sanitized handle on success.
pub fn validate_tangled_username(input: &str) -> (r: Result<String, ValidationError>)
    ensures
        tangled_username_outcome(input@, r),
        r matches Ok(v) ==> all_lower_handle_chars(v@),
        r matches Ok(v) ==> tangled_username_outcome(v@, r),
{
    let s = match sanitize(input) {
        Ok(s) => s,
        Err(e) => return Err(e),
    };
    let c = str_chars(s.as_str());
    if c.len() == 0 {
        return Err(ValidationError::InvalidTangledUsername { input: s, reason: "must not be empty" });
    }
    if contains_char_exec(c.as_slice(), '_') {
        return Err(
            ValidationError::InvalidTangledUsername {
                input: s,
                reason: "underscores are not allowed in ATProto handles",
            },
        );
    }
    let labels = split_on_exec(c.as_slice(), '.');
    let ghost lv = labels@.map_values(|v: Vec<char>| v@);
    if labels.len() < 2 {
        return Err(
            ValidationError::InvalidTangledUsername {
                input: s,
                reason: "must contain at least one dot (e.g. 'user.bsky.social')",
            },
        );
    }
    let n = labels.len() - 1;
    let mut i: usize = 0;
    proof {
        assert(lv.drop_last().skip(0) =~= lv.drop_last());
    }
    while i < n
        invariant
            n + 1 == labels@.len(),
            spec_sanitize(input@) == Ok::<Seq<char>, char>(s@),
            s@.len() > 0,
            !contains_char(s@, '_'),
            lv == split_on(s@, '.'),
            lv.len() >= 2,
            lv == labels@.map_values(|v: Vec<char>| v@),
            i <= n,
            first_label_problem(lv.drop_last()) == first_label_problem(lv.drop_last().skip(i as int)),
        decreases n - i,
    {
        let label = chars_to_string(labels[i].as_slice());
        match validate_atproto_non_tld_label(label.as_str()) {
            Err(why) => {
                proof {
                    assert(lv.drop_last().skip(i as int)[0] == label@);
                }
                return Err(ValidationError::InvalidTangledUsername { input: s, reason: why });
            },
            Ok(()) => {},
        }
        proof {
            assert(lv.drop_last().skip(i as int)[0] == label@);
            assert(lv.drop_last().skip(i as int).drop_first() =~= lv.drop_last().skip(i + 1));
        }
        i = i + 1;
    }
    proof {
        assert(lv.drop_last().skip(i as int) =~= Seq::<Seq<char>>::empty());
    }
    let tld = chars_to_string(labels[n].as_slice());
    match validate_atproto_tld_label(tld.as_str()) {
        Err(why) => Err(ValidationError::InvalidTangledUsername { input: s, reason: why }),
        Ok(()) => {
            proof {
                lemma_handle_chars(s@);
                lemma_sanitize_keeps_lower_handle(s@);
            }
            Ok(s)
        },
    }
}

// ---------------------------------------------------------------------------
// Repository name validation
// ---------------------------------------------------------------------------

/// The first repository name rule that the sanitized `s` breaks.
pub open spec fn repo_name_problem(s: Seq<char>) -> Option<Seq<char>> {
    if s.len() == 0 {
        Some("must not be empty"@)
    } else if utf8_len(s) > 100 {
        Some("must be 100 characters or fewer"@)
    } else if s[0] == '-' {
        Some("must not start with a hyphen"@)
    } else if s.last() == '-' {
        Some("must not end with a hyphen"@)
    } else if has_double_hyphen(s) {
        Some("must not contain consecutive hyphens"@)
    } else if contains_char(s, '.') {
        Some("periods are not allowed (use hyphens instead)"@)
    } else if !all_name_chars(s) {
        Some("may only contain alphanumeric characters and hyphens"@)
    } else {
        None
    }
}

/// What [`validate_repo_name`] returns for `input`.
pub open spec fn repo_name_outcome(input: Seq<char>, r: Result<String, ValidationError>) -> bool {
    match spec_sanitize(input) {
        Err(c) => r == Err::<String, ValidationError>(ValidationError::DangerousCharacter { ch: c }),
        Ok(s) => match repo_name_problem(s) {
            Some(reason) => r matches Err(ValidationError::InvalidRepoName { input: i, reason: why })
                && i@ == s && why@ == reason,
            None => r matches Ok(v) && v@ == s,
        },
    }
}

/// Validate a repository name.
///
/// Sanitizes first, then enforces the common ground of GitHub and Tangled
/// naming: 1 to 100 bytes, ASCII alphanumerics and hyphens only, no leading or
/// trailing hyphen, no `--`, no periods. Returns the sanitized name.
pub fn validate_repo_name(input: &str) -> (r: Result<String, ValidationError>)
    ensures
        repo_name_outcome(input@, r),
        r matches Ok(v) ==> all_lower_name_chars(v@),
        r matches Ok(v) ==> repo_name_outcome(v@, r),
{
    let s = match sanitize(input) {
        Ok(s) => s,
        Err(e) => return Err(e),
    };
    let c = str_chars(s.as_str());
    let reason: Option<&'static str> = if c.len() == 0 {
        Some("must not be empty")
    } else if byte_len(s.as_str()) > 100 {
        Some("must be 100 characters or fewer")
    } else if c[0] == '-' {
        Some("must not start with a hyphen")
    } else if c[c.len() - 1] == '-' {
        Some("must not end with a hyphen")
    } else if has_double_hyphen_exec(c.as_slice()) {
        Some("must not contain consecutive hyphens")
    } else if contains_char_exec(c.as_slice(), '.') {
        Some("periods are not allowed (use hyphens instead)")
    } else if !all_name_chars_exec(c.as_slice()) {
        Some("may only contain alphanumeric characters and hyphens")
    } else {
        None
    };
    match reason {
        Some(why) => Err(ValidationError::InvalidRepoName { input: s, reason: why }),
        None => {
            proof {
                assert(all_lower_name_chars(s@));
                lemma_sanitize_keeps_lower_name(s@);
            }
            Ok(s)
        },
    }
}

// ---------------------------------------------------------------------------
// An accepted value is accepted again, unchanged
// ---------------------------------------------------------------------------

/// A lowercase ASCII letter, a digit, a hyphen or a dot.
pub open spec fn is_lower_handle_char(c: char) -> bool {
    is_lower_name_char(c) || c == '.'
}

/// Every character is a lowercase ASCII letter, a digit, a hyphen or a dot.
pub open spec fn all_lower_handle_chars(s: Seq<char>) -> bool {
    forall|i: int| 0 <= i < s.len() ==> is_lower_handle_char(#[trigger] s[i])
}

/// Text made of lowercase ASCII letters, digits, hyphens and dots passes
/// sanitizing unchanged.
proof fn lemma_sanitize_keeps_lower_handle(v: Seq<char>)
    requires
        all_lower_handle_chars(v),
    ensures
        spec_sanitize(v) == Ok::<Seq<char>, char>(v),
{
    assert forall|i: int| 0 <= i < v.len() implies !is_ws(#[trigger] v[i]) && !is_quote(v[i])
        && !is_dangerous(v[i]) && (v[i] as u32) < 128 && !is_ascii_upper(v[i]) by {
        assert(is_lower_handle_char(v[i]));
    }
    if v.len() > 0 {
        lemma_trim_is(v, 0, v.len() as int);
        assert(v.subrange(0, v.len() as int) =~= v);
    } else {
        assert(trim(v) =~= v);
    }
    lemma_dequote(v);
    lemma_first_dangerous(v);
    assert(all_ascii(v));
    assert(ascii_lower_seq(v) =~= v);
}

/// An accepted Tangled handle: every label is made of ASCII alphanumerics and
/// hyphens, so the handle is made of those and dots.
proof fn lemma_first_label_problem_none(ls: Seq<Seq<char>>)
    requires
        first_label_problem(ls) is None,
    ensures
        forall|k: int| 0 <= k < ls.len() ==> non_tld_label_problem(#[trigger] ls[k]) is None,
    decreases ls.len(),
{
    if ls.len() > 0 {
        lemma_first_label_problem_none(ls.drop_first());
        assert forall|k: int| 0 <= k < ls.len() implies non_tld_label_problem(#[trigger] ls[k]) is None by {
            if k > 0 {
                assert(ls[k] == ls.drop_first()[k - 1]);
            }
        }
    }
}

proof fn lemma_split_name_chars(s: Seq<char>)
    requires
        forall|k: int| 0 <= k < split_on(s, '.').len() ==> all_name_chars(#[trigger] split_on(s, '.')[k]),
    ensures
        forall|i: int| 0 <= i < s.len() ==> is_name_char(#[trigger] s[i]) || s[i] == '.',
    decreases s.len(),
{
    let ps = split_on(s, '.');
    lemma_find_char(s, '.');
    match find_char(s, '.') {
        None => {
            assert(all_name_chars(ps[0]));
        },
        Some(i) => {
            let rest = split_on(s.skip(i + 1), '.');
            assert(ps == seq![s.take(i)] + rest);
            assert(all_name_chars(ps[0]));
            assert forall|k: int| 0 <= k < rest.len() implies all_name_chars(#[trigger] rest[k]) by {
                assert(rest[k] == ps[k + 1]);
                assert(all_name_chars(ps[k + 1]));
            }
            lemma_split_name_chars(s.skip(i + 1));
            assert forall|j: int| 0 <= j < s.len() implies is_name_char(#[trigger] s[j]) || s[j] == '.' by {
                if j < i {
                    assert(s[j] == ps[0][j]);
                } else if j > i {
                    assert(s[j] == s.skip(i + 1)[j - i - 1]);
                }
            }
        },
    }
}

proof fn lemma_handle_chars(s: Seq<char>)
    requires
        tangled_username_problem(s) is None,
        no_ascii_upper(s),
    ensures
        all_lower_handle_chars(s),
{
    let ls = split_on(s, '.');
    lemma_first_label_problem_none(ls.drop_last());
    assert forall|k: int| 0 <= k < ls.len() implies all_name_chars(#[trigger] ls[k]) by {
        if k < ls.len() - 1 {
            assert(ls.drop_last()[k] == ls[k]);
            assert(non_tld_label_problem(ls.drop_last()[k]) is None);
        } else {
            assert(ls[k] == ls.last());
            assert forall|i: int| 0 <= i < ls[k].len() implies is_name_char(#[trigger] ls[k][i]) by {
                assert(is_ascii_alpha(ls[k][i]));
            }
        }
    }
    lemma_split_name_chars(s);
    assert forall|i: int| 0 <= i < s.len() implies is_lower_handle_char(#[trigger] s[i]) by {
        assert(!is_ascii_upper(s[i]));
    }
}

/// Text made of lowercase ASCII letters, digits and hyphens passes
/// sanitizing unchanged.
proof fn lemma_sanitize_keeps_lower_name(v: Seq<char>)
    requires
        all_lower_name_chars(v),
    ensures
        spec_sanitize(v) == Ok::<Seq<char>, char>(v),
{
    assert(all_lower_handle_chars(v)) by {
        assert forall|i: int| 0 <= i < v.len() implies is_lower_handle_char(#[trigger] v[i]) by {
            assert(is_lower_name_char(v[i]));
        }
    }
    lemma_sanitize_keeps_lower_handle(v);
}


// ---------------------------------------------------------------------------
// Laws: which names the validators accept
// ---------------------------------------------------------------------------

/// Every label of a list passes the non-final label rules: then none of them
/// is reported.
proof fn lemma_first_label_problem_all_none(ls: Seq<Seq<char>>)
    requires
        forall|k: int| 0 <= k < ls.len() ==> non_tld_label_problem(#[trigger] ls[k]) is None,
    ensures
        first_label_problem(ls) is None,
    decreases ls.len(),
{
    if ls.len() > 0 {
        assert(non_tld_label_problem(ls[0]) is None);
        assert forall|k: int| 0 <= k < ls.drop_first().len() implies non_tld_label_problem(
            #[trigger] ls.drop_first()[k],
        ) is None by {
            assert(ls.drop_first()[k] == ls[k + 1]);
        }
        lemma_first_label_problem_all_none(ls.drop_first());
    }
}

/// GitHub usernames that follow the rules are accepted unchanged: a name of
/// 1 to 39 bytes made of lowercase ASCII letters, ASCII digits and hyphens,
/// neither starting nor ending with a hyphen and without two hyphens in a
/// row, validates to itself (`octocat42`, `cyrus-ae`, `a1`).
pub proof fn law_github_rule_names_are_accepted(s: Seq<char>, r: Result<String, ValidationError>)
    requires
        s.len() > 0,
        utf8_len(s) <= 39,
        forall|i: int| 0 <= i < s.len() ==> is_ascii_lower(#[trigger] s[i]) || is_ascii_digit(s[i]) || s[i] == '-',
        s[0] != '-',
        s[s.len() - 1] != '-',
        forall|i: int| 0 <= i < s.len() - 1 ==> !(#[trigger] s[i] == '-' && s[i + 1] == '-'),
        github_username_outcome(s, r),
    ensures
        r matches Ok(v) && v@ == s,
{
    assert(all_lower_name_chars(s)) by {
        assert forall|i: int| 0 <= i < s.len() implies is_lower_name_char(#[trigger] s[i]) by {}
    }
    assert(all_name_chars(s)) by {
        assert forall|i: int| 0 <= i < s.len() implies is_name_char(#[trigger] s[i]) by {}
    }
    assert(!has_double_hyphen(s));
    lemma_sanitize_keeps_lower_name(s);
}

/// A GitHub username that validation accepts follows the rules: 1 to 39
/// bytes of ASCII letters, digits and hyphens, neither starting nor ending
/// with a hyphen and without two hyphens in a row.
pub proof fn law_accepted_github_names_follow_the_rules(input: Seq<char>, r: Result<String, ValidationError>)
    requires
        github_username_outcome(input, r),
        r is Ok,
    ensures
        ({
            let s = r->Ok_0@;
            &&& s.len() > 0
            &&& utf8_len(s) <= 39
            &&& forall|i: int| 0 <= i < s.len() ==> is_ascii_alnum(#[trigger] s[i]) || s[i] == '-'
            &&& s[0] != '-'
            &&& s[s.len() - 1] != '-'
            &&& forall|i: int| 0 <= i < s.len() - 1 ==> !(#[trigger] s[i] == '-' && s[i + 1] == '-')
        }),
{
    let s = r->Ok_0@;
    assert forall|i: int| 0 <= i < s.len() implies is_ascii_alnum(#[trigger] s[i]) || s[i] == '-' by {
        assert(is_name_char(s[i]));
    }
    assert forall|i: int| 0 <= i < s.len() - 1 implies !(#[trigger] s[i] == '-' && s[i + 1] == '-') by {
        if s[i] == '-' && s[i + 1] == '-' {
            assert(has_double_hyphen(s));
        }
    }
}

/// Repository names that follow the rules are accepted unchanged: a name of
/// 1 to 100 bytes made of lowercase ASCII letters, ASCII digits and hyphens,
/// neither starting nor ending with a hyphen and without two hyphens in a
/// row, validates to itself (`project2`, `my-repo`).
pub proof fn law_repo_rule_names_are_accepted(s: Seq<char>, r: Result<String, ValidationError>)
    requires
        s.len() > 0,
        utf8_len(s) <= 100,
        forall|i: int| 0 <= i < s.len() ==> is_ascii_lower(#[trigger] s[i]) || is_ascii_digit(s[i]) || s[i] == '-',
        s[0] != '-',
        s[s.len() - 1] != '-',
        forall|i: int| 0 <= i < s.len() - 1 ==> !(#[trigger] s[i] == '-' && s[i + 1] == '-'),
        repo_name_outcome(s, r),
    ensures
        r matches Ok(v) && v@ == s,
{
    assert(all_lower_name_chars(s)) by {
        assert forall|i: int| 0 <= i < s.len() implies is_lower_name_char(#[trigger] s[i]) by {}
    }
    assert(all_name_chars(s)) by {
        assert forall|i: int| 0 <= i < s.len() implies is_name_char(#[trigger] s[i]) by {}
    }
    assert(!has_double_hyphen(s));
    assert(!contains_char(s, '.')) by {
        if contains_char(s, '.') {
            let i = choose|i: int| 0 <= i < s.len() && s[i] == '.';
            assert(is_lower_name_char(s[i]));
        }
    }
    lemma_sanitize_keeps_lower_name(s);
}

/// A repository name that validation accepts follows the rules: 1 to 100
/// bytes of ASCII letters, digits and hyphens (so no periods), neither
/// starting nor ending with a hyphen and without two hyphens in a row.
pub proof fn law_accepted_repo_names_follow_the_rules(input: Seq<char>, r: Result<String, ValidationError>)
    requires
        repo_name_outcome(input, r),
        r is Ok,
    ensures
        ({
            let s = r->Ok_0@;
            &&& s.len() > 0
            &&& utf8_len(s) <= 100
            &&& forall|i: int| 0 <= i < s.len() ==> is_ascii_alnum(#[trigger] s[i]) || s[i] == '-'
            &&& s[0] != '-'
            &&& s[s.len() - 1] != '-'
            &&& forall|i: int| 0 <= i < s.len() - 1 ==> !(#[trigger] s[i] == '-' && s[i + 1] == '-')
        }),
{
    let s = r->Ok_0@;
    assert forall|i: int| 0 <= i < s.len() implies is_ascii_alnum(#[trigger] s[i]) || s[i] == '-' by {
        assert(is_name_char(s[i]));
    }
    assert forall|i: int| 0 <= i < s.len() - 1 implies !(#[trigger] s[i] == '-' && s[i + 1] == '-') by {
        if s[i] == '-' && s[i + 1] == '-' {
            assert(has_double_hyphen(s));
        }
    }
}

/// Tangled handles that follow the ATProto rules are accepted unchanged: a
/// handle of lowercase ASCII letters, digits, hyphens and dots that splits at
/// its dots into at least two labels, where every label but the last has 1 to
/// 63 bytes of lowercase letters, digits and hyphens and neither starts nor
/// ends with a hyphen, and the last has 1 to 63 lowercase letters, validates
/// to itself, wherever hyphens stand (`jane.my-site.com`, `atdot.fyi`).
pub proof fn law_tangled_rule_handles_are_accepted(s: Seq<char>, r: Result<String, ValidationError>)
    requires
        s.len() > 0,
        forall|i: int| 0 <= i < s.len() ==> is_ascii_lower(#[trigger] s[i]) || is_ascii_digit(s[i]) || s[i] == '-'
            || s[i] == '.',
        split_on(s, '.').len() >= 2,
        forall|k: int| 0 <= k < split_on(s, '.').len() - 1 ==> {
            let l = #[trigger] split_on(s, '.')[k];
            &&& l.len() > 0
            &&& utf8_len(l) <= 63
            &&& forall|j: int| 0 <= j < l.len() ==> is_ascii_lower(#[trigger] l[j]) || is_ascii_digit(l[j]) || l[j] == '-'
            &&& l[0] != '-'
            &&& l[l.len() - 1] != '-'
        },
        ({
            let l = split_on(s, '.')[split_on(s, '.').len() - 1];
            &&& l.len() > 0
            &&& utf8_len(l) <= 63
            &&& forall|j: int| 0 <= j < l.len() ==> is_ascii_lower(#[trigger] l[j])
        }),
        tangled_username_outcome(s, r),
    ensures
        r matches Ok(v) && v@ == s,
{
    let ls = split_on(s, '.');
    assert(all_lower_handle_chars(s)) by {
        assert forall|i: int| 0 <= i < s.len() implies is_lower_handle_char(#[trigger] s[i]) by {}
    }
    lemma_sanitize_keeps_lower_handle(s);
    assert(!contains_char(s, '_')) by {
        if contains_char(s, '_') {
            let i = choose|i: int| 0 <= i < s.len() && s[i] == '_';
            assert(is_lower_handle_char(s[i]));
        }
    }
    let front = ls.drop_last();
    assert forall|k: int| 0 <= k < front.len() implies non_tld_label_problem(#[trigger] front[k]) is None by {
        let l = ls[k];
        assert(front[k] == l);
        assert(all_name_chars(l)) by {
            assert forall|j: int| 0 <= j < l.len() implies is_name_char(#[trigger] l[j]) by {}
        }
    }
    lemma_first_label_problem_all_none(front);
    let last = ls[ls.len() - 1];
    assert(ls.last() == last);
    assert(all_letters(last)) by {
        assert forall|j: int| 0 <= j < last.len() implies is_ascii_alpha(#[trigger] last[j]) by {}
    }
}

/// A Tangled handle that validation accepts follows the ATProto rules: it
/// has no underscore and splits at its dots into at least two labels; every
/// label but the last has 1 to 63 bytes of ASCII letters, digits and hyphens
/// and neither starts nor ends with a hyphen; the last has 1 to 63 ASCII
/// letters.
pub proof fn law_accepted_tangled_handles_follow_the_rules(input: Seq<char>, r: Result<String, ValidationError>)
    requires
        tangled_username_outcome(input, r),
        r is Ok,
    ensures
        ({
            let s = r->Ok_0@;
            let ls = split_on(s, '.');
            &&& !contains_char(s, '_')
            &&& ls.len() >= 2
            &&& forall|k: int| 0 <= k < ls.len() - 1 ==> {
                let l = #[trigger] ls[k];
                &&& l.len() > 0
                &&& utf8_len(l) <= 63
                &&& forall|j: int| 0 <= j < l.len() ==> is_ascii_alnum(#[trigger] l[j]) || l[j] == '-'
                &&& l[0] != '-'
                &&& l[l.len() - 1] != '-'
            }
            &&& ls[ls.len() - 1].len() > 0
            &&& utf8_len(ls[ls.len() - 1]) <= 63
            &&& forall|j: int| 0 <= j < ls[ls.len() - 1].len() ==> is_ascii_alpha(#[trigger] ls[ls.len() - 1][j])
        }),
{
    let s = r->Ok_0@;
    let ls = split_on(s, '.');
    let front = ls.drop_last();
    lemma_first_label_problem_none(front);
    assert forall|k: int| 0 <= k < ls.len() - 1 implies {
        let l = #[trigger] ls[k];
        &&& l.len() > 0
        &&& utf8_len(l) <= 63
        &&& forall|j: int| 0 <= j < l.len() ==> is_ascii_alnum(#[trigger] l[j]) || l[j] == '-'
        &&& l[0] != '-'
        &&& l[l.len() - 1] != '-'
    } by {
        assert(front[k] == ls[k]);
        assert(non_tld_label_problem(front[k]) is None);
        let l = ls[k];
        assert forall|j: int| 0 <= j < l.len() implies is_ascii_alnum(#[trigger] l[j]) || l[j] == '-' by {
            assert(is_name_char(l[j]));
        }
    }
    assert(ls.last() == ls[ls.len() - 1]);
}

} // verus!
