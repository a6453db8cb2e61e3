//! Character-level text primitives shared by the other modules.
//!
//! Strings are handled as `Vec<char>` / `&[char]` so that every step can be
//! stated over `Seq<char>`. The spec functions here describe the behaviour of
//! the few `str` operations the project relies on (`trim`, `find`, `lines`,
//! `split`, `eq_ignore_ascii_case`); the executable versions are proved
//! against them.

use vstd::prelude::*;

verus! {

// ---------------------------------------------------------------------------
// Character classes
// ---------------------------------------------------------------------------

/// The Unicode `White_Space` property, which is what `char::is_whitespace`
/// (and therefore `str::trim`) tests.
pub open spec fn is_ws(c: char) -> bool {
    ||| ('\t' <= c && c <= '\r')
    ||| c == ' '
    ||| c == '\u{85}'
    ||| c == '\u{a0}'
    ||| c == '\u{1680}'
    ||| ('\u{2000}' <= c && c <= '\u{200a}')
    ||| c == '\u{2028}'
    ||| c == '\u{2029}'
    ||| c == '\u{202f}'
    ||| c == '\u{205f}'
    ||| c == '\u{3000}'
}

pub fn is_ws_exec(c: char) -> (r: bool)
    ensures
        r == is_ws(c),
{
    ('\t' <= c && c <= '\r') || c == ' ' || c == '\u{85}' || c == '\u{a0}' || c == '\u{1680}'
        || ('\u{2000}' <= c && c <= '\u{200a}') || c == '\u{2028}' || c == '\u{2029}'
        || c == '\u{202f}' || c == '\u{205f}' || c == '\u{3000}'
}

pub open spec fn is_ascii_upper(c: char) -> bool {
    'A' <= c && c <= 'Z'
}

pub open spec fn is_ascii_lower(c: char) -> bool {
    'a' <= c && c <= 'z'
}

pub open spec fn is_ascii_digit(c: char) -> bool {
    '0' <= c && c <= '9'
}

/// `char::is_ascii_alphabetic`.
pub open spec fn is_ascii_alpha(c: char) -> bool {
    is_ascii_upper(c) || is_ascii_lower(c)
}

/// `char::is_ascii_alphanumeric`.
pub open spec fn is_ascii_alnum(c: char) -> bool {
    is_ascii_alpha(c) || is_ascii_digit(c)
}

pub fn is_ascii_alpha_exec(c: char) -> (r: bool)
    ensures
        r == is_ascii_alpha(c),
{
    ('A' <= c && c <= 'Z') || ('a' <= c && c <= 'z')
}

pub fn is_ascii_alnum_exec(c: char) -> (r: bool)
    ensures
        r == is_ascii_alnum(c),
{
    ('A' <= c && c <= 'Z') || ('a' <= c && c <= 'z') || ('0' <= c && c <= '9')
}

/// Code point of `c` after ASCII lowercasing (non-ASCII-uppercase characters
/// are left alone).
pub open spec fn ascii_lower_code(c: char) -> u32 {
    if is_ascii_upper(c) {
        (c as u32 + 32) as u32
    } else {
        c as u32
    }
}

/// `u8::eq_ignore_ascii_case` lifted to characters.
pub open spec fn char_eq_ignore_ascii_case(a: char, b: char) -> bool {
    ascii_lower_code(a) == ascii_lower_code(b)
}

/// `str::eq_ignore_ascii_case`: same length, and equal position by position
/// once ASCII letters are lowercased. (Non-ASCII characters only ever meet
/// bytes at or above 0x80, which ASCII lowercasing leaves alone, so comparing
/// by characters is the same as comparing the UTF-8 bytes.)
pub open spec fn eq_ignore_ascii_case(a: Seq<char>, b: Seq<char>) -> bool {
    &&& a.len() == b.len()
    &&& forall|i: int| 0 <= i < a.len() ==> char_eq_ignore_ascii_case(#[trigger] a[i], b[i])
}

pub fn char_eq_ignore_ascii_case_exec(a: char, b: char) -> (r: bool)
    ensures
        r == char_eq_ignore_ascii_case(a, b),
{
    let x: u32 = if 'A' <= a && a <= 'Z' {
        a as u32 + 32
    } else {
        a as u32
    };
    let y: u32 = if 'A' <= b && b <= 'Z' {
        b as u32 + 32
    } else {
        b as u32
    };
    x == y
}

pub fn eq_ignore_ascii_case_exec(a: &[char], b: &[char]) -> (r: bool)
    ensures
        r == eq_ignore_ascii_case(a@, b@),
{
    if a.len() != b.len() {
        return false;
    }
    let mut i: usize = 0;
    while i < a.len()
        invariant
            a@.len() == b@.len(),
            i <= a@.len(),
            forall|j: int| 0 <= j < i ==> char_eq_ignore_ascii_case(#[trigger] a@[j], b@[j]),
        decreases a@.len() - i,
    {
        if !char_eq_ignore_ascii_case_exec(a[i], b[i]) {
            return false;
        }
        i = i + 1;
    }
    true
}

// ---------------------------------------------------------------------------
// Trimming
// ---------------------------------------------------------------------------

/// Number of leading whitespace characters.
pub open spec fn lead_ws(s: Seq<char>) -> nat
    decreases s.len(),
{
    if s.len() > 0 && is_ws(s[0]) {
        1 + lead_ws(s.drop_first())
    } else {
        0
    }
}

/// Number of trailing whitespace characters.
pub open spec fn trail_ws(s: Seq<char>) -> nat
    decreases s.len(),
{
    if s.len() > 0 && is_ws(s.last()) {
        1 + trail_ws(s.drop_last())
    } else {
        0
    }
}

/// `str::trim_start`.
pub open spec fn trim_start(s: Seq<char>) -> Seq<char> {
    s.skip(lead_ws(s) as int)
}

/// `str::trim_end`.
pub open spec fn trim_end(s: Seq<char>) -> Seq<char> {
    s.take(s.len() - trail_ws(s))
}

/// `str::trim`: leading and trailing whitespace removed.
pub open spec fn trim(s: Seq<char>) -> Seq<char> {
    trim_end(trim_start(s))
}

pub proof fn lemma_lead_ws(s: Seq<char>)
    ensures
        lead_ws(s) <= s.len(),
        forall|j: int| 0 <= j < lead_ws(s) ==> is_ws(#[trigger] s[j]),
        lead_ws(s) < s.len() ==> !is_ws(s[lead_ws(s) as int]),
    decreases s.len(),
{
    if s.len() > 0 && is_ws(s[0]) {
        lemma_lead_ws(s.drop_first());
        assert forall|j: int| 0 <= j < lead_ws(s) implies is_ws(#[trigger] s[j]) by {
            if j > 0 {
                assert(s[j] == s.drop_first()[j - 1]);
            }
        }
    }
}

/// `lead_ws` is the only count with the characteristic properties.
pub proof fn lemma_lead_ws_unique(s: Seq<char>, k: int)
    requires
        0 <= k <= s.len(),
        forall|j: int| 0 <= j < k ==> is_ws(#[trigger] s[j]),
        k < s.len() ==> !is_ws(s[k]),
    ensures
        lead_ws(s) == k,
{
    lemma_lead_ws(s);
    if lead_ws(s) < k {
        assert(is_ws(s[lead_ws(s) as int]));
    } else if lead_ws(s) > k {
        assert(is_ws(s[k]));
    }
}

pub proof fn lemma_trail_ws(s: Seq<char>)
    ensures
        trail_ws(s) <= s.len(),
        forall|j: int| s.len() - trail_ws(s) <= j < s.len() ==> is_ws(#[trigger] s[j]),
        trail_ws(s) < s.len() ==> !is_ws(s[s.len() - trail_ws(s) - 1]),
    decreases s.len(),
{
    if s.len() > 0 && is_ws(s.last()) {
        lemma_trail_ws(s.drop_last());
        assert forall|j: int| s.len() - trail_ws(s) <= j < s.len() implies is_ws(#[trigger] s[j]) by {
            if j < s.len() - 1 {
                assert(s[j] == s.drop_last()[j]);
            }
        }
        if trail_ws(s) < s.len() {
            assert(s[s.len() - trail_ws(s) - 1] == s.drop_last()[s.drop_last().len() - trail_ws(
                s.drop_last(),
            ) - 1]);
        }
    }
}

pub proof fn lemma_trail_ws_unique(s: Seq<char>, k: int)
    requires
        0 <= k <= s.len(),
        forall|j: int| s.len() - k <= j < s.len() ==> is_ws(#[trigger] s[j]),
        k < s.len() ==> !is_ws(s[s.len() - k - 1]),
    ensures
        trail_ws(s) == k,
{
    lemma_trail_ws(s);
    if trail_ws(s) < k {
        assert(is_ws(s[s.len() - trail_ws(s) - 1]));
    } else if trail_ws(s) > k {
        assert(is_ws(s[s.len() - k - 1]));
    }
}

/// Index of the first non-whitespace character (the length if there is none).
pub fn lead_ws_len(s: &[char]) -> (n: usize)
    ensures
        n == lead_ws(s@),
{
    let mut i: usize = 0;
    while i < s.len() && is_ws_exec(s[i])
        invariant
            i <= s@.len(),
            forall|j: int| 0 <= j < i ==> is_ws(#[trigger] s@[j]),
        decreases s@.len() - i,
    {
        i = i + 1;
    }
    proof {
        lemma_lead_ws_unique(s@, i as int);
    }
    i
}

/// Number of trailing whitespace characters.
pub fn trail_ws_len(s: &[char]) -> (n: usize)
    ensures
        n == trail_ws(s@),
{
    let mut k: usize = 0;
    while k < s.len() && is_ws_exec(s[s.len() - k - 1])
        invariant
            k <= s@.len(),
            forall|j: int| s@.len() - k <= j < s@.len() ==> is_ws(#[trigger] s@[j]),
        decreases s@.len() - k,
    {
        k = k + 1;
    }
    proof {
        lemma_trail_ws_unique(s@, k as int);
    }
    k
}

/// Bounds `(lo, hi)` of `trim(s)` inside `s`.
pub fn trim_bounds(s: &[char]) -> (r: (usize, usize))
    ensures
        r.0 <= r.1 <= s@.len(),
        s@.subrange(r.0 as int, r.1 as int) == trim(s@),
        r.0 == lead_ws(s@),
{
    let lo = lead_ws_len(s);
    proof {
        lemma_lead_ws(s@);
    }
    let rest = slice_range(s, lo, s.len());
    let t = trail_ws_len(rest.as_slice());
    proof {
        lemma_trail_ws(rest@);
        assert(rest@ == trim_start(s@));
        assert(s@.subrange(lo as int, (s.len() - t) as int) =~= trim(s@));
    }
    (lo, s.len() - t)
}

/// `s[lo..hi]` as a fresh vector.
pub fn slice_range(s: &[char], lo: usize, hi: usize) -> (r: Vec<char>)
    requires
        lo <= hi <= s@.len(),
    ensures
        r@ == s@.subrange(lo as int, hi as int),
{
    let mut r: Vec<char> = Vec::new();
    let mut i = lo;
    while i < hi
        invariant
            lo <= i <= hi <= s@.len(),
            r@ == s@.subrange(lo as int, i as int),
        decreases hi - i,
    {
        r.push(s[i]);
        proof {
            assert(s@.subrange(lo as int, i + 1) =~= s@.subrange(lo as int, i as int).push(s@[i as int]));
        }
        i = i + 1;
    }
    r
}

/// `str::trim` on a character vector.
pub fn trim_chars(s: &[char]) -> (r: Vec<char>)
    ensures
        r@ == trim(s@),
{
    let (lo, hi) = trim_bounds(s);
    slice_range(s, lo, hi)
}

// ---------------------------------------------------------------------------
// Searching
// ---------------------------------------------------------------------------

/// First index at or after `i` holding `c`.
pub open spec fn find_from(s: Seq<char>, c: char, i: int) -> Option<int>
    decreases s.len() - i,
{
    if i < 0 || i >= s.len() {
        None
    } else if s[i] == c {
        Some(i)
    } else {
        find_from(s, c, i + 1)
    }
}

/// `str::find(c)` in characters.
pub open spec fn find_char(s: Seq<char>, c: char) -> Option<int> {
    find_from(s, c, 0)
}

pub open spec fn contains_char(s: Seq<char>, c: char) -> bool {
    exists|i: int| 0 <= i < s.len() && s[i] == c
}

/// Characterization of `find_from` by the position it returns.
pub proof fn lemma_find_from(s: Seq<char>, c: char, i: int)
    requires
        0 <= i <= s.len(),
    ensures
        find_from(s, c, i) matches Some(k) ==> i <= k < s.len() && s[k] == c && forall|j: int|
            i <= j < k ==> s[j] != c,
        find_from(s, c, i) is None ==> forall|j: int| i <= j < s.len() ==> s[j] != c,
    decreases s.len() - i,
{
    if i < s.len() && s[i] != c {
        lemma_find_from(s, c, i + 1);
    }
}

pub proof fn lemma_find_char(s: Seq<char>, c: char)
    ensures
        find_char(s, c) matches Some(k) ==> 0 <= k < s.len() && s[k] == c && forall|j: int|
            0 <= j < k ==> s[j] != c,
        find_char(s, c) is None <==> !contains_char(s, c),
{
    lemma_find_from(s, c, 0);
}

pub fn find_char_exec(s: &[char], c: char) -> (r: Option<usize>)
    ensures
        match r {
            Some(k) => find_char(s@, c) == Some(k as int),
            None => find_char(s@, c) is None,
        },
{
    let mut i: usize = 0;
    while i < s.len()
        invariant
            i <= s@.len(),
            find_char(s@, c) == find_from(s@, c, i as int),
        decreases s@.len() - i,
    {
        if s[i] == c {
            return Some(i);
        }
        i = i + 1;
    }
    None
}

pub fn contains_char_exec(s: &[char], c: char) -> (r: bool)
    ensures
        r == contains_char(s@, c),
{
    proof {
        lemma_find_char(s@, c);
    }
    find_char_exec(s, c).is_some()
}


// ---------------------------------------------------------------------------
// Splitting
// ---------------------------------------------------------------------------

/// `str::split(c)`: the pieces between occurrences of `c` (always at least one
/// piece; adjacent separators give empty pieces).
pub open spec fn split_on(s: Seq<char>, c: char) -> Seq<Seq<char>>
    decreases s.len(),
{
    match find_char(s, c) {
        None => seq![s],
        Some(i) => if 0 <= i < s.len() {
            seq![s.take(i)] + split_on(s.skip(i + 1), c)
        } else {
            seq![s]
        },
    }
}

/// One trailing `'\r'` removed, if present.
pub open spec fn strip_cr(s: Seq<char>) -> Seq<char> {
    if s.len() > 0 && s.last() == '\r' {
        s.drop_last()
    } else {
        s
    }
}

/// `str::lines`: pieces ended by `'\n'` (with one `'\r'` before the `'\n'`
/// removed), plus the unterminated rest if it is non-empty.
pub open spec fn lines(s: Seq<char>) -> Seq<Seq<char>>
    decreases s.len(),
{
    if s.len() == 0 {
        seq![]
    } else {
        match find_char(s, '\n') {
            None => seq![s],
            Some(i) => if 0 <= i < s.len() {
                seq![strip_cr(s.take(i))] + lines(s.skip(i + 1))
            } else {
                seq![s]
            },
        }
    }
}

/// Where the search for `c` resumes after a piece that ends at `i`.
proof fn lemma_find_after_piece(s: Seq<char>, c: char, start: int, i: int)
    requires
        0 <= start <= i < s.len(),
        s[i] == c,
        forall|j: int| start <= j < i ==> s[j] != c,
    ensures
        find_char(s.skip(start), c) == Some(i - start),
        s.skip(start).take(i - start) =~= s.subrange(start, i),
        s.skip(start).skip(i - start + 1) =~= s.skip(i + 1),
{
    let t = s.skip(start);
    lemma_find_char(t, c);
    match find_char(t, c) {
        Some(k) => {
            if k < i - start {
                assert(t[k] == s[start + k]);
            } else if k > i - start {
                assert(t[i - start] == s[i]);
            }
        },
        None => {
            assert(t[i - start] == s[i]);
        },
    }
}

proof fn lemma_find_none_rest(s: Seq<char>, c: char, start: int)
    requires
        0 <= start <= s.len(),
        forall|j: int| start <= j < s.len() ==> s[j] != c,
    ensures
        find_char(s.skip(start), c) is None,
{
    let t = s.skip(start);
    lemma_find_char(t, c);
    if find_char(t, c) is Some {
        let k = find_char(t, c)->0;
        assert(t[k] == s[start + k]);
    }
}

/// `str::split(c)` on a character vector.
pub fn split_on_exec(s: &[char], c: char) -> (r: Vec<Vec<char>>)
    ensures
        r@.map_values(|v: Vec<char>| v@) == split_on(s@, c),
{
    let mut r: Vec<Vec<char>> = Vec::new();
    let mut start: usize = 0;
    let mut i: usize = 0;
    proof {
        assert(s@.skip(0) =~= s@);
        assert(r@.map_values(|v: Vec<char>| v@) + split_on(s@, c) =~= split_on(s@, c));
    }
    while i < s.len()
        invariant
            start <= i <= s@.len(),
            forall|j: int| start <= j < i ==> s@[j] != c,
            split_on(s@, c) == r@.map_values(|v: Vec<char>| v@) + split_on(s@.skip(start as int), c),
        decreases s@.len() - i,
    {
        if s[i] == c {
            let piece = slice_range(s, start, i);
            proof {
                lemma_find_after_piece(s@, c, start as int, i as int);
                let ghost old_r = r@.map_values(|v: Vec<char>| v@);
                assert(split_on(s@.skip(start as int), c) == seq![piece@] + split_on(s@.skip(i + 1), c));
            }
            let ghost before = r@;
            r.push(piece);
            proof {
                assert(r@.map_values(|v: Vec<char>| v@) =~= before.map_values(|v: Vec<char>| v@).push(piece@));
            }
            start = i + 1;
        }
        i = i + 1;
    }
    let last = slice_range(s, start, s.len());
    proof {
        lemma_find_none_rest(s@, c, start as int);
        assert(last@ =~= s@.skip(start as int));
    }
    let ghost before = r@;
    r.push(last);
    proof {
        assert(r@.map_values(|v: Vec<char>| v@) =~= before.map_values(|v: Vec<char>| v@).push(last@));
    }
    r
}

/// `str::lines` on a character vector.
pub fn lines_exec(s: &[char]) -> (r: Vec<Vec<char>>)
    ensures
        r@.map_values(|v: Vec<char>| v@) == lines(s@),
{
    let mut r: Vec<Vec<char>> = Vec::new();
    let mut start: usize = 0;
    let mut i: usize = 0;
    proof {
        assert(s@.skip(0) =~= s@);
        assert(r@.map_values(|v: Vec<char>| v@) + lines(s@) =~= lines(s@));
    }
    while i < s.len()
        invariant
            start <= i <= s@.len(),
            forall|j: int| start <= j < i ==> s@[j] != '\n',
            lines(s@) == r@.map_values(|v: Vec<char>| v@) + lines(s@.skip(start as int)),
        decreases s@.len() - i,
    {
        if s[i] == '\n' {
            let end = if i > start && s[i - 1] == '\r' {
                i - 1
            } else {
                i
            };
            let piece = slice_range(s, start, end);
            proof {
                lemma_find_after_piece(s@, '\n', start as int, i as int);
                assert(piece@ =~= strip_cr(s@.subrange(start as int, i as int)));
                assert(lines(s@.skip(start as int)) == seq![piece@] + lines(s@.skip(i + 1)));
            }
            let ghost before = r@;
            r.push(piece);
            proof {
                assert(r@.map_values(|v: Vec<char>| v@) =~= before.map_values(|v: Vec<char>| v@).push(piece@));
            }
            start = i + 1;
        }
        i = i + 1;
    }
    if start < s.len() {
        let last = slice_range(s, start, s.len());
        proof {
            lemma_find_none_rest(s@, '\n', start as int);
            assert(last@ =~= s@.skip(start as int));
        }
        let ghost before = r@;
        r.push(last);
        proof {
            assert(r@.map_values(|v: Vec<char>| v@) =~= before.map_values(|v: Vec<char>| v@).push(last@));
        }
    } else {
        proof {
            assert(s@.skip(start as int) =~= Seq::<char>::empty());
            assert(r@.map_values(|v: Vec<char>| v@) + lines(s@.skip(start as int)) =~= r@.map_values(|v: Vec<char>| v@));
        }
    }
    r
}

// ---------------------------------------------------------------------------
// Facts used by the laws over line-based transformations
// ---------------------------------------------------------------------------

/// `trim(s)` is `s[a..b]` whenever everything outside `[a, b)` is whitespace
/// and `[a, b)`, if non-empty, starts and ends with a non-whitespace character.
pub proof fn lemma_trim_is(s: Seq<char>, a: int, b: int)
    requires
        0 <= a <= b <= s.len(),
        forall|j: int| 0 <= j < a ==> is_ws(#[trigger] s[j]),
        forall|j: int| b <= j < s.len() ==> is_ws(#[trigger] s[j]),
        a < b ==> !is_ws(s[a]) && !is_ws(s[b - 1]),
    ensures
        trim(s) == s.subrange(a, b),
{
    lemma_lead_ws(s);
    if a == b {
        assert forall|j: int| 0 <= j < s.len() implies is_ws(#[trigger] s[j]) by {
            if j >= a {
                assert(is_ws(s[j]));
            }
        }
        lemma_lead_ws_unique(s, s.len() as int);
        assert(trim_start(s) =~= Seq::<char>::empty());
        lemma_trail_ws(trim_start(s));
        assert(trim(s) =~= s.subrange(a, b));
    } else {
        lemma_lead_ws_unique(s, a);
        let r = s.skip(a);
        assert forall|j: int| r.len() - (s.len() - b) <= j < r.len() implies is_ws(#[trigger] r[j]) by {
            assert(r[j] == s[a + j]);
        }
        assert(r[r.len() - (s.len() - b) - 1] == s[b - 1]);
        lemma_trail_ws_unique(r, s.len() - b);
        assert(trim(s) =~= s.subrange(a, b));
    }
}

/// `find_char(s, c)` is `k` when `s[k] == c` and `c` does not occur earlier.
pub proof fn lemma_find_char_at(s: Seq<char>, c: char, k: int)
    requires
        0 <= k < s.len(),
        s[k] == c,
        forall|j: int| 0 <= j < k ==> s[j] != c,
    ensures
        find_char(s, c) == Some(k),
{
    lemma_find_char(s, c);
    if find_char(s, c) is None {
        assert(contains_char(s, c));
    } else {
        let k2 = find_char(s, c)->0;
        if k2 < k {
            assert(s[k2] == c);
        } else if k2 > k {
            assert(s[k] == c);
        }
    }
}

/// Splitting off one line that holds no line break.
pub proof fn lemma_lines_cons(p: Seq<char>, rest: Seq<char>)
    requires
        !contains_char(p, '\n'),
    ensures
        lines(p + seq!['\n'] + rest) == seq![strip_cr(p)] + lines(rest),
{
    let s = p + seq!['\n'] + rest;
    assert(s[p.len() as int] == '\n');
    assert forall|j: int| 0 <= j < p.len() implies s[j] != '\n' by {
        assert(s[j] == p[j]);
        if s[j] == '\n' {
            assert(contains_char(p, '\n'));
        }
    }
    lemma_find_char_at(s, '\n', p.len() as int);
    assert(s.take(p.len() as int) =~= p);
    assert(s.skip(p.len() as int + 1) =~= rest);
}

/// Trimming does not see one trailing carriage return.
pub proof fn lemma_trim_strip_cr(l: Seq<char>)
    ensures
        trim(strip_cr(l)) == trim(l),
{
    if l.len() > 0 && l.last() == '\r' {
        let p = l.drop_last();
        lemma_lead_ws(p);
        lemma_trail_ws(p);
        let a = lead_ws(p) as int;
        assert forall|j: int| 0 <= j < a implies is_ws(#[trigger] l[j]) by {
            assert(l[j] == p[j]);
        }
        assert(is_ws(l[l.len() - 1]));
        if a == p.len() {
            // all whitespace
            lemma_trim_is(p, a, a);
            lemma_trim_is(l, a, a);
        } else {
            let b = p.len() - trail_ws(p);
            assert(a < b) by {
                if a >= b {
                    assert(is_ws(p[a]));
                }
            }
            lemma_trim_is(p, a, b);
            assert forall|j: int| b <= j < l.len() implies is_ws(#[trigger] l[j]) by {
                if j < p.len() {
                    assert(l[j] == p[j]);
                }
            }
            assert(l[a] == p[a]);
            assert(l[b - 1] == p[b - 1]);
            lemma_trim_is(l, a, b);
            assert(l.subrange(a, b) =~= p.subrange(a, b));
        }
    }
}

/// Whitespace in front of a text does not survive trimming.
pub proof fn lemma_trim_ws_prefix(c: char, u: Seq<char>)
    requires
        is_ws(c),
    ensures
        trim(seq![c] + u) == trim(u),
{
    let s = seq![c] + u;
    assert(s.drop_first() =~= u);
    assert(lead_ws(s) == 1 + lead_ws(u));
    lemma_lead_ws(u);
    assert(trim_start(s) =~= trim_start(u));
}

/// Dropping trailing whitespace does not change the trimmed text.
pub proof fn lemma_trim_take_ws_tail(s: Seq<char>, j: int)
    requires
        0 <= j <= s.len(),
        forall|i: int| j <= i < s.len() ==> is_ws(#[trigger] s[i]),
    ensures
        trim(s.take(j)) == trim(s),
{
    lemma_lead_ws(s);
    lemma_trail_ws(s);
    let a = lead_ws(s) as int;
    let x = s.take(j);
    if a == s.len() {
        lemma_trim_is(s, a, a);
        assert forall|i: int| 0 <= i < j implies is_ws(#[trigger] x[i]) by {
            assert(x[i] == s[i]);
        }
        lemma_trim_is(x, j, j);
    } else {
        let b = s.len() - trail_ws(s);
        assert(a < b) by {
            if a >= b {
                assert(is_ws(s[a]));
            }
        }
        assert(b <= j) by {
            if b > j {
                assert(is_ws(s[b - 1]));
            }
        }
        lemma_trim_is(s, a, b);
        assert forall|i: int| 0 <= i < a implies is_ws(#[trigger] x[i]) by {
            assert(x[i] == s[i]);
        }
        assert forall|i: int| b <= i < x.len() implies is_ws(#[trigger] x[i]) by {
            assert(x[i] == s[i]);
        }
        assert(x[a] == s[a]);
        assert(x[b - 1] == s[b - 1]);
        lemma_trim_is(x, a, b);
        assert(x.subrange(a, b) =~= s.subrange(a, b));
    }
}

/// No element of `lines(s)` holds a line break.
/// The lines of a text without `c` hold no `c` either.
pub proof fn lemma_lines_no_char(s: Seq<char>, c: char)
    requires
        !contains_char(s, c),
    ensures
        forall|k: int| 0 <= k < lines(s).len() ==> !contains_char(#[trigger] lines(s)[k], c),
    decreases s.len(),
{
    if s.len() > 0 {
        lemma_find_char(s, '\n');
        match find_char(s, '\n') {
            None => {},
            Some(i) => {
                let r = s.skip(i + 1);
                assert(!contains_char(r, c)) by {
                    if contains_char(r, c) {
                        let j = choose|j: int| 0 <= j < r.len() && r[j] == c;
                        assert(s[i + 1 + j] == c);
                    }
                }
                lemma_lines_no_char(r, c);
                let first = strip_cr(s.take(i));
                assert(!contains_char(first, c)) by {
                    if contains_char(first, c) {
                        let j = choose|j: int| 0 <= j < first.len() && first[j] == c;
                        assert(s[j] == c);
                    }
                }
                assert forall|k: int| 0 <= k < lines(s).len() implies !contains_char(
                    #[trigger] lines(s)[k],
                    c,
                ) by {
                    if k > 0 {
                        assert(lines(s)[k] == lines(r)[k - 1]);
                    }
                }
            },
        }
    }
}

pub proof fn lemma_lines_no_newline(s: Seq<char>)
    ensures
        forall|k: int| 0 <= k < lines(s).len() ==> !contains_char(#[trigger] lines(s)[k], '\n'),
    decreases s.len(),
{
    if s.len() > 0 {
        lemma_find_char(s, '\n');
        match find_char(s, '\n') {
            None => {},
            Some(i) => {
                lemma_lines_no_newline(s.skip(i + 1));
                let first = strip_cr(s.take(i));
                assert(!contains_char(first, '\n')) by {
                    if contains_char(first, '\n') {
                        let j = choose|j: int| 0 <= j < first.len() && first[j] == '\n';
                        assert(s[j] == '\n');
                    }
                }
                assert forall|k: int| 0 <= k < lines(s).len() implies !contains_char(
                    #[trigger] lines(s)[k],
                    '\n',
                ) by {
                    if k > 0 {
                        assert(lines(s)[k] == lines(s.skip(i + 1))[k - 1]);
                    }
                }
            },
        }
    }
}

// ---------------------------------------------------------------------------
// Conversions between `str` and character vectors
// ---------------------------------------------------------------------------

/// The characters of `s`, in order (`str::chars`).
pub fn str_chars(s: &str) -> (r: Vec<char>)
    ensures
        r@ == s@,
{
    let mut r: Vec<char> = Vec::new();
    for c in it: s.chars()
        invariant
            r@ == it.seq().take(it.index() as int),
    {
        r.push(c);
    }
    r
}

/// A `String` holding exactly the characters of `v`.
///
/// Trusted: calls `FromIterator<&char>` for `String`, which the standard
/// library documents as appending each character in order.
#[verifier::external_body]
pub(crate) fn chars_to_string(v: &[char]) -> (r: String)
    ensures
        r@ == v@,
{
    v.iter().collect::<String>()
}

/// Name for the result of `str::to_lowercase`: the Unicode lowercase mapping
/// of each character, with the context-dependent final-sigma rule.
pub uninterp spec fn spec_to_lowercase(s: Seq<char>) -> Seq<char>;

/// Every character of `s` is ASCII.
pub open spec fn all_ascii(s: Seq<char>) -> bool {
    forall|i: int| 0 <= i < s.len() ==> (#[trigger] s[i] as u32) < 128
}

/// `c` with `A`..`Z` lowered.
pub open spec fn ascii_lower_char(c: char) -> char {
    if is_ascii_upper(c) {
        ((c as u32) + 32) as char
    } else {
        c
    }
}

/// `s` with `A`..`Z` lowered, position by position.
pub open spec fn ascii_lower_seq(s: Seq<char>) -> Seq<char> {
    s.map_values(|c: char| ascii_lower_char(c))
}

/// What `str::to_lowercase` gives: on ASCII text the ASCII lowering, on any
/// other text the (named) Unicode lowercase mapping.
pub open spec fn lowercase(s: Seq<char>) -> Seq<char> {
    if all_ascii(s) {
        ascii_lower_seq(s)
    } else {
        spec_to_lowercase(s)
    }
}

/// Trusted wrapper for `str::to_lowercase`.
///
/// Claims: on an all-ASCII input the result is the input with `A`..`Z`
/// lowered position by position (ASCII capitals have exactly those lowercase
/// mappings, and no other ASCII character has one); on any other input it is
/// the named Unicode lowercase mapping of the input; and, being lowercase by
/// definition, the result never holds an ASCII capital letter.
#[verifier::external_body]
pub(crate) fn to_lowercase(s: &str) -> (r: String)
    ensures
        r@ == (if all_ascii(s@) {
            ascii_lower_seq(s@)
        } else {
            spec_to_lowercase(s@)
        }),
        forall|i: int| 0 <= i < r@.len() ==> !is_ascii_upper(#[trigger] r@[i]),
{
    s.to_lowercase()
}

/// `a` followed by `b`, as a new `String`.
pub fn concat2(a: &str, b: &str) -> (r: String)
    ensures
        r@ == a@ + b@,
{
    let mut r = String::from_str(a);
    r.append(b);
    r
}

/// `a`, `b` and `c` in sequence, as a new `String`.
pub fn concat3(a: &str, b: &str, c: &str) -> (r: String)
    ensures
        r@ == a@ + b@ + c@,
{
    let mut r = String::from_str(a);
    r.append(b);
    r.append(c);
    r
}

} // verus!
