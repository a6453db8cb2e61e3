//! `entangle init`: what to do with the `origin` remote.
//!
//! `origin` ends up with one fetch URL (the preferred forge) and two push
//! URLs: the mirror forge first, the preferred forge last. The front end
//! reads the repository's state and runs the prompts; this module decides,
//! from what `origin` looks like now, whether to create it, to add the
//! missing push URLs, to ask before replacing a foreign fetch URL, or to stop
//! because everything is already in place.

use vstd::prelude::*;

use crate::git::{
    clean_urls, has_origin_header, law_insert_push_urls_adds_them,
    law_origin_section_adds_push_urls, law_replace_url_keeps_push_urls, spec_insert_push_urls_in_config,
    spec_origin_section, spec_push_urls, spec_replace_url_in_origin_section, string_views, OriginStatus,
};
use crate::json::str_eq;
use crate::text::{concat3, contains_char, lines};
use crate::validate::{repo_name_outcome, validate_repo_name, ValidationError};

verus! {

// ---------------------------------------------------------------------------
// Names
// ---------------------------------------------------------------------------

/// What [`validate_init_names`] returns: the repository name is validated,
/// then the alias if there is one; the first refusal is the error.
pub open spec fn init_names_outcome(
    repo: Seq<char>,
    alias: Option<Seq<char>>,
    r: Result<(String, Option<String>), ValidationError>,
) -> bool {
    match r {
        Ok((n, a)) => repo_name_outcome(repo, Ok(n)) && match alias {
            None => a is None,
            Some(x) => a matches Some(v) && repo_name_outcome(x, Ok(v)),
        },
        Err(e) => repo_name_outcome(repo, Err(e)) || (exists|n: String| repo_name_outcome(repo, Ok(n)))
            && (alias matches Some(x) && repo_name_outcome(x, Err(e))),
    }
}

/// Validate the repository name and, when given, the alias for the mirror
/// forge; both come back sanitized.
pub fn validate_init_names(repo: &str, alias: Option<&str>) -> (r: Result<(String, Option<String>), ValidationError>)
    ensures
        init_names_outcome(
            repo@,
            match alias {
                Some(a) => Some(a@),
                None => None,
            },
            r,
        ),
{
    let name = match validate_repo_name(repo) {
        Ok(n) => n,
        Err(e) => return Err(e),
    };
    match alias {
        None => Ok((name, None)),
        Some(a) => match validate_repo_name(a) {
            Ok(v) => Ok((name, Some(v))),
            Err(e) => Err(e),
        },
    }
}

// ---------------------------------------------------------------------------
// The plan for origin
// ---------------------------------------------------------------------------

/// The changes to the `origin` remote.
#[derive(Debug, Clone)]
pub enum RemoteChange {
    /// Append a new origin section with this fetch URL and these push URLs.
    Create { fetch_url: String, push_urls: Vec<String> },
    /// Change the existing origin: replace its fetch URL when `new_fetch_url`
    /// is set, then add these push URLs.
    Update { new_fetch_url: Option<String>, add_push_urls: Vec<String> },
}

/// What happens next in `entangle init`.
#[derive(Debug, Clone)]
pub enum InitStep {
    /// Both push URLs are already configured: print `message` and stop.
    AlreadyConfigured { message: String },
    /// Ask whether to replace the existing fetch URL (Enter means yes); the
    /// answer goes to [`after_replace_answer`].
    AskReplace { question: String },
    /// Ask whether to add the push URLs anyway (Enter means yes); the answer
    /// goes to [`after_proceed_answer`].
    AskProceed { question: String },
    /// Print `message` and stop without changing anything.
    Cancel { message: String },
    /// Make `change`, after printing `note` if there is one.
    Apply { change: RemoteChange, note: Option<String> },
}

/// The push URLs that origin should have, in the order they are added: the
/// mirror forge first, the preferred forge last.
pub open spec fn wanted(origin_url: Seq<char>, mirror_url: Seq<char>) -> Seq<Seq<char>> {
    seq![mirror_url, origin_url]
}

/// The URLs of `want` that `have` lacks, in order.
pub open spec fn missing(have: Seq<Seq<char>>, want: Seq<Seq<char>>) -> Seq<Seq<char>>
    decreases want.len(),
{
    if want.len() == 0 {
        seq![]
    } else if have.contains(want[0]) {
        missing(have, want.drop_first())
    } else {
        seq![want[0]] + missing(have, want.drop_first())
    }
}

/// The push URLs of origin, as the status reports them (none when absent).
pub open spec fn status_push(status: OriginStatus) -> Seq<Seq<char>> {
    match status {
        OriginStatus::Present { push_urls, .. } => string_views(push_urls@),
        OriginStatus::Absent => seq![],
    }
}

pub open spec fn already_configured_message() -> Seq<char> {
    "origin is already configured with both push URLs. Nothing to do."@
}

pub open spec fn replace_question(fetch_url: Seq<char>, origin_url: Seq<char>) -> Seq<char> {
    "An origin remote already exists: "@ + fetch_url + "\nReplace it with "@ + origin_url + "?"@
}

pub open spec fn proceed_question() -> Seq<char> {
    "Add push URLs to existing origin anyway?"@
}

pub open spec fn keep_note(fetch_url: Seq<char>) -> Seq<char> {
    "Note: origin keeps fetching from "@ + fetch_url + "; the push URLs are added to it."@
}

pub open spec fn cancel_message() -> Seq<char> {
    "Init cancelled. The origin remote was left unchanged."@
}

/// `step` adds the missing push URLs to the existing origin, replacing its
/// fetch URL by `new_fetch` when that is set.
pub open spec fn updates(
    step: InitStep,
    status: OriginStatus,
    origin_url: Seq<char>,
    mirror_url: Seq<char>,
    new_fetch: Option<Seq<char>>,
) -> bool {
    step matches InitStep::Apply { change: RemoteChange::Update { new_fetch_url, add_push_urls }, .. }
        && crate::config::opt_view(new_fetch_url) == new_fetch && string_views(add_push_urls@)
        == missing(status_push(status), wanted(origin_url, mirror_url))
}

fn contains_string(v: &Vec<String>, s: &str) -> (r: bool)
    ensures
        r == string_views(v@).contains(s@),
{
    let mut i: usize = 0;
    while i < v.len()
        invariant
            i <= v@.len(),
            forall|j: int| 0 <= j < i ==> string_views(v@)[j] != s@,
        decreases v@.len() - i,
    {
        if str_eq(v[i].as_str(), s) {
            assert(string_views(v@)[i as int] == s@);
            return true;
        }
        i = i + 1;
    }
    proof {
        if string_views(v@).contains(s@) {
            let k = choose|k: int| 0 <= k < string_views(v@).len() && string_views(v@)[k] == s@;
            assert(string_views(v@)[k] != s@);
        }
    }
    false
}

/// The push URLs of `wanted(origin_url, mirror_url)` that `have` lacks.
fn missing_urls(have: &Vec<String>, origin_url: &str, mirror_url: &str) -> (r: Vec<String>)
    ensures
        string_views(r@) == missing(string_views(have@), wanted(origin_url@, mirror_url@)),
{
    let mut add: Vec<String> = Vec::new();
    let has_mirror = contains_string(have, mirror_url);
    let has_origin = contains_string(have, origin_url);
    if !has_mirror {
        add.push(String::from_str(mirror_url));
    }
    if !has_origin {
        add.push(String::from_str(origin_url));
    }
    proof {
        let w = wanted(origin_url@, mirror_url@);
        let h = string_views(have@);
        let w1 = w.drop_first();
        assert(w1 =~= seq![origin_url@]);
        assert(w1.drop_first() =~= Seq::<Seq<char>>::empty());
        assert(missing(h, w1.drop_first()) == Seq::<Seq<char>>::empty());
        let m1 = missing(h, w1);
        if has_origin {
            assert(m1 =~= Seq::<Seq<char>>::empty());
        } else {
            assert(m1 =~= seq![origin_url@]);
        }
        let m = missing(h, w);
        if has_mirror {
            assert(m == m1);
        } else {
            assert(m == seq![mirror_url@] + m1);
        }
        assert(string_views(add@) =~= m);
    }
    add
}

fn present_push(status: &OriginStatus) -> (r: Vec<String>)
    ensures
        string_views(r@) == status_push(*status),
{
    match status {
        OriginStatus::Present { push_urls, .. } => {
            let mut v: Vec<String> = Vec::new();
            let mut i: usize = 0;
            while i < push_urls.len()
                invariant
                    i <= push_urls@.len(),
                    string_views(v@) == string_views(push_urls@).take(i as int),
                decreases push_urls@.len() - i,
            {
                v.push(push_urls[i].clone());
                proof {
                    assert(string_views(push_urls@).take(i + 1) =~= string_views(push_urls@).take(
                        i as int,
                    ).push(push_urls@[i as int]@));
                    assert(string_views(v@) =~= string_views(push_urls@).take(i + 1));
                }
                i = i + 1;
            }
            proof {
                assert(string_views(push_urls@).take(push_urls@.len() as int) =~= string_views(
                    push_urls@,
                ));
            }
            v
        },
        OriginStatus::Absent => {
            let v: Vec<String> = Vec::new();
            assert(string_views(v@) =~= Seq::<Seq<char>>::empty());
            v
        },
    }
}

/// The first decision about `origin`, given its current status and the URLs
/// of the preferred forge (`origin_url`) and of the mirror.
///
/// Without an origin, one is created with both push URLs. With both push
/// URLs already present there is nothing to do. Otherwise, when origin
/// already fetches from `origin_url`, the missing push URLs are added; when
/// it fetches from somewhere else, the user is asked whether to replace that.
pub fn plan_remotes(status: &OriginStatus, origin_url: &str, mirror_url: &str) -> (r: InitStep)
    ensures
        match *status {
            OriginStatus::Absent => r matches InitStep::Apply {
                change: RemoteChange::Create { fetch_url, push_urls },
                note: None,
            } && fetch_url@ == origin_url@ && string_views(push_urls@) == wanted(
                origin_url@,
                mirror_url@,
            ),
            OriginStatus::Present { fetch_url, push_urls } => if missing(
                string_views(push_urls@),
                wanted(origin_url@, mirror_url@),
            ).len() == 0 {
                r matches InitStep::AlreadyConfigured { message } && message@
                    == already_configured_message()
            } else if fetch_url@ == origin_url@ {
                updates(r, *status, origin_url@, mirror_url@, None) && r->note is None
            } else {
                r matches InitStep::AskReplace { question } && question@ == replace_question(
                    fetch_url@,
                    origin_url@,
                )
            },
        },
{
    match status {
        OriginStatus::Absent => {
            let mut push_urls: Vec<String> = Vec::new();
            push_urls.push(String::from_str(mirror_url));
            push_urls.push(String::from_str(origin_url));
            proof {
                assert(string_views(push_urls@) =~= wanted(origin_url@, mirror_url@));
            }
            InitStep::Apply {
                change: RemoteChange::Create { fetch_url: String::from_str(origin_url), push_urls },
                note: None,
            }
        },
        OriginStatus::Present { fetch_url, push_urls } => {
            let add = missing_urls(push_urls, origin_url, mirror_url);
            if add.len() == 0 {
                InitStep::AlreadyConfigured {
                    message: String::from_str(
                        "origin is already configured with both push URLs. Nothing to do.",
                    ),
                }
            } else if str_eq(fetch_url.as_str(), origin_url) {
                InitStep::Apply {
                    change: RemoteChange::Update { new_fetch_url: None, add_push_urls: add },
                    note: None,
                }
            } else {
                let head = concat3(
                    "An origin remote already exists: ",
                    fetch_url.as_str(),
                    "\nReplace it with ",
                );
                InitStep::AskReplace { question: concat3(head.as_str(), origin_url, "?") }
            }
        },
    }
}

/// The step after the answer to the replace question: yes replaces the fetch
/// URL by `origin_url` and adds the missing push URLs; no asks whether to add
/// the push URLs anyway.
pub fn after_replace_answer(status: &OriginStatus, origin_url: &str, mirror_url: &str, replace: bool) -> (r: InitStep)
    ensures
        replace ==> updates(r, *status, origin_url@, mirror_url@, Some(origin_url@)) && r->note is None,
        !replace ==> (r matches InitStep::AskProceed { question } && question@ == proceed_question()),
{
    if replace {
        let have = present_push(status);
        let add = missing_urls(&have, origin_url, mirror_url);
        InitStep::Apply {
            change: RemoteChange::Update {
                new_fetch_url: Some(String::from_str(origin_url)),
                add_push_urls: add,
            },
            note: None,
        }
    } else {
        InitStep::AskProceed {
            question: String::from_str("Add push URLs to existing origin anyway?"),
        }
    }
}

/// The step after the answer to the add-anyway question: yes adds the
/// missing push URLs and keeps the fetch URL, with a note saying so; no
/// cancels, leaving origin as it was.
pub fn after_proceed_answer(status: &OriginStatus, origin_url: &str, mirror_url: &str, proceed: bool) -> (r: InitStep)
    ensures
        proceed ==> updates(r, *status, origin_url@, mirror_url@, None) && match *status {
            OriginStatus::Present { fetch_url, .. } => r->note matches Some(n) && n@ == keep_note(
                fetch_url@,
            ),
            OriginStatus::Absent => r->note is None,
        },
        !proceed ==> (r matches InitStep::Cancel { message } && message@ == cancel_message()),
{
    if proceed {
        let have = present_push(status);
        let add = missing_urls(&have, origin_url, mirror_url);
        let note = match status {
            OriginStatus::Present { fetch_url, .. } => Some(
                concat3(
                    "Note: origin keeps fetching from ",
                    fetch_url.as_str(),
                    "; the push URLs are added to it.",
                ),
            ),
            OriginStatus::Absent => None,
        };
        InitStep::Apply {
            change: RemoteChange::Update { new_fetch_url: None, add_push_urls: add },
            note,
        }
    } else {
        InitStep::Cancel {
            message: String::from_str("Init cancelled. The origin remote was left unchanged."),
        }
    }
}

// ---------------------------------------------------------------------------
// Law: after init, git pushes origin to both forges
// ---------------------------------------------------------------------------

/// The text of `.git/config` after a change: a created origin is appended;
/// an update replaces the fetch URL if asked, then inserts the push URLs.
pub open spec fn changed_text(
    config_text: Seq<char>,
    create: bool,
    fetch_url: Seq<char>,
    new_fetch: Option<Seq<char>>,
    urls: Seq<Seq<char>>,
) -> Seq<char> {
    if create {
        config_text + spec_origin_section(fetch_url, urls)
    } else {
        let t = match new_fetch {
            Some(f) => spec_replace_url_in_origin_section(config_text, f),
            None => config_text,
        };
        spec_insert_push_urls_in_config(t, urls)
    }
}

proof fn lemma_missing_covers(have: Seq<Seq<char>>, want: Seq<Seq<char>>, u: Seq<char>)
    requires
        want.contains(u),
    ensures
        have.contains(u) || missing(have, want).contains(u),
    decreases want.len(),
{
    if want[0] == u {
        if !have.contains(u) {
            assert(missing(have, want)[0] == u);
        }
    } else {
        let k = choose|k: int| 0 <= k < want.len() && want[k] == u;
        assert(want.drop_first()[k - 1] == u);
        lemma_missing_covers(have, want.drop_first(), u);
        if !have.contains(want[0]) {
            if missing(have, want.drop_first()).contains(u) {
                let j = choose|j: int| 0 <= j < missing(have, want.drop_first()).len() && missing(
                    have,
                    want.drop_first(),
                )[j] == u;
                assert(missing(have, want)[j + 1] == u);
            }
        }
    }
}

proof fn lemma_missing_clean(have: Seq<Seq<char>>, want: Seq<Seq<char>>)
    requires
        clean_urls(want),
    ensures
        clean_urls(missing(have, want)),
    decreases want.len(),
{
    if want.len() > 0 {
        assert(clean_urls(want.drop_first())) by {
            assert forall|i: int| 0 <= i < want.drop_first().len() implies crate::text::trim(
                #[trigger] want.drop_first()[i],
            ) == want.drop_first()[i] && !contains_char(want.drop_first()[i], '\n') by {
                assert(want.drop_first()[i] == want[i + 1]);
            }
        }
        lemma_missing_clean(have, want.drop_first());
        let m = missing(have, want);
        let m1 = missing(have, want.drop_first());
        assert forall|i: int| 0 <= i < m.len() implies crate::text::trim(#[trigger] m[i]) == m[i]
            && !contains_char(m[i], '\n') by {
            if !have.contains(want[0]) {
                if i > 0 {
                    assert(m[i] == m1[i - 1]);
                } else {
                    assert(m[0] == want[0]);
                }
            }
        }
    }
}

proof fn lemma_contains_after_insert(r: Seq<Seq<char>>, k: int, add: Seq<Seq<char>>, u: Seq<char>)
    requires
        0 <= k <= r.len(),
        r.contains(u) || add.contains(u),
    ensures
        (r.take(k) + add + r.skip(k)).contains(u),
{
    let s = r.take(k) + add + r.skip(k);
    if add.contains(u) {
        let j = choose|j: int| 0 <= j < add.len() && add[j] == u;
        assert(s[k + j] == u);
    } else {
        let j = choose|j: int| 0 <= j < r.len() && r[j] == u;
        if j < k {
            assert(s[j] == u);
        } else {
            assert(s[add.len() + j] == u);
        }
    }
}

/// After `entangle init` applies its change, git reads both the mirror URL
/// and the preferred forge's URL among `origin`'s push URLs, so one push
/// reaches both forges. For a created origin the two are exactly the new
/// push URLs after any read before; for an updated one, every push URL read
/// before is still read, and the missing ones are added.
///
/// `status_push_urls` are the push URLs read from `config_text` before the
/// change; an update needs the text to hold a `[remote "origin"]` header, as
/// it does whenever origin exists in the form that `entangle` writes.
pub proof fn law_init_configures_both_push_urls(
    config_text: Seq<char>,
    create: bool,
    origin_url: Seq<char>,
    mirror_url: Seq<char>,
    replace: bool,
)
    requires
        clean_urls(wanted(origin_url, mirror_url)),
        !create ==> has_origin_header(lines(config_text)),
    ensures
        ({
            let before = spec_push_urls(config_text, "origin"@);
            let urls = if create {
                wanted(origin_url, mirror_url)
            } else {
                missing(before, wanted(origin_url, mirror_url))
            };
            let after = spec_push_urls(
                changed_text(
                    config_text,
                    create,
                    origin_url,
                    if replace { Some(origin_url) } else { None },
                    urls,
                ),
                "origin"@,
            );
            &&& after.contains(origin_url)
            &&& after.contains(mirror_url)
            &&& forall|u: Seq<char>| before.contains(u) ==> after.contains(u)
        }),
{
    let w = wanted(origin_url, mirror_url);
    let before = spec_push_urls(config_text, "origin"@);
    assert(w[0] == mirror_url && w[1] == origin_url);
    assert(w.contains(origin_url));
    assert(w.contains(mirror_url));
    assert(!contains_char(origin_url, '\n'));
    if create {
        law_origin_section_adds_push_urls(config_text, origin_url, w);
        let after = before + w;
        assert(after[before.len() + 1int] == origin_url);
        assert(after[before.len() as int] == mirror_url);
        assert forall|u: Seq<char>| before.contains(u) implies after.contains(u) by {
            let j = choose|j: int| 0 <= j < before.len() && before[j] == u;
            assert(after[j] == u);
        }
    } else {
        let t = if replace {
            spec_replace_url_in_origin_section(config_text, origin_url)
        } else {
            config_text
        };
        if replace {
            law_replace_url_keeps_push_urls(config_text, origin_url, "origin"@);
            crate::git::lemma_replace_keeps_origin_header(config_text, origin_url);
        }
        assert(spec_push_urls(t, "origin"@) == before);
        assert(has_origin_header(lines(t)));
        let add = missing(before, w);
        lemma_missing_clean(before, w);
        law_insert_push_urls_adds_them(t, add);
        let k = choose|k: int|
            0 <= k <= before.len() && spec_push_urls(spec_insert_push_urls_in_config(t, add), "origin"@)
                == #[trigger] before.take(k) + add + before.skip(k);
        lemma_missing_covers(before, w, origin_url);
        lemma_missing_covers(before, w, mirror_url);
        lemma_contains_after_insert(before, k, add, origin_url);
        lemma_contains_after_insert(before, k, add, mirror_url);
        assert forall|u: Seq<char>| before.contains(u) implies (before.take(k) + add + before.skip(
            k,
        )).contains(u) by {
            lemma_contains_after_insert(before, k, add, u);
        }
    }
}

} // verus!
