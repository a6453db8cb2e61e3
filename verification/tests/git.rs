//! The text of `.git/config`: section headers, rewriting the origin
//! section, reading push URLs, and the laws that tie them together.

use entangle::git::{
    insert_push_urls_in_config, origin_section_text, parse_push_urls, replace_url_in_origin_section,
    section_header_matches,
};

/// A fresh repository's config, as `git init` writes its first section.
const CORE: &str = "[core]\n\trepositoryformatversion = 0\n\tfilemode = true\n\tbare = false\n";

#[test]
fn section_header_matches_standard_lowercase() {
    assert!(section_header_matches(
        "[remote \"origin\"]",
        "remote",
        "origin"
    ));
}

#[test]
fn section_header_matches_uppercase_section_name() {
    assert!(section_header_matches(
        "[Remote \"origin\"]",
        "remote",
        "origin"
    ));
}

#[test]
fn section_header_matches_allcaps_section_name() {
    assert!(section_header_matches(
        "[REMOTE \"origin\"]",
        "remote",
        "origin"
    ));
}

#[test]
fn section_header_matches_subsection_is_case_sensitive() {
    // Subsection names are case-sensitive per the git config spec.
    assert!(!section_header_matches(
        "[remote \"Origin\"]",
        "remote",
        "origin"
    ));
    assert!(!section_header_matches(
        "[remote \"ORIGIN\"]",
        "remote",
        "origin"
    ));
}

#[test]
fn section_header_matches_different_remote_name() {
    assert!(!section_header_matches(
        "[remote \"upstream\"]",
        "remote",
        "origin"
    ));
}

#[test]
fn section_header_matches_different_section() {
    assert!(!section_header_matches(
        "[branch \"main\"]",
        "remote",
        "origin"
    ));
}

#[test]
fn section_header_matches_no_subsection() {
    assert!(!section_header_matches("[core]", "remote", "origin"));
}



// ── replace_url_in_origin_section ─────────────────────────────────────────

#[test]
fn replace_url_in_origin_section_replaces_url() {
    let config = "[core]\n\trepositoryformatversion = 0\n\n[remote \"origin\"]\n\turl = git@github.com:old/repo.git\n\tfetch = +refs/heads/*:refs/remotes/origin/*\n";
    let result = replace_url_in_origin_section(config, "git@github.com:new/repo.git");
    assert!(
        result.contains("\turl = git@github.com:new/repo.git"),
        "must contain the new url: {result}"
    );
    assert!(
        !result.contains("url = git@github.com:old/repo.git"),
        "must not contain old url: {result}"
    );
    assert!(result.contains("[core]"), "must preserve [core] section");
}

#[test]
fn replace_url_in_origin_section_preserves_indentation() {
    let config = "[remote \"origin\"]\n\t\turl = old\n";
    let result = replace_url_in_origin_section(config, "new");
    // The double-tab indentation from the original must be preserved.
    assert!(
        result.contains("\t\turl = new"),
        "must preserve original indentation: {result}"
    );
}

#[test]
fn replace_url_in_origin_section_does_not_touch_other_remotes() {
    let config =
        "[remote \"upstream\"]\n\turl = upstream_url\n[remote \"origin\"]\n\turl = old_url\n";
    let result = replace_url_in_origin_section(config, "new_url");
    assert!(
        result.contains("upstream_url"),
        "must not modify upstream remote"
    );
    assert!(result.contains("url = new_url"), "must update origin url");
    assert!(!result.contains("url = old_url"), "old url must be gone");
}

#[test]
fn replace_url_in_origin_section_returns_unchanged_when_section_absent() {
    let config = "[core]\n\trepositoryformatversion = 0\n";
    let result = replace_url_in_origin_section(config, "some_url");
    // No [remote "origin"] section — the url must not appear in the result.
    assert!(
        !result.contains("some_url"),
        "must not insert url when section is absent: {result}"
    );
    assert!(
        result.contains("[core]"),
        "core section must still be present"
    );
}

// ── insert_push_urls_in_config ────────────────────────────────────────────

#[test]
fn insert_push_urls_in_config_inserts_before_next_section() {
    let config =
        "[remote \"origin\"]\n\turl = origin_url\n[branch \"main\"]\n\tremote = origin\n";
    let result = insert_push_urls_in_config(config, &["push_url_1", "push_url_2"]);
    let push1_pos = result
        .find("pushurl = push_url_1")
        .expect("push_url_1 must be in result");
    let branch_pos = result
        .find("[branch")
        .expect("[branch] must still be in result");
    assert!(
        push1_pos < branch_pos,
        "pushurls must appear before [branch] header"
    );
    assert!(
        result.contains("pushurl = push_url_2"),
        "push_url_2 must be present"
    );
}

#[test]
fn insert_push_urls_in_config_appends_when_last_section() {
    let config = "[remote \"origin\"]\n\turl = origin_url\n\tfetch = +refs/heads/*\n";
    let result = insert_push_urls_in_config(config, &["push_url_1"]);
    assert!(
        result.contains("\tpushurl = push_url_1"),
        "must add pushurl at end"
    );
}

#[test]
fn insert_push_urls_in_config_uses_tab_indent() {
    let config = "[remote \"origin\"]\n\turl = url\n";
    let result = insert_push_urls_in_config(config, &["my_url"]);
    assert!(
        result.contains("\tpushurl = my_url"),
        "pushurl must be tab-indented: {result}"
    );
}

#[test]
fn insert_push_urls_in_config_returns_unchanged_for_empty_slice() {
    let config = "[remote \"origin\"]\n\turl = url\n";
    let result = insert_push_urls_in_config(config, &[]);
    assert_eq!(
        result, config,
        "empty push_urls must return unchanged string"
    );
}

#[test]
fn insert_push_urls_in_config_returns_unchanged_when_section_absent() {
    let config = "[core]\n\trepositoryformatversion = 0\n";
    let result = insert_push_urls_in_config(config, &["some_url"]);
    // No origin section — string unchanged (modulo the line-by-line reconstruction).
    assert!(
        !result.contains("pushurl"),
        "must not insert pushurl when section is absent"
    );
}

// ── read_push_urls (on the config text) ──────────────────────────────────────

#[test]
fn read_push_urls_handles_case_insensitive_section_name() {
    let config = format!(
        "{CORE}\n[Remote \"origin\"]\n\turl = git@github.com:cyrusae/entangle.git\n\tpushurl = git@tangled.org:atdot.fyi/entangle\n"
    );
    let urls = parse_push_urls(&config, "origin");
    assert_eq!(
        urls,
        vec!["git@tangled.org:atdot.fyi/entangle"],
        "case-insensitive section name must be recognized"
    );
}

#[test]
fn read_push_urls_handles_case_insensitive_key() {
    let config = format!(
        "{CORE}\n[remote \"origin\"]\n\turl = git@github.com:cyrusae/entangle.git\n\tPushUrl = git@tangled.org:atdot.fyi/entangle\n"
    );
    let urls = parse_push_urls(&config, "origin");
    assert_eq!(urls, vec!["git@tangled.org:atdot.fyi/entangle"]);
}

#[test]
fn read_push_urls_collects_across_multiple_sections() {
    let config = format!(
        "{CORE}\n[remote \"origin\"]\n\turl = git@github.com:cyrusae/entangle.git\n\tpushurl = git@github.com:cyrusae/entangle.git\n\n[remote \"origin\"]\n\tpushurl = git@tangled.org:atdot.fyi/entangle\n"
    );
    let urls = parse_push_urls(&config, "origin");
    assert_eq!(
        urls.len(),
        2,
        "both pushurl entries from repeated sections must be collected"
    );
    assert!(urls.contains(&"git@github.com:cyrusae/entangle.git".to_string()));
    assert!(urls.contains(&"git@tangled.org:atdot.fyi/entangle".to_string()));
}

#[test]
fn read_push_urls_returns_empty_for_repo_with_no_pushurl() {
    let config = format!(
        "{CORE}{}",
        origin_section_text("git@github.com:cyrusae/entangle.git", &[])
    );
    let urls = parse_push_urls(&config, "origin");
    assert!(urls.is_empty(), "no pushurl entries should yield empty vec");
}

#[test]
fn read_push_urls_ignores_comments_and_other_remotes() {
    let config = "[remote \"upstream\"]\n\tpushurl = up\n[remote \"origin\"]\n# pushurl = commented\n; pushurl = also\n\tpushurl = a\n[remote \"Origin\"]\n\tpushurl = b\n";
    assert_eq!(parse_push_urls(config, "origin"), vec!["a"]);
    assert_eq!(parse_push_urls(config, "upstream"), vec!["up"]);
}

#[test]
fn read_push_urls_trims_values_and_keeps_inline_comments() {
    let config = "[remote \"origin\"]\n  pushurl =   x y # note  \r\n";
    assert_eq!(parse_push_urls(config, "origin"), vec!["x y # note"]);
}

// ── create_origin_remote (the appended section) ──────────────────────────────

#[test]
fn origin_section_text_has_fetch_refspec_and_push_urls() {
    let text = origin_section_text("git@github.com:a/b.git", &["p1", "p2"]);
    assert_eq!(
        text,
        "\n[remote \"origin\"]\n\turl = git@github.com:a/b.git\n\tfetch = +refs/heads/*:refs/remotes/origin/*\n\tpushurl = p1\n\tpushurl = p2\n"
    );
}

#[test]
fn appended_origin_section_is_read_back() {
    let config = format!(
        "{CORE}{}",
        origin_section_text(
            "git@github.com:cyrusae/entangle.git",
            &["git@tangled.org:atdot.fyi/entangle", "git@github.com:cyrusae/entangle.git"],
        )
    );
    assert_eq!(
        parse_push_urls(&config, "origin"),
        vec!["git@tangled.org:atdot.fyi/entangle", "git@github.com:cyrusae/entangle.git"]
    );
}

// ── set_origin_fetch_url / add_push_urls_to_origin (on the text) ─────────────

#[test]
fn set_origin_fetch_url_preserves_push_urls() {
    let config = format!(
        "{CORE}{}",
        origin_section_text("git@github.com:user/repo.git", &["git@tangled.org:user/repo"])
    );
    let result = replace_url_in_origin_section(&config, "git@github.com:user/other.git");
    assert!(result.contains("\turl = git@github.com:user/other.git\n"), "{result}");
    assert_eq!(parse_push_urls(&result, "origin"), vec!["git@tangled.org:user/repo"]);
}

#[test]
fn add_push_urls_to_origin_appends_to_existing_remote() {
    let config = format!(
        "{CORE}{}",
        origin_section_text("git@github.com:user/repo.git", &["git@github.com:user/repo.git"])
    );
    let result = insert_push_urls_in_config(&config, &["git@tangled.org:user/repo"]);
    assert_eq!(
        parse_push_urls(&result, "origin"),
        vec!["git@github.com:user/repo.git", "git@tangled.org:user/repo"]
    );
}

#[test]
fn insert_goes_before_the_header_that_ends_the_first_origin_section() {
    let config = "[remote \"origin\"]\n\tpushurl = a\n[branch \"main\"]\n[remote \"origin\"]\n\tpushurl = b\n";
    let result = insert_push_urls_in_config(config, &["n"]);
    assert_eq!(
        result,
        "[remote \"origin\"]\n\tpushurl = a\n\tpushurl = n\n[branch \"main\"]\n[remote \"origin\"]\n\tpushurl = b\n"
    );
    assert_eq!(parse_push_urls(&result, "origin"), vec!["a", "n", "b"]);
}

#[test]
fn replace_changes_only_the_first_url_of_origin() {
    let config = "[remote \"origin\"]\n  URL = old\n\turl = second\n";
    let result = replace_url_in_origin_section(config, "new");
    assert_eq!(result, "[remote \"origin\"]\n  url = new\n\turl = second\n");
}

#[test]
fn rewrites_end_every_line_with_a_line_break() {
    let config = "[core]\r\n\tbare = false";
    assert_eq!(replace_url_in_origin_section(config, "x"), "[core]\n\tbare = false\n");
    assert_eq!(insert_push_urls_in_config(config, &["x"]), "[core]\n\tbare = false\n");
}

#[test]
fn header_match_trims_inside_the_brackets() {
    assert!(section_header_matches("[ remote   \"origin\" ]", "remote", "origin"));
    assert!(!section_header_matches("[remote \"origin\" x]", "remote", "origin"));
    assert!(!section_header_matches("remote \"origin\"", "remote", "origin"));
}

#[test]
fn replacing_the_url_twice_changes_nothing_more() {
    let config = "[core]\n\tbare = false\n[remote \"origin\"]\n\turl = old\n\tfetch = +refs/heads/*:refs/remotes/origin/*\n";
    let once = replace_url_in_origin_section(config, "git@github.com:u/r.git");
    assert_eq!(replace_url_in_origin_section(&once, "git@github.com:u/r.git"), once);
    let none = replace_url_in_origin_section(CORE, "x");
    assert_eq!(replace_url_in_origin_section(&none, "x"), none);
}

#[test]
fn a_url_with_a_line_break_is_not_replaced_idempotently() {
    let config = "[remote \"origin\"]\n\turl = old\n";
    let once = replace_url_in_origin_section(config, "x\nurl = y");
    assert_eq!(once, "[remote \"origin\"]\n\turl = x\nurl = y\n");
    let twice = replace_url_in_origin_section(&once, "x\nurl = y");
    assert_eq!(twice, "[remote \"origin\"]\n\turl = x\nurl = y\nurl = y\n");
}
