//! Project names, project filters, queries and the texts they are made of.
use claude_vault::format_project_name;
use claude_vault::fts::{escape_fts_query, limit_param};
use claude_vault::project::normalize_project_filter;
use claude_vault::sessions::{choose_preview, is_meaningful_preview};
use claude_vault::text::{
    begins_like, chars_of, find, fold, has, push_decimal, push_joined, push_signed_decimal, replaced, split_words,
    string_of, trimmed, Separator,
};
use claude_vault::vault::schema_is_current;

#[test]
fn hosted_directories_are_shown_as_user_and_repository() {
    assert_eq!(format_project_name("-home-murou-ghq-github-com-user-repo"), "user/repo");
    assert_eq!(format_project_name("-home-u-github-com-user-my-long-repo"), "user/my-long-repo");
    assert_eq!(format_project_name("github-com-user-repo"), "user/repo");
    assert_eq!(format_project_name("-github-com--x"), "/x");
}

#[test]
fn first_host_counts() {
    assert_eq!(
        format_project_name("-a-github-com-u-r-github-com-v-s"),
        "u/r-github-com-v-s"
    );
    assert_eq!(format_project_name("-github-github-com-u-r"), "u/r");
}

#[test]
fn host_without_a_repository_is_a_plain_directory() {
    assert_eq!(format_project_name("-home-github-com-user"), "com/user");
    assert_eq!(format_project_name("-github-com-user"), "com/user");
}

#[test]
fn worktrees_are_shown_like_their_repository() {
    let plain = "-home-u-github-com-user-repo";
    let name = format_project_name(plain);
    assert_eq!(name, "user/repo");
    for tail in ["", "-feature", "-a--worktrees-b"] {
        assert_eq!(format_project_name(&format!("{plain}--worktrees{tail}")), name);
    }
    assert_eq!(format_project_name("-github-com-user--worktrees-x"), "user/-worktrees-x");
}

#[test]
fn plain_directories_are_shown_by_their_last_pieces() {
    assert_eq!(format_project_name("-home-user-work"), "user/work");
    assert_eq!(format_project_name("-home-user--work-"), "user/work");
    assert_eq!(format_project_name("a-b"), "a-b");
    assert_eq!(format_project_name("--a-b"), "--a-b");
    assert_eq!(format_project_name("proj"), "proj");
    assert_eq!(format_project_name("---"), "---");
    assert_eq!(format_project_name(""), "");
    assert_eq!(format_project_name("-家-プロジェクト-日本"), "プロジェクト/日本");
}

/// Whether the pattern of a filter finds a directory, by plain text.
fn found(filter: &str, raw: &str) -> bool {
    let pattern = normalize_project_filter(filter);
    let piece = pattern.strip_prefix('%').unwrap().strip_suffix('%').unwrap();
    raw.contains(piece)
}

#[test]
fn filters_stand_anywhere_with_hyphens_for_slashes() {
    assert_eq!(normalize_project_filter("owner/repo"), "%owner-repo%");
    assert_eq!(normalize_project_filter("repo"), "%repo%");
    assert_eq!(normalize_project_filter("a/b/c"), "%a-b-c%");
    assert_eq!(normalize_project_filter(""), "%%");
    assert!(found("user/repo", "-home-foo-ghq-github-com-user-repo"));
}

#[test]
fn shown_names_find_their_directories() {
    for raw in [
        "-home-murou-ghq-github-com-user-repo",
        "/srv/x-github-com-user-repo",
        "-home-u-github-com-user-repo--worktrees-x",
        "-home-user-work",
        "-home-user-work--",
        "a-b",
        "proj",
    ] {
        assert!(found(&format_project_name(raw), raw), "{raw}");
    }
    // Names with a slash of their own, or with pieces that are no neighbours, do not.
    for raw in ["x-github-com-a/b-c", "-x-a--b", "a/b"] {
        assert!(!found(&format_project_name(raw), raw), "{raw}");
    }
}

#[test]
fn words_are_quoted() {
    assert_eq!(escape_fts_query("hello"), "\"hello\"");
    assert_eq!(escape_fts_query("  error\thandling \n rust "), "\"error\" \"handling\" \"rust\"");
    assert_eq!(escape_fts_query("a AND"), "\"a\" \"AND\"");
    assert_eq!(escape_fts_query("foo* (bar)"), "\"foo*\" \"(bar)\"");
    assert_eq!(escape_fts_query("a\u{3000}b\u{a0}c"), "\"a\" \"b\" \"c\"");
}

#[test]
fn explicit_syntax_is_left_alone() {
    for query in [
        "\"error handling\" AND rust",
        "a AND b",
        "a OR b",
        "a NOT b",
        "say \"",
        "  \"x\"  ",
        " AND ",
    ] {
        assert_eq!(escape_fts_query(query), query);
    }
}

#[test]
fn blank_queries_escape_to_nothing() {
    assert_eq!(escape_fts_query(""), "");
    assert_eq!(escape_fts_query(" \t\n\u{2003}"), "");
    assert_ne!(escape_fts_query(" . "), "");
}

#[test]
fn escaping_twice_changes_nothing() {
    for query in ["", "  ", "hello world", "a AND b", "x \"y\" z", "NOT"] {
        let once = escape_fts_query(query);
        assert_eq!(escape_fts_query(&once), once);
    }
}

#[test]
fn limits_that_cannot_be_bound_are_no_limits() {
    assert_eq!(limit_param(0), 0);
    assert_eq!(limit_param(10), 10);
    assert_eq!(limit_param(i64::MAX as usize), i64::MAX);
    assert_eq!(limit_param(i64::MAX as usize + 1), -1);
    assert_eq!(limit_param(usize::MAX), -1);
}

#[test]
fn white_space_is_that_of_unicode() {
    for code in 0..=u32::from(char::MAX) {
        if let Some(c) = char::from_u32(code) {
            assert_eq!(Separator::WhiteSpace.separates(c), c.is_whitespace(), "{code:x}");
        }
    }
    assert!(Separator::Dash.separates('-'));
    assert!(!Separator::Dash.separates(' '));
}

#[test]
fn case_is_that_of_ascii() {
    for code in 0..=u32::from(char::MAX) {
        if let Some(c) = char::from_u32(code) {
            assert_eq!(fold(c), c.to_ascii_lowercase(), "{code:x}");
        }
    }
    let begins = |text: &str, start: &str| begins_like(&chars_of(text), &chars_of(start));
    assert!(begins("47CF1f2e", "47cF"));
    assert!(begins("abc", ""));
    assert!(begins("", ""));
    assert!(!begins("abc", "abcd"));
    assert!(!begins("abc", "bc"));
    assert!(!begins("été", "ÉTÉ"));
    assert!(!begins("@[", "`{"));
}

#[test]
fn strings_are_built_character_by_character() {
    assert_eq!(string_of(&chars_of("aß漢🦀")), "aß漢🦀");
    assert_eq!(chars_of("aß漢🦀"), ['a', 'ß', '漢', '🦀']);
    assert_eq!(replaced("a\nb\n", '\n', ' '), "a b ");
    assert_eq!(string_of(&trimmed(" \u{a0}x y\n")), "x y");
    assert_eq!(string_of(&trimmed(" \n ")), "");
    let words: Vec<String> = split_words(" a  bc ").iter().map(string_of).collect();
    assert_eq!(words, ["a", "bc"]);
}

#[test]
fn texts_are_searched_from_the_front() {
    let text = chars_of("abcabc");
    assert_eq!(find(&text, &chars_of("bc")), Some(1));
    assert_eq!(find(&text, &chars_of("")), Some(0));
    assert_eq!(find(&text, &chars_of("cb")), None);
    assert_eq!(find(&chars_of(""), &chars_of("")), Some(0));
    assert!(has("porter unicode61", "porter"));
    assert!(!has("port", "porter"));
}

#[test]
fn numbers_are_written_in_decimal() {
    for n in [0, 1, 9, 10, 99, 100, 1_234_567_890, u128::from(u64::MAX) + 1, u128::MAX] {
        let mut text = "#".to_string();
        push_decimal(&mut text, n);
        assert_eq!(text, format!("#{n}"));
    }
    for n in [0, 7, -1, -10, 1205, i64::MAX, i64::MIN] {
        let mut text = String::new();
        push_signed_decimal(&mut text, n);
        assert_eq!(text, n.to_string());
    }
    let mut text = ">".to_string();
    push_joined(&mut text, &vec!["a".to_string(), "b".to_string()], ", ");
    assert_eq!(text, ">a, b");
}

#[test]
fn previews_are_what_a_human_wrote() {
    assert!(is_meaningful_preview("How to auto-archive?"));
    assert!(is_meaningful_preview("  12345  "));
    assert!(!is_meaningful_preview("  1234  "));
    assert!(!is_meaningful_preview(""));
    // Five bytes are enough, not five characters.
    assert!(is_meaningful_preview("日本"));
    assert!(!is_meaningful_preview("日"));
    assert!(!is_meaningful_preview("{\"a\": 1}"));
    assert!(!is_meaningful_preview(" [1, 2, 3]"));
    assert!(!is_meaningful_preview("<system-reminder>"));
    assert!(is_meaningful_preview("a <b> {c} [d]"));
    assert!(!is_meaningful_preview("Tool loaded."));
    assert!(!is_meaningful_preview("\nThis session is being continued from before"));
    assert!(!is_meaningful_preview("Your task is to create a detailed summary of"));
    assert!(is_meaningful_preview("The Tool loaded fine"));
    assert!(is_meaningful_preview("Tool load"));
}

#[test]
fn first_suitable_candidate_is_the_preview() {
    let candidates = |texts: &[&str]| texts.iter().map(|text| text.to_string()).collect();
    assert_eq!(
        choose_preview(candidates(&["ok", "{json}", "  first one ", "second one"])),
        Some("  first one ".to_string())
    );
    assert_eq!(choose_preview(candidates(&["ok", "<tag>"])), None);
    assert_eq!(choose_preview(candidates(&[])), None);
}

#[test]
fn schema_is_current_with_sessions_and_a_stemming_index() {
    assert!(schema_is_current(1, Some("fts5(content, tokenize='porter unicode61')")));
    assert!(!schema_is_current(1, Some("fts5(content, tokenize='unicode61')")));
    assert!(!schema_is_current(1, None));
    assert!(!schema_is_current(0, Some("porter")));
    assert!(!schema_is_current(2, Some("porter")));
}
