use artifact_cli::slug::{is_ascii_alphanumeric, is_whitespace};
use artifact_cli::slug::title_from_parts;
use artifact_cli::text::{
    chars_of, contains_str, replace_char_in, replace_str, str_equal, string_from_chars,
};
use artifact_cli::{infer_functions, slugify, slugify_lowered, titleize, ArtifactInput};

#[test]
fn whitespace_test_agrees_with_std_on_every_char() {
    for u in 0u32..=0x10FFFF {
        if let Some(c) = char::from_u32(u) {
            assert_eq!(is_whitespace(c), c.is_whitespace(), "U+{:04X}", u);
            assert_eq!(is_ascii_alphanumeric(c), c.is_ascii_alphanumeric(), "U+{:04X}", u);
        }
    }
}

#[test]
fn slugify_collapses_separators_and_trims() {
    assert_eq!(slugify("  Hacker News!! "), "hacker_news");
    assert_eq!(slugify("GitHub   Repo"), "github_repo");
    assert_eq!(slugify("a__b"), "a_b");
    assert_eq!(slugify("--lead-and-trail--"), "lead_and_trail");
    assert_eq!(slugify("Top-Stories v2"), "top_stories_v2");
}

#[test]
fn slugify_falls_back_to_artifact() {
    assert_eq!(slugify(""), "artifact");
    assert_eq!(slugify("   "), "artifact");
    assert_eq!(slugify("___"), "artifact");
    assert_eq!(slugify("!!!"), "artifact");
}

#[test]
fn slugify_lowercases_unicode_and_drops_non_ascii() {
    assert_eq!(slugify("ÀB c"), "b_c");
    assert_eq!(slugify("\u{00A0}Linear\u{3000}"), "linear");
    assert_eq!(slugify("KELVIN\u{212A}"), "kelvink");
}

#[test]
fn slugify_keeps_lowercase_slugs() {
    for s in ["hackernews", "github_repo", "a_b_c", "top_stories_v2", "artifact"] {
        assert_eq!(slugify(s), s);
        assert_eq!(slugify(&slugify(s)), slugify(s));
    }
}

#[test]
fn slugify_lowered_skips_lowercasing() {
    let lowered: Vec<char> = "Ab  Cd".chars().collect();
    assert_eq!(slugify_lowered(&lowered), "Ab_Cd");
    assert_eq!(slugify_lowered(&Vec::new()), "artifact");
}

#[test]
fn titleize_capitalizes_words() {
    assert_eq!(titleize("stale_prs"), "Stale Prs");
    assert_eq!(titleize("__a__b_"), "A B");
    assert_eq!(titleize(""), "");
    assert_eq!(titleize("get_item"), "Get Item");
    assert_eq!(titleize("ßtraße"), "SStraße");
}

#[test]
fn case_mappings_follow_std() {
    assert_eq!(slugify("ABC"), "abc");
    assert_eq!(slugify("İstanbul"), "i_stanbul");
    assert_eq!(titleize("ßa"), "SSa");
    assert_eq!(titleize("7_up"), "7 Up");
    let input = ArtifactInput {
        name: "HN".into(),
        goal: None,
        source_type: None,
        source: None,
        functions: vec![],
        output_dir: None,
    };
    assert_eq!(infer_functions(&input), vec!["top_stories", "get_item", "search_cached_stories"]);
}

#[test]
fn title_from_given_first_characters() {
    let words = vec![vec!['a', 'b'], vec!['c'], vec![]];
    let firsts = vec![vec!['X'], vec!['Y', 'Z'], vec!['W']];
    assert_eq!(title_from_parts(&words, &firsts), "Xb YZ W");
    assert_eq!(title_from_parts(&vec![], &vec![]), "");
}

#[test]
fn substring_and_replacement() {
    assert!(contains_str("repo and pull request", "pull request"));
    assert!(contains_str("abc", ""));
    assert!(!contains_str("ab", "abc"));
    assert!(!contains_str("issu", "issue"));
    assert_eq!(replace_str("hackernews::top_stories", "::", "_"), "hackernews_top_stories");
    assert_eq!(replace_str("a:::b", "::", "_"), "a_:b");
    assert_eq!(replace_char_in("github_repo_x", '_', '-'), "github-repo-x");
    assert!(str_equal("hn", "hn"));
    assert!(!str_equal("hn", "hnx"));
    assert_eq!(chars_of("héllo"), vec!['h', 'é', 'l', 'l', 'o']);
    assert_eq!(string_from_chars(&vec!['o', 'k']), "ok");
}

#[test]
fn slug_laws_on_examples() {
    for s in ["Hacker News", "KELVIN\u{212A} x", "  __Ünïcode--Name__ ", "İstanbul", ""] {
        let once = slugify(s);
        assert_eq!(slugify(&once), once);
        assert!(once.chars().all(|c| c.is_ascii_lowercase() || c.is_ascii_digit() || c == '_'));
        assert_eq!(slugify(&s.to_ascii_uppercase()), once);
        assert_eq!(slugify(&s.to_ascii_lowercase()), once);
        assert_eq!(titleize(&once).to_ascii_lowercase().replace(' ', "_"), once);
    }
}
