use hg_branch::graphemes::{get_graphemes, graphemes_len, normalize_max_length, truncate_label, TruncationPolicy};

fn policy(max_length: i64, symbol: &str) -> TruncationPolicy {
    TruncationPolicy { max_length, symbol: symbol.to_string() }
}

#[test]
fn test_graphemes_len_empty() {
    assert_eq!(graphemes_len(""), 0);
}

#[test]
fn test_graphemes_len_ascii() {
    assert_eq!(graphemes_len("feature-xyz"), 11);
}

#[test]
fn test_graphemes_len_counts_clusters_not_code_points() {
    // a + combining candrabindu, e + combining acute: two clusters, four code points
    assert_eq!(graphemes_len("a\u{310}e\u{301}"), 2);
}

#[test]
fn test_get_graphemes_prefix() {
    assert_eq!(get_graphemes("feature-xyz", 4), "feat");
}

#[test]
fn test_get_graphemes_whole_string_when_length_large() {
    assert_eq!(get_graphemes("feat", 100), "feat");
}

#[test]
fn test_get_graphemes_keeps_clusters_whole() {
    assert_eq!(get_graphemes("a\u{310}e\u{301}xyz", 2), "a\u{310}e\u{301}");
}

#[test]
fn test_truncate_shorter_label_unchanged() {
    let (out, warned) = truncate_label("feat", &policy(10, "\u{2026}"));
    assert_eq!(out, "feat");
    assert!(!warned);
}

#[test]
fn test_truncate_exact_fit_unchanged() {
    let (out, warned) = truncate_label("feature-xyz", &policy(11, "\u{2026}"));
    assert_eq!(out, "feature-xyz");
    assert!(!warned);
}

#[test]
fn test_truncate_cuts_and_marks() {
    let (out, warned) = truncate_label("feature-xyz", &policy(4, "\u{2026}"));
    assert_eq!(out, "feat\u{2026}");
    assert!(!warned);
}

#[test]
fn test_truncate_zero_length_unbounded_and_warned() {
    let (out, warned) = truncate_label("feature-xyz", &policy(0, "\u{2026}"));
    assert_eq!(out, "feature-xyz");
    assert!(warned);
}

#[test]
fn test_truncate_negative_length_unbounded_and_warned() {
    let (out, warned) = truncate_label("feature-xyz", &policy(-3, "\u{2026}"));
    assert_eq!(out, "feature-xyz");
    assert!(warned);
}

#[test]
fn test_truncate_empty_marker_appends_nothing() {
    let (out, warned) = truncate_label("abcdef", &policy(3, ""));
    assert_eq!(out, "abc");
    assert!(!warned);
}

#[test]
fn test_truncate_marker_first_grapheme_only() {
    let (out, _) = truncate_label("abcdef", &policy(3, "=>"));
    assert_eq!(out, "abc=");
}

#[test]
fn test_truncate_counts_grapheme_clusters() {
    let (out, _) = truncate_label("a\u{310}e\u{301}o\u{308}\u{332}xyz", &policy(2, "\u{2026}"));
    assert_eq!(out, "a\u{310}e\u{301}\u{2026}");
}

#[test]
fn test_truncate_idempotent_when_unbounded() {
    let p = policy(0, "\u{2026}");
    let (once, _) = truncate_label("feature-xyz", &p);
    let (twice, _) = truncate_label(once.as_str(), &p);
    assert_eq!(twice, once);
}

#[test]
fn test_truncate_idempotent_when_result_fits() {
    let p = policy(20, "\u{2026}");
    let (once, _) = truncate_label("short", &p);
    let (twice, _) = truncate_label(once.as_str(), &p);
    assert_eq!(twice, once);
}

#[test]
fn test_normalize_max_length_positive() {
    assert_eq!(normalize_max_length(7), (7, false));
}

#[test]
fn test_normalize_max_length_zero() {
    assert_eq!(normalize_max_length(0), (usize::MAX, true));
}

#[test]
fn test_normalize_max_length_negative() {
    assert_eq!(normalize_max_length(-1), (usize::MAX, true));
}
