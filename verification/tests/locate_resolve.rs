use hg_branch::locate::{find_hg_directory, scan_level, ChildRecord, ScanDecision};
use hg_branch::resolve::resolve;

fn child(name: &str, is_dir: bool) -> ChildRecord {
    ChildRecord::Child { name: name.to_string(), is_dir }
}

fn plain_level() -> Option<Vec<ChildRecord>> {
    Some(vec![child("src", true), child("README.md", false)])
}

fn marker_level() -> Option<Vec<ChildRecord>> {
    Some(vec![child("src", true), child(".hg", true)])
}

#[test]
fn test_scan_level_finds_marker() {
    assert_eq!(scan_level(&marker_level()), ScanDecision::Found);
}

#[test]
fn test_scan_level_ascends_without_marker() {
    assert_eq!(scan_level(&plain_level()), ScanDecision::Ascend);
}

#[test]
fn test_scan_level_aborts_on_unlistable_directory() {
    assert_eq!(scan_level(&None), ScanDecision::Abort);
}

#[test]
fn test_scan_level_marker_must_be_directory() {
    let level = Some(vec![child(".hg", false)]);
    assert_eq!(scan_level(&level), ScanDecision::Ascend);
}

#[test]
fn test_scan_level_unreadable_entry_hides_later_marker() {
    let level = Some(vec![child("src", true), ChildRecord::Unreadable, child(".hg", true)]);
    assert_eq!(scan_level(&level), ScanDecision::Abort);
}

#[test]
fn test_scan_level_marker_before_unreadable_entry_wins() {
    let level = Some(vec![child(".hg", true), ChildRecord::Unreadable]);
    assert_eq!(scan_level(&level), ScanDecision::Found);
}

#[test]
fn test_locate_no_marker_anywhere() {
    let levels = vec![plain_level(), plain_level(), plain_level()];
    let outcome = find_hg_directory(&levels);
    assert_eq!(outcome.found, None);
    assert_eq!(outcome.scanned, 3);
}

#[test]
fn test_locate_marker_at_depth_two_scans_three_levels() {
    let levels = vec![plain_level(), plain_level(), marker_level(), plain_level()];
    let outcome = find_hg_directory(&levels);
    assert_eq!(outcome.found, Some(2));
    assert_eq!(outcome.scanned, 3);
}

#[test]
fn test_locate_marker_at_starting_directory() {
    let levels = vec![marker_level(), plain_level()];
    let outcome = find_hg_directory(&levels);
    assert_eq!(outcome.found, Some(0));
    assert_eq!(outcome.scanned, 1);
}

#[test]
fn test_locate_abort_hides_marker_above() {
    let levels = vec![plain_level(), None, marker_level()];
    let outcome = find_hg_directory(&levels);
    assert_eq!(outcome.found, None);
    assert_eq!(outcome.scanned, 2);
}

#[test]
fn test_locate_no_levels() {
    let levels: Vec<Option<Vec<ChildRecord>>> = Vec::new();
    let outcome = find_hg_directory(&levels);
    assert_eq!(outcome.found, None);
    assert_eq!(outcome.scanned, 0);
}

#[test]
fn test_resolve_prefers_bookmark_over_journal() {
    let bookmark = Some("feature-x\n".to_string());
    let journal = Some("a\nb\nstable\n".to_string());
    assert_eq!(resolve(&bookmark, &journal), "feature-x");
}

#[test]
fn test_resolve_journal_fallback_takes_last_line() {
    let journal = Some("a\nb\nstable\n".to_string());
    assert_eq!(resolve(&None, &journal), "stable");
}

#[test]
fn test_resolve_both_sources_missing() {
    assert_eq!(resolve(&None, &None), "");
}

#[test]
fn test_resolve_empty_journal() {
    assert_eq!(resolve(&None, &Some(String::new())), "");
}

#[test]
fn test_resolve_whitespace_only_journal() {
    assert_eq!(resolve(&None, &Some("  \n \t \n".to_string())), "");
}

#[test]
fn test_resolve_trims_bookmark() {
    assert_eq!(resolve(&Some("  name  ".to_string()), &None), "name");
}

#[test]
fn test_resolve_trims_last_journal_line() {
    let journal = Some("a\n  stable  \n".to_string());
    assert_eq!(resolve(&None, &journal), "stable");
}

#[test]
fn test_resolve_single_line_journal() {
    assert_eq!(resolve(&None, &Some("default\n".to_string())), "default");
}
