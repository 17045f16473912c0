use screeny_core::store::{capture_dirs, capture_file_name, fts_query, stale_capture_ids, CAPTURES_DIR};

#[test]
fn fts_query_quotes_each_term() {
    assert_eq!(fts_query("cargo release"), "\"cargo\" \"release\"");
    assert_eq!(fts_query("  terminal  "), "\"terminal\"");
    assert_eq!(fts_query("\"unbalanced OR ("), "\"\"\"unbalanced\" \"OR\" \"(\"");
}

#[test]
fn blank_search_builds_no_query() {
    assert_eq!(fts_query(""), "");
    assert_eq!(fts_query(" \t\n "), "");
}

#[test]
fn removes_rows_for_missing_files_and_keeps_existing_ones() {
    let captures = vec![(1, "present.jpg".to_string()), (2, "deleted.jpg".to_string())];
    assert_eq!(stale_capture_ids(&captures, &vec![true, false]), vec![2]);
}

#[test]
fn empty_store_is_a_no_op() {
    assert!(stale_capture_ids(&vec![], &vec![]).is_empty());
}

#[test]
fn builds_dated_path_pieces() {
    let (y, m, d) = capture_dirs(2026, 7, 2);
    let s = format!("{CAPTURES_DIR}/{y}/{m}/{d}/");
    assert!(s.contains("captures/2026/07/02/"), "got {s}");
    let name = capture_file_name(15, 4, 5, 7, "jpg");
    assert_eq!(name, "screen_150405_007.jpg");
    assert!(name.ends_with(".jpg"));
    assert_eq!(capture_dirs(12345, 12, 31), ("12345".to_string(), "12".to_string(), "31".to_string()));
}
