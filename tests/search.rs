use dir_search::engine::{
    record_string, search_files, FileAction, LineAction, Search, NO_RESULTS, TRUNCATION_NOTICE,
};

fn file(lines: &[&str]) -> Vec<String> {
    lines.iter().map(|l| l.to_string()).collect()
}

#[test]
fn example_two_files_foo() {
    let files = vec![file(&["foo", "bar", "foobar"]), file(&["baz", "foo"])];
    let r = search_files("foo", &files);
    assert_eq!(
        r,
        vec![
            "[1] Found data: foo".to_string(),
            "[2] Found data: foobar".to_string(),
            "[3] Found data: foo".to_string(),
        ]
    );
}

#[test]
fn empty_query_matches_every_line_verbatim() {
    let files = vec![file(&["alpha", "", "  gamma  "])];
    let r = search_files("", &files);
    assert_eq!(
        r,
        vec![
            "[1] Found data: alpha".to_string(),
            "[2] Found data: ".to_string(),
            "[3] Found data:   gamma  ".to_string(),
        ]
    );
}

#[test]
fn no_files_gives_sentinel() {
    let r = search_files("foo", &vec![]);
    assert_eq!(r, vec![NO_RESULTS.to_string()]);
    assert_eq!(r, vec!["Tidak ada data yang ditemukan.".to_string()]);
}

#[test]
fn no_matching_line_gives_sentinel() {
    let files = vec![file(&["abc", "def"]), file(&[]), file(&["FOO"])];
    let r = search_files("foo", &files);
    assert_eq!(r, vec![NO_RESULTS.to_string()]);
}

#[test]
fn many_matches_are_truncated_to_ten_plus_notice() {
    let a: Vec<String> = (0..7).map(|i| format!("hit a{}", i)).collect();
    let b: Vec<String> = (0..8).map(|i| format!("hit b{}", i)).collect();
    let r = search_files("hit", &vec![a, b]);
    assert_eq!(r.len(), 11);
    for i in 0..7 {
        assert_eq!(r[i], format!("[{}] Found data: hit a{}", i + 1, i));
    }
    for i in 7..10 {
        assert_eq!(r[i], format!("[{}] Found data: hit b{}", i + 1, i - 7));
    }
    assert_eq!(r[10], TRUNCATION_NOTICE.to_string());
    assert_eq!(
        r[10],
        "Hanya 10 hasil yang di akan ditampilkan untuk sekarang, jika ingin lebih silahkan ikuti link."
    );
}

#[test]
fn exactly_ten_matches_also_get_the_notice() {
    let a: Vec<String> = (0..10).map(|i| format!("x{}", i)).collect();
    let r = search_files("x", &vec![a]);
    assert_eq!(r.len(), 11);
    assert_eq!(r[9], "[10] Found data: x9");
    assert_eq!(r[10], TRUNCATION_NOTICE);
}

#[test]
fn one_file_gives_at_most_ten_records() {
    let a: Vec<String> = (0..25).map(|i| format!("m{}", i)).collect();
    let b = file(&["m-late"]);
    let r = search_files("m", &vec![a, b]);
    assert_eq!(r.len(), 11);
    assert_eq!(r[0], "[1] Found data: m0");
    assert_eq!(r[9], "[10] Found data: m9");
    assert!(!r.iter().any(|e| e.contains("m-late")));
}

#[test]
fn few_matches_are_returned_exactly() {
    let files = vec![file(&["one", "two"]), file(&["three", "none"]), file(&["zero"])];
    let r = search_files("o", &files);
    assert_eq!(
        r,
        vec![
            "[1] Found data: one".to_string(),
            "[2] Found data: two".to_string(),
            "[3] Found data: none".to_string(),
            "[4] Found data: zero".to_string(),
        ]
    );
}

#[test]
fn numbering_runs_across_files() {
    let files = vec![file(&["q1"]), file(&[]), file(&["q2", "q3"]), file(&["q4"])];
    let r = search_files("q", &files);
    for (i, e) in r.iter().enumerate() {
        assert!(e.starts_with(&format!("[{}] ", i + 1)));
    }
    assert_eq!(r.len(), 4);
}

#[test]
fn matching_is_case_sensitive_and_literal() {
    let files = vec![file(&["Foo", "f.o", "xfooy", "fo o"])];
    let r = search_files("foo", &files);
    assert_eq!(r, vec!["[1] Found data: xfooy".to_string()]);
    let r = search_files("f.o", &files);
    assert_eq!(r, vec!["[1] Found data: f.o".to_string()]);
}

#[test]
fn unicode_lines_match() {
    let files = vec![file(&["héllo wörld", "plain"])];
    let r = search_files("ö", &files);
    assert_eq!(r, vec!["[1] Found data: héllo wörld".to_string()]);
}

#[test]
fn search_twice_gives_the_same_batch() {
    let files = vec![file(&["foo", "bar", "foobar"]), file(&["baz", "foo"])];
    let first = search_files("ba", &files);
    let second = search_files("ba", &files);
    assert_eq!(first, second);
}

#[test]
fn record_renders_number_and_line() {
    assert_eq!(record_string(1, "foo"), "[1] Found data: foo");
    assert_eq!(record_string(10, ""), "[10] Found data: ");
    assert_eq!(record_string(1234, "x y"), "[1234] Found data: x y");
}

#[test]
fn file_closes_after_ten_hits() {
    let mut s = Search::new("k");
    for i in 0..9 {
        assert_eq!(s.feed_line(&format!("k{}", i)), LineAction::ReadNext);
    }
    assert_eq!(s.feed_line("nothing"), LineAction::ReadNext);
    assert_eq!(s.feed_line("k9"), LineAction::CloseFile);
    assert_eq!(s.feed_line("k10"), LineAction::CloseFile);
    assert_eq!(s.end_file(), FileAction::Stop);
    let r = s.finish();
    assert_eq!(r.len(), 11);
    assert_eq!(r[9], "[10] Found data: k9");
}

#[test]
fn walk_stops_once_cap_is_reached() {
    let mut s = Search::new("z");
    for i in 0..6 {
        assert_eq!(s.feed_line(&format!("z{}", i)), LineAction::ReadNext);
    }
    assert_eq!(s.end_file(), FileAction::OpenNext);
    for i in 6..10 {
        assert_eq!(s.feed_line(&format!("z{}", i)), LineAction::ReadNext);
    }
    assert_eq!(s.end_file(), FileAction::Stop);
    let r = s.finish();
    assert_eq!(r.len(), 11);
    assert_eq!(r[6], "[7] Found data: z6");
    assert_eq!(r[10], TRUNCATION_NOTICE);
}

#[test]
fn empty_search_state_finishes_with_sentinel() {
    let mut s = Search::new("q");
    assert_eq!(s.end_file(), FileAction::OpenNext);
    assert_eq!(s.finish(), vec![NO_RESULTS.to_string()]);
}
