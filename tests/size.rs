use dir_search::size::folder_size;
use dir_search::walk::{search_pattern, size_pattern, within_root};

#[test]
fn empty_tree_has_size_zero() {
    assert_eq!(folder_size(&vec![]), 0);
}

#[test]
fn sizes_add_up() {
    assert_eq!(folder_size(&vec![Some(100), Some(250), Some(0)]), 350);
}

#[test]
fn unreadable_files_count_as_zero() {
    assert_eq!(folder_size(&vec![Some(5), None, Some(7)]), 12);
    assert_eq!(folder_size(&vec![None]), 0);
}

#[test]
fn huge_sum_saturates() {
    assert_eq!(folder_size(&vec![Some(u64::MAX - 1), Some(5)]), u64::MAX);
}

#[test]
fn patterns_under_root() {
    assert_eq!(size_pattern("./DIR"), "./DIR/**/*");
    assert_eq!(search_pattern("./DIR"), "./DIR/**/*.txt");
}

#[test]
fn paths_below_root() {
    assert!(within_root("/srv/DIR", "/srv/DIR/a.txt"));
    assert!(within_root("/srv/DIR", "/srv/DIR/sub/b.txt"));
    assert!(!within_root("/srv/DIR", "/srv/DIR"));
    assert!(!within_root("/srv/DIR", "/srv/DIRX/a.txt"));
    assert!(!within_root("/srv/DIR", "/etc/passwd"));
    assert!(within_root("/", "/etc/passwd"));
    assert!(!within_root("/srv/DIR", "/srv"));
}
