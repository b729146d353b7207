use build_cleaner::execute::Decision;
use build_cleaner::interactive::{confirm_deletion, confirm_item_deletion, is_yes};
use build_cleaner::report::{ReportGenerator, Stats};
use build_cleaner::delete::DeleteResult;
use build_cleaner::search::SearchResult;

#[test]
fn test_confirm_deletion_format() {
    let search_result = SearchResult {
        folders: vec!["/test/dir1".to_string()],
        files: vec!["/test/file1.txt".to_string()],
        total_size: 1024,
        total_dirs_scanned: 1,
        total_files_scanned: 1,
    };

    let _ = search_result.folders.len();
    let _ = search_result.files.len();
}

#[test]
fn test_collect_stats() {
    let search_result = SearchResult {
        folders: vec!["/test/dir1".to_string(), "/test/dir2".to_string()],
        files: vec!["/test/file1.txt".to_string(), "/test/file2.txt".to_string()],
        total_size: 2048,
        total_dirs_scanned: 10,
        total_files_scanned: 20,
    };

    let delete_result = DeleteResult {
        deleted_files: vec!["/test/file1.txt".to_string()],
        deleted_dirs: vec!["/test/dir1".to_string()],
        failed_files: vec![("/test/file2.txt".to_string(), "Permission denied".to_string())],
        failed_dirs: vec![],
        total_size: 1024,
    };

    let elapsed = std::time::Duration::from_millis(10);
    let stats: Stats = ReportGenerator::collect_stats(&search_result, &delete_result, elapsed);

    assert_eq!(stats.files_scanned, 20);
    assert_eq!(stats.dirs_scanned, 10);
    assert_eq!(stats.files_deleted, 1);
    assert_eq!(stats.dirs_deleted, 1);
    assert_eq!(stats.files_failed, 1);
    assert_eq!(stats.dirs_failed, 0);
    assert_eq!(stats.space_freed, 1024);
    assert!(stats.time_taken.as_millis() >= 10);
}

#[test]
fn answers_about_one_item() {
    for line in ["y", "yes", "Y", "YES", " yes \n", "\tYeS\r\n"] {
        assert_eq!(confirm_item_deletion(line), Decision::Proceed, "{:?}", line);
    }
    for line in ["a", "all", "A\n", " ALL "] {
        assert_eq!(confirm_item_deletion(line), Decision::AcceptAll, "{:?}", line);
    }
    for line in ["q", "quit", "Q\n", " Quit"] {
        assert_eq!(confirm_item_deletion(line), Decision::Abort, "{:?}", line);
    }
    for line in ["", "\n", "n", "N", "no", "yess", "y e s", "ye", "al", "qu", "quit!", "1"] {
        assert_eq!(confirm_item_deletion(line), Decision::Skip, "{:?}", line);
    }
}

#[test]
fn answers_already_trimmed() {
    assert_eq!(Decision::from_answer("y"), Decision::Proceed);
    assert_eq!(Decision::from_answer("yes"), Decision::Proceed);
    assert_eq!(Decision::from_answer("a"), Decision::AcceptAll);
    assert_eq!(Decision::from_answer("all"), Decision::AcceptAll);
    assert_eq!(Decision::from_answer("q"), Decision::Abort);
    assert_eq!(Decision::from_answer("quit"), Decision::Abort);
    assert_eq!(Decision::from_answer("Y"), Decision::Skip);
    assert_eq!(Decision::from_answer(" y"), Decision::Skip);
    assert_eq!(Decision::from_answer(""), Decision::Skip);
    assert!(is_yes("y"));
    assert!(is_yes("yes"));
    assert!(!is_yes("Y"));
    assert!(!is_yes("a"));
}

#[test]
fn answers_about_the_whole_run() {
    for line in ["y", "yes\n", "  Y  ", "YES"] {
        assert!(confirm_deletion(line), "{:?}", line);
    }
    for line in ["", "n", "a", "all", "q", "yep", "\n"] {
        assert!(!confirm_deletion(line), "{:?}", line);
    }
}

#[test]
fn listing_limit() {
    assert_eq!(ReportGenerator::display_count(0, false), 0);
    assert_eq!(ReportGenerator::display_count(49, false), 49);
    assert_eq!(ReportGenerator::display_count(50, false), 50);
    assert_eq!(ReportGenerator::display_count(51, false), 50);
    assert_eq!(ReportGenerator::display_count(5000, false), 50);
    assert_eq!(ReportGenerator::display_count(5000, true), 5000);
}
