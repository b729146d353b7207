use build_cleaner::delete::DeleteResult;
use build_cleaner::report::{ReportGenerator, Stats};
use std::time::Duration;

fn seconds(stats: &Stats) -> String {
    format!("{:.2}", stats.time_taken.as_secs_f64())
}

fn nothing_deleted() -> DeleteResult {
    DeleteResult {
        deleted_files: vec![],
        deleted_dirs: vec![],
        failed_files: vec![],
        failed_dirs: vec![],
        total_size: 0,
    }
}

fn freed(space_freed: u64) -> Stats {
    Stats {
        files_scanned: 0,
        dirs_scanned: 0,
        files_deleted: 0,
        dirs_deleted: 0,
        files_failed: 0,
        dirs_failed: 0,
        space_freed,
        time_taken: Duration::from_secs(0),
    }
}

#[test]
fn test_format_report() {
    let stats = Stats {
        files_scanned: 10,
        dirs_scanned: 5,
        files_deleted: 8,
        dirs_deleted: 4,
        files_failed: 2,
        dirs_failed: 1,
        space_freed: 1024 * 1024,
        time_taken: Duration::from_secs(1),
    };

    let delete_result = nothing_deleted();

    let verbose_report =
        ReportGenerator::format_report(&stats, &delete_result, true, &seconds(&stats));
    assert!(verbose_report.contains("Files scanned: 10"));
    assert!(verbose_report.contains("Directories scanned: 5"));
    assert!(verbose_report.contains("Files deleted: 8"));
    assert!(verbose_report.contains("Space freed"));

    let simple_report =
        ReportGenerator::format_report(&stats, &delete_result, false, &seconds(&stats));
    assert!(simple_report.contains("Cleaned 4 directories"));
    assert!(simple_report.contains("8 files"));
    assert!(simple_report.contains("freed"));
}

#[test]
fn test_format_size() {
    let empty_delete_result = nothing_deleted();

    let stats = freed(512);
    let report =
        ReportGenerator::format_report(&stats, &empty_delete_result, false, &seconds(&stats));
    assert!(report.contains("B"));

    let stats = freed(2048);
    let report =
        ReportGenerator::format_report(&stats, &empty_delete_result, false, &seconds(&stats));
    assert!(report.contains("KB"));

    let stats = freed(2 * 1024 * 1024);
    let report =
        ReportGenerator::format_report(&stats, &empty_delete_result, false, &seconds(&stats));
    assert!(report.contains("MB"));
}

#[test]
fn brief_report_is_one_line() {
    let stats = Stats {
        files_scanned: 10,
        dirs_scanned: 5,
        files_deleted: 8,
        dirs_deleted: 4,
        files_failed: 2,
        dirs_failed: 1,
        space_freed: 1536,
        time_taken: Duration::from_millis(1234),
    };
    let report = ReportGenerator::format_report(&stats, &nothing_deleted(), false, "1.23");
    assert_eq!(report, "Cleaned 4 directories, 8 files, freed 1.50 KB");
    assert_eq!(ReportGenerator::format_size(1536), "1.50 KB");
}

#[test]
fn verbose_report_lists_everything() {
    let stats = Stats {
        files_scanned: 10,
        dirs_scanned: 5,
        files_deleted: 2,
        dirs_deleted: 1,
        files_failed: 1,
        dirs_failed: 1,
        space_freed: 1024 * 1024,
        time_taken: Duration::from_millis(1234),
    };
    let result = DeleteResult {
        deleted_files: vec!["/p/a.log".to_string(), "/p/b.log".to_string()],
        deleted_dirs: vec!["/p/target".to_string()],
        failed_files: vec![("/p/c.log".to_string(), "Permission denied".to_string())],
        failed_dirs: vec![("/p/dist".to_string(), "Path not found: /p/dist".to_string())],
        total_size: 1024 * 1024,
    };
    let report = ReportGenerator::format_report(&stats, &result, true, &seconds(&stats));
    let expected = format!(
        "\u{1F4CA} Cleanup Report:\n\
         - Files scanned: {}\n\
         - Directories scanned: {}\n\
         - Files matched: {}\n\
         - Directories matched: {}\n\
         - Files deleted: {}\n\
         - Directories deleted: {}\n\
         - Files failed: {}\n\
         - Directories failed: {}\n\
         - Space freed: {}\n\
         - Time taken: {:.2}s",
        10, 5, 3, 2, 2, 1, 1, 1, "1.00 MB", 1.234
    ) + "\n\n\u{1F4C1} Deleted Directories:\n   - /p/target"
        + "\n\n\u{1F4C4} Deleted Files:\n   - /p/a.log\n   - /p/b.log"
        + "\n\n\u{274C} Failed Directories:\n   - /p/dist: Path not found: /p/dist"
        + "\n\n\u{274C} Failed Files:\n   - /p/c.log: Permission denied";
    assert_eq!(report, expected);
}

#[test]
fn verbose_report_without_items_has_only_figures() {
    let stats = freed(0);
    let report = ReportGenerator::format_report(&stats, &nothing_deleted(), true, "0.00");
    assert!(report.ends_with("- Space freed: 0.00 B\n- Time taken: 0.00s"));
    assert!(!report.contains("Deleted"));
    assert!(!report.contains("Failed"));
}

#[test]
fn long_listings_stop_at_the_limit() {
    let mut result = nothing_deleted();
    for i in 0..50 {
        result.deleted_dirs.push(format!("d{}", i));
    }
    for i in 0..51 {
        result.deleted_files.push(format!("f{}", i));
    }
    for i in 0..60 {
        result.failed_files.push((format!("x{}", i), "busy".to_string()));
    }
    let report = ReportGenerator::format_report(&freed(0), &result, true, "0.00");
    assert!(report.contains("\n   - d49"));
    assert!(!report.contains("more directories"));
    assert!(report.contains("\n   - f49\n   ... and 1 more files"));
    assert!(!report.contains("\n   - f50"));
    assert!(report.contains("\n   - x59: busy"));
    result.deleted_dirs.push("d50".to_string());
    for i in 51..175 {
        result.deleted_dirs.push(format!("d{}", i));
    }
    let report = ReportGenerator::format_report(&freed(0), &result, true, "0.00");
    assert!(report.contains("\n   - d49\n   ... and 125 more directories\n\n"));
}
