//! The figures of a finished run.

use vstd::prelude::*;
use std::time::Duration;
use crate::delete::{failures, DeleteResult, DeleteResultView};
use crate::format::{decimal, decimal_text, format_size, size_text};
use crate::search::SearchResult;
use crate::text::texts;

verus! {

/// The figures of one run.
#[derive(Debug)]
pub struct Stats {
    pub files_scanned: usize,
    pub dirs_scanned: usize,
    pub files_deleted: usize,
    pub dirs_deleted: usize,
    pub files_failed: usize,
    pub dirs_failed: usize,
    /// The bytes that the run freed.
    pub space_freed: u64,
    /// How long the run took.
    pub time_taken: Duration,
}

/// In a listing that is not verbose, at most this many items are shown.
pub const MAX_DISPLAY_ITEMS: usize = 50;

/// How many of `total` items a listing shows.
pub open spec fn shown(total: usize, verbose: bool) -> usize {
    if verbose || total <= MAX_DISPLAY_ITEMS {
        total
    } else {
        MAX_DISPLAY_ITEMS
    }
}

/// Gathers figures for reports.
pub struct ReportGenerator;

impl ReportGenerator {
    /// The figures of a run that found `search_result`, did
    /// `delete_result`, and took `time_taken`.
    pub fn collect_stats(
        search_result: &SearchResult,
        delete_result: &DeleteResult,
        time_taken: Duration,
    ) -> (stats: Stats)
        ensures
            stats.files_scanned == search_result.total_files_scanned,
            stats.dirs_scanned == search_result.total_dirs_scanned,
            stats.files_deleted == delete_result.deleted_files.len(),
            stats.dirs_deleted == delete_result.deleted_dirs.len(),
            stats.files_failed == delete_result.failed_files.len(),
            stats.dirs_failed == delete_result.failed_dirs.len(),
            stats.space_freed == delete_result.total_size,
            stats.time_taken == time_taken,
    {
        Stats {
            files_scanned: search_result.total_files_scanned,
            dirs_scanned: search_result.total_dirs_scanned,
            files_deleted: delete_result.deleted_files.len(),
            dirs_deleted: delete_result.deleted_dirs.len(),
            files_failed: delete_result.failed_files.len(),
            dirs_failed: delete_result.failed_dirs.len(),
            space_freed: delete_result.total_size,
            time_taken,
        }
    }

    /// How many of `total` items a listing shows: all of them if verbose,
    /// else no more than the display limit.
    pub fn display_count(total: usize, verbose: bool) -> (count: usize)
        ensures
            count == shown(total, verbose),
    {
        if verbose || total <= MAX_DISPLAY_ITEMS {
            total
        } else {
            MAX_DISPLAY_ITEMS
        }
    }
}

/// The lines of a listing, one for each path.
pub open spec fn path_lines(items: Seq<Seq<char>>) -> Seq<char>
    decreases items.len(),
{
    if items.len() == 0 {
        Seq::empty()
    } else {
        path_lines(items.drop_last()) + "\n   - "@ + items.last()
    }
}

/// A listing of paths under a title: nothing at all where there are no
/// paths, and after the display limit only the number of those left out.
pub open spec fn path_listing(items: Seq<Seq<char>>, title: Seq<char>, noun: Seq<char>) -> Seq<
    char,
> {
    if items.len() == 0 {
        Seq::empty()
    } else if items.len() <= MAX_DISPLAY_ITEMS {
        title + path_lines(items)
    } else {
        title + path_lines(items.take(MAX_DISPLAY_ITEMS as int)) + "\n   ... and "@ + decimal_text(
            (items.len() - MAX_DISPLAY_ITEMS) as nat,
        ) + " more "@ + noun
    }
}

/// The lines of a listing of failures, one for each path with its cause.
pub open spec fn failure_lines(items: Seq<(Seq<char>, Seq<char>)>) -> Seq<char>
    decreases items.len(),
{
    if items.len() == 0 {
        Seq::empty()
    } else {
        failure_lines(items.drop_last()) + "\n   - "@ + items.last().0 + ": "@ + items.last().1
    }
}

/// A listing of failures under a title: nothing at all where nothing
/// failed, else every failure.
pub open spec fn failure_listing(items: Seq<(Seq<char>, Seq<char>)>, title: Seq<char>) -> Seq<
    char,
> {
    if items.len() == 0 {
        Seq::empty()
    } else {
        title + failure_lines(items)
    }
}

/// The figures of the detailed report. What matched is what was deleted
/// and what failed, together.
pub open spec fn figures_text(stats: Stats, time_text: Seq<char>) -> Seq<char> {
    "\u{1F4CA} Cleanup Report:\n- Files scanned: "@ + decimal_text(stats.files_scanned as nat)
        + "\n- Directories scanned: "@ + decimal_text(stats.dirs_scanned as nat)
        + "\n- Files matched: "@ + decimal_text((stats.files_deleted + stats.files_failed) as nat)
        + "\n- Directories matched: "@ + decimal_text(
        (stats.dirs_deleted + stats.dirs_failed) as nat,
    ) + "\n- Files deleted: "@ + decimal_text(stats.files_deleted as nat)
        + "\n- Directories deleted: "@ + decimal_text(stats.dirs_deleted as nat)
        + "\n- Files failed: "@ + decimal_text(stats.files_failed as nat)
        + "\n- Directories failed: "@ + decimal_text(stats.dirs_failed as nat)
        + "\n- Space freed: "@ + size_text(stats.space_freed as nat) + "\n- Time taken: "@
        + time_text + "s"@
}

/// The one-line report.
pub open spec fn brief_text(stats: Stats) -> Seq<char> {
    "Cleaned "@ + decimal_text(stats.dirs_deleted as nat) + " directories, "@ + decimal_text(
        stats.files_deleted as nat,
    ) + " files, freed "@ + size_text(stats.space_freed as nat)
}

/// The report of a run: one line, or if verbose the figures and then what
/// was deleted and what failed, directories before files.
pub open spec fn report_text(
    stats: Stats,
    result: DeleteResultView,
    verbose: bool,
    time_text: Seq<char>,
) -> Seq<char> {
    if verbose {
        figures_text(stats, time_text) + path_listing(
            result.deleted_dirs,
            "\n\n\u{1F4C1} Deleted Directories:"@,
            "directories"@,
        ) + path_listing(result.deleted_files, "\n\n\u{1F4C4} Deleted Files:"@, "files"@)
            + failure_listing(result.failed_dirs, "\n\n\u{274C} Failed Directories:"@)
            + failure_listing(result.failed_files, "\n\n\u{274C} Failed Files:"@)
    } else {
        brief_text(stats)
    }
}

impl ReportGenerator {
    fn list_paths(items: &Vec<String>, title: &str, noun: &str) -> (s: String)
        ensures
            s@ == path_listing(texts(items@), title@, noun@),
    {
        if items.len() == 0 {
            return String::new();
        }
        let ghost all = texts(items@);
        let count = if items.len() <= MAX_DISPLAY_ITEMS {
            items.len()
        } else {
            MAX_DISPLAY_ITEMS
        };
        let mut s = title.to_owned();
        let mut i: usize = 0;
        while i < count
            invariant
                i <= count <= items.len(),
                all == texts(items@),
                s@ == title@ + path_lines(all.take(i as int)),
            decreases count - i,
        {
            s.append("\n   - ");
            s.append(items[i].as_str());
            i += 1;
            assert(all.take(i as int).drop_last() =~= all.take(i - 1));
        }
        if items.len() > MAX_DISPLAY_ITEMS {
            s.append("\n   ... and ");
            let more = decimal((items.len() - MAX_DISPLAY_ITEMS) as u128);
            s.append(more.as_str());
            s.append(" more ");
            s.append(noun);
        } else {
            assert(all.take(count as int) =~= all);
        }
        s
    }

    fn list_failures(items: &Vec<(String, String)>, title: &str) -> (s: String)
        ensures
            s@ == failure_listing(failures(items@), title@),
    {
        if items.len() == 0 {
            return String::new();
        }
        let ghost all = failures(items@);
        let mut s = title.to_owned();
        let mut i: usize = 0;
        while i < items.len()
            invariant
                i <= items.len(),
                all == failures(items@),
                s@ == title@ + failure_lines(all.take(i as int)),
            decreases items.len() - i,
        {
            s.append("\n   - ");
            s.append(items[i].0.as_str());
            s.append(": ");
            s.append(items[i].1.as_str());
            i += 1;
            assert(all.take(i as int).drop_last() =~= all.take(i - 1));
        }
        assert(all.take(i as int) =~= all);
        s
    }

    /// Writes a size in bytes as text, as `1.50 KB`.
    pub fn format_size(bytes: u64) -> (s: String)
        ensures
            s@ == size_text(bytes as nat),
    {
        format_size(bytes)
    }

    /// Writes the report of a run. `time_text` is the time that the run
    /// took, in seconds, as the report is to show it.
    pub fn format_report(
        stats: &Stats,
        delete_result: &DeleteResult,
        verbose: bool,
        time_text: &str,
    ) -> (report: String)
        ensures
            report@ == report_text(*stats, delete_result@, verbose, time_text@),
    {
        if verbose {
            let mut report = "\u{1F4CA} Cleanup Report:\n- Files scanned: ".to_owned();
            report.append(decimal(stats.files_scanned as u128).as_str());
            report.append("\n- Directories scanned: ");
            report.append(decimal(stats.dirs_scanned as u128).as_str());
            report.append("\n- Files matched: ");
            report.append(
                decimal(stats.files_deleted as u128 + stats.files_failed as u128).as_str(),
            );
            report.append("\n- Directories matched: ");
            report.append(decimal(stats.dirs_deleted as u128 + stats.dirs_failed as u128).as_str());
            report.append("\n- Files deleted: ");
            report.append(decimal(stats.files_deleted as u128).as_str());
            report.append("\n- Directories deleted: ");
            report.append(decimal(stats.dirs_deleted as u128).as_str());
            report.append("\n- Files failed: ");
            report.append(decimal(stats.files_failed as u128).as_str());
            report.append("\n- Directories failed: ");
            report.append(decimal(stats.dirs_failed as u128).as_str());
            report.append("\n- Space freed: ");
            report.append(format_size(stats.space_freed).as_str());
            report.append("\n- Time taken: ");
            report.append(time_text);
            report.append("s");
            report.append(
                Self::list_paths(
                    &delete_result.deleted_dirs,
                    "\n\n\u{1F4C1} Deleted Directories:",
                    "directories",
                ).as_str(),
            );
            report.append(
                Self::list_paths(
                    &delete_result.deleted_files,
                    "\n\n\u{1F4C4} Deleted Files:",
                    "files",
                ).as_str(),
            );
            report.append(
                Self::list_failures(
                    &delete_result.failed_dirs,
                    "\n\n\u{274C} Failed Directories:",
                ).as_str(),
            );
            report.append(
                Self::list_failures(
                    &delete_result.failed_files,
                    "\n\n\u{274C} Failed Files:",
                ).as_str(),
            );
            report
        } else {
            let mut report = "Cleaned ".to_owned();
            report.append(decimal(stats.dirs_deleted as u128).as_str());
            report.append(" directories, ");
            report.append(decimal(stats.files_deleted as u128).as_str());
            report.append(" files, freed ");
            report.append(format_size(stats.space_freed).as_str());
            report
        }
    }
}

} // verus!
