//! Matching rules and filters of the search.

use vstd::prelude::*;
use crate::config::Options;
use crate::path::{is_strictly_under, is_under, split, begins, rows, components};
use crate::text::{chars_of, texts};

verus! {

/// Whether `text` matches the glob `pattern`, in which `*` stands for any
/// run of characters, the empty one too, and `?` for exactly one character.
/// A `*` either stands for nothing, or takes one character and goes on.
pub open spec fn glob_matches(pattern: Seq<char>, text: Seq<char>) -> bool
    decreases pattern.len(), text.len(),
{
    if pattern.len() == 0 {
        text.len() == 0
    } else if pattern[0] == '*' {
        glob_matches(pattern.skip(1), text) || (text.len() > 0 && glob_matches(
            pattern,
            text.skip(1),
        ))
    } else if pattern[0] == '?' {
        text.len() > 0 && glob_matches(pattern.skip(1), text.skip(1))
    } else {
        text.len() > 0 && text[0] == pattern[0] && glob_matches(pattern.skip(1), text.skip(1))
    }
}

/// Whether what is left of `pattern` from `p_idx` matches what is left of
/// `text` from `t_idx`. Past the end of the pattern nothing is left of it,
/// and it matches if nothing is left of the text either; past the end of
/// the text, a pattern of which something is left matches nothing.
pub open spec fn glob_matches_from(
    pattern: Seq<char>,
    text: Seq<char>,
    p_idx: int,
    t_idx: int,
) -> bool {
    if p_idx >= pattern.len() {
        t_idx >= text.len()
    } else if t_idx > text.len() {
        false
    } else {
        glob_matches(pattern.skip(p_idx), text.skip(t_idx))
    }
}

/// Within the pattern and the text, matching from two positions is
/// matching what is left behind them.
pub proof fn lemma_matches_from_within(
    pattern: Seq<char>,
    text: Seq<char>,
    p_idx: int,
    t_idx: int,
)
    requires
        0 <= p_idx <= pattern.len(),
        0 <= t_idx <= text.len(),
    ensures
        glob_matches_from(pattern, text, p_idx, t_idx) == glob_matches(
            pattern.skip(p_idx),
            text.skip(t_idx),
        ),
        glob_matches_from(pattern, text, 0, 0) == glob_matches(pattern, text),
{
    assert(pattern.skip(0) =~= pattern);
    assert(text.skip(0) =~= text);
}

/// `s` without the separators that it ends in.
pub open spec fn without_trailing_separators(s: Seq<char>) -> Seq<char>
    decreases s.len(),
{
    if s.len() > 0 && s.last() == '/' {
        without_trailing_separators(s.drop_last())
    } else {
        s
    }
}

/// Whether a folder of the given name falls under the folder rule
/// `pattern`: the pattern, trailing separators aside, is the name.
pub open spec fn folder_matches(pattern: Seq<char>, name: Seq<char>) -> bool {
    without_trailing_separators(pattern) == name
}

/// Whether `name` falls under the rule `pattern`. A pattern that ends in a
/// separator is a folder rule, any other a file glob.
pub open spec fn pattern_matches(pattern: Seq<char>, name: Seq<char>) -> bool {
    if pattern.len() > 0 && pattern.last() == '/' {
        folder_matches(pattern, name)
    } else {
        glob_matches(pattern, name)
    }
}

/// Whether a pattern holds no wildcard.
pub open spec fn is_literal(pattern: Seq<char>) -> bool {
    forall|i: int| 0 <= i < pattern.len() ==> pattern[i] != '*' && pattern[i] != '?'
}

/// A pattern without wildcards matches itself and nothing else.
pub proof fn lemma_literal_matches_itself_only(pattern: Seq<char>, text: Seq<char>)
    requires
        is_literal(pattern),
    ensures
        glob_matches(pattern, text) <==> pattern == text,
    decreases pattern.len(),
{
    if pattern.len() == 0 {
        assert(text.len() == 0 <==> pattern =~= text);
    } else if text.len() > 0 {
        lemma_literal_matches_itself_only(pattern.skip(1), text.skip(1));
        if pattern[0] == text[0] && pattern.skip(1) == text.skip(1) {
            assert(pattern =~= seq![pattern[0]] + pattern.skip(1));
            assert(text =~= seq![text[0]] + text.skip(1));
        }
    }
}

/// At a `*` every length of text may be taken: the pattern matches if and
/// only if, for some length, what follows the `*` matches what is left of
/// the text.
pub proof fn lemma_star_takes_any_run(pattern: Seq<char>, text: Seq<char>)
    requires
        pattern.len() > 0,
        pattern[0] == '*',
    ensures
        glob_matches(pattern, text) <==> exists|k: int|
            0 <= k <= text.len() && glob_matches(pattern.skip(1), #[trigger] text.skip(k)),
    decreases text.len(),
{
    let rest = pattern.skip(1);
    assert(text.skip(0) =~= text);
    if text.len() > 0 {
        lemma_star_takes_any_run(pattern, text.skip(1));
        if glob_matches(pattern, text) && !glob_matches(rest, text) {
            let k = choose|k: int|
                0 <= k <= text.skip(1).len() && glob_matches(rest, #[trigger] text.skip(1).skip(k));
            assert(text.skip(1).skip(k) =~= text.skip(k + 1));
        }
        if exists|k: int| 0 <= k <= text.len() && glob_matches(rest, #[trigger] text.skip(k)) {
            let k = choose|k: int| 0 <= k <= text.len() && glob_matches(rest, #[trigger] text.skip(k));
            if k > 0 {
                assert(text.skip(1).skip(k - 1) =~= text.skip(k));
            }
        }
    } else {
        assert forall|k: int| 0 <= k <= text.len() implies text.skip(k) =~= text by {}
    }
}

/// A folder rule means the same wherever it is read: for a pattern
/// without wildcards, matching it as a rule and matching it as a folder
/// name agree, with or without a trailing separator.
pub proof fn lemma_folder_rule_reads_the_same(pattern: Seq<char>, name: Seq<char>)
    requires
        is_literal(pattern),
    ensures
        pattern_matches(pattern, name) == folder_matches(pattern, name),
{
    if !(pattern.len() > 0 && pattern.last() == '/') {
        lemma_literal_matches_itself_only(pattern, name);
    }
}

/// Whether `name` falls under one of the folder rules.
pub open spec fn any_folder_rule(rules: Seq<Seq<char>>, name: Seq<char>) -> bool {
    exists|i: int| 0 <= i < rules.len() && folder_matches(#[trigger] rules[i], name)
}

/// Whether `name` matches one of the file globs.
pub open spec fn any_file_rule(rules: Seq<Seq<char>>, name: Seq<char>) -> bool {
    exists|i: int| 0 <= i < rules.len() && glob_matches(#[trigger] rules[i], name)
}

/// Whether a file of `size` bytes lies inside the optional bounds, both inclusive.
pub open spec fn size_within(size: u64, min_size: Option<u64>, max_size: Option<u64>) -> bool {
    &&& (min_size matches Some(min) ==> size >= min)
    &&& (max_size matches Some(max) ==> size <= max)
}

/// The number of seconds in a day.
pub const SECONDS_PER_DAY: u64 = 86400;

/// Whether a file last modified `age_secs` seconds ago lies inside the
/// optional bounds, in whole days and both inclusive. A file whose age is
/// not known passes.
pub open spec fn age_within(
    age_secs: Option<u64>,
    min_age_days: Option<u32>,
    max_age_days: Option<u32>,
) -> bool {
    match age_secs {
        None => true,
        Some(secs) => {
            let days = secs as int / 86400;
            &&& (min_age_days matches Some(min) ==> days >= min)
            &&& (max_age_days matches Some(max) ==> days <= max)
        },
    }
}

/// Whether `path` is one of `excludes` or lies beneath one.
pub open spec fn excluded(path: Seq<char>, excludes: Seq<Seq<char>>) -> bool {
    exists|i: int| 0 <= i < excludes.len() && is_under(path, #[trigger] excludes[i])
}

/// Whether `path` lies beneath one of the `matched` folders, itself not counted.
pub open spec fn pruned(path: Seq<char>, matched: Seq<Seq<char>>) -> bool {
    exists|i: int| 0 <= i < matched.len() && is_strictly_under(path, #[trigger] matched[i])
}

/// One entry met while a directory is measured.
#[derive(Debug, Clone, Copy)]
pub struct SizeSample {
    /// Whether the entry is a regular file.
    pub is_file: bool,
    /// The length that the entry's metadata gives, or `None` where the
    /// metadata cannot be read.
    pub size: Option<u64>,
}

/// What one entry adds to the size of the directory that holds it: a
/// regular file its length, anything else and anything unreadable nothing.
pub open spec fn sample_size(sample: SizeSample) -> nat {
    if sample.is_file {
        match sample.size {
            Some(n) => n as nat,
            None => 0,
        }
    } else {
        0
    }
}

/// The size of a directory: what the entries beneath it add up to.
pub open spec fn dir_size(samples: Seq<SizeSample>) -> nat
    decreases samples.len(),
{
    if samples.len() == 0 {
        0
    } else {
        dir_size(samples.drop_last()) + sample_size(samples.last())
    }
}

/// The size of the first entries of a directory is at most the size of all.
pub proof fn lemma_dir_size_grows(samples: Seq<SizeSample>, n: int)
    requires
        0 <= n <= samples.len(),
    ensures
        dir_size(samples.take(n)) <= dir_size(samples),
    decreases samples.len(),
{
    if n == samples.len() {
        assert(samples.take(n) =~= samples);
    } else {
        lemma_dir_size_grows(samples.drop_last(), n);
        assert(samples.drop_last().take(n) =~= samples.take(n));
    }
}

/// The size of two runs of entries, one after the other, is the sum of
/// their sizes.
pub proof fn lemma_dir_size_adds(a: Seq<SizeSample>, b: Seq<SizeSample>)
    ensures
        dir_size(a + b) == dir_size(a) + dir_size(b),
    decreases b.len(),
{
    if b.len() > 0 {
        lemma_dir_size_adds(a, b.drop_last());
        assert((a + b).drop_last() =~= a + b.drop_last());
    }
}

/// A single entry has the size that it adds.
proof fn lemma_dir_size_one(sample: SizeSample)
    ensures
        dir_size(seq![sample]) == sample_size(sample),
{
    assert(seq![sample].drop_last() =~= Seq::<SizeSample>::empty());
    assert(dir_size(Seq::<SizeSample>::empty()) == 0);
}

/// Every entry counts: the size of a directory is at least what any two
/// of its entries add, whatever else lies between them.
pub proof fn lemma_dir_size_counts_each(samples: Seq<SizeSample>, i: int, j: int)
    requires
        0 <= i < j < samples.len(),
    ensures
        dir_size(samples) >= sample_size(samples[i]) + sample_size(samples[j]),
{
    let head = samples.take(i);
    let mid = samples.subrange(i + 1, j);
    let tail = samples.skip(j + 1);
    let a = seq![samples[i]];
    let b = seq![samples[j]];
    assert(samples =~= head + a + mid + b + tail);
    lemma_dir_size_adds(head + a + mid + b, tail);
    lemma_dir_size_adds(head + a + mid, b);
    lemma_dir_size_adds(head + a, mid);
    lemma_dir_size_adds(head, a);
    lemma_dir_size_one(samples[i]);
    lemma_dir_size_one(samples[j]);
}

/// A directory among the entries adds nothing, wherever it stands: the
/// size is the same with it and without it.
pub proof fn lemma_dir_size_skips_directories(samples: Seq<SizeSample>, k: int)
    requires
        0 <= k < samples.len(),
        !samples[k].is_file,
    ensures
        dir_size(samples) == dir_size(samples.remove(k)),
{
    let head = samples.take(k);
    let one = seq![samples[k]];
    let tail = samples.skip(k + 1);
    assert(samples =~= head + one + tail);
    lemma_dir_size_adds(head + one, tail);
    lemma_dir_size_adds(head, one);
    lemma_dir_size_adds(head, tail);
    lemma_dir_size_one(samples[k]);
}

/// What a search found.
#[derive(Debug)]
pub struct SearchResult {
    /// The matched folders, in the order in which they were met.
    pub folders: Vec<String>,
    /// The matched files, in the order in which they were met.
    pub files: Vec<String>,
    /// The bytes in the matched files and, measured when each was matched,
    /// in the matched folders.
    pub total_size: u64,
    /// How many directories the search looked at, matched or not.
    pub total_dirs_scanned: usize,
    /// How many files the search looked at, matched or not.
    pub total_files_scanned: usize,
}

/// A search result as plain text and numbers.
pub struct SearchResultView {
    pub folders: Seq<Seq<char>>,
    pub files: Seq<Seq<char>>,
    pub total_size: u64,
    pub total_dirs_scanned: usize,
    pub total_files_scanned: usize,
}

impl View for SearchResult {
    type V = SearchResultView;

    open spec fn view(&self) -> SearchResultView {
        SearchResultView {
            folders: texts(self.folders@),
            files: texts(self.files@),
            total_size: self.total_size,
            total_dirs_scanned: self.total_dirs_scanned,
            total_files_scanned: self.total_files_scanned,
        }
    }
}

/// How a walk over one root is to be made.
#[derive(Debug, Clone, Copy)]
pub struct SearchOptions {
    /// Whether to descend below the first level.
    pub recursive: bool,
    /// Whether to follow symbolic links.
    pub follow_symlinks: bool,
    /// The deepest level to visit in a recursive walk; `None` for no limit.
    pub max_depth: Option<usize>,
    pub min_size: Option<u64>,
    pub max_size: Option<u64>,
    pub min_age_days: Option<u32>,
    pub max_age_days: Option<u32>,
}

impl SearchOptions {
    /// The search options that a configuration's options stand for: the
    /// same switches and bounds, and no limit on the depth.
    pub open spec fn of(options: Options) -> SearchOptions {
        SearchOptions {
            recursive: options.recursive,
            follow_symlinks: options.follow_symlinks,
            max_depth: None,
            min_size: options.min_size,
            max_size: options.max_size,
            min_age_days: options.min_age_days,
            max_age_days: options.max_age_days,
        }
    }

    /// How many levels below a root a walk visits: all of them (up to
    /// `max_depth`) if recursive, else one.
    pub open spec fn depth_limit(self) -> usize {
        if self.recursive {
            match self.max_depth {
                Some(d) => d,
                None => usize::MAX,
            }
        } else {
            1
        }
    }
}

impl From<&Options> for SearchOptions {
    fn from(options: &Options) -> (out: SearchOptions) {
        SearchOptions {
            recursive: options.recursive,
            follow_symlinks: options.follow_symlinks,
            max_depth: None,
            min_size: options.min_size,
            max_size: options.max_size,
            min_age_days: options.min_age_days,
            max_age_days: options.max_age_days,
        }
    }
}

impl vstd::std_specs::convert::FromSpecImpl<&Options> for SearchOptions {
    open spec fn obeys_from_spec() -> bool {
        true
    }

    open spec fn from_spec(options: &Options) -> SearchOptions {
        SearchOptions::of(*options)
    }
}

/// What a driver hands to the directory walker for one root.
#[derive(Debug)]
pub struct WalkRequest {
    pub root: String,
    pub max_depth: usize,
    pub follow_links: bool,
}

pub struct SearchEngine;

impl SearchEngine {
    /// The walk to make over the root `path` under `options`.
    pub fn walk_path(path: &str, options: &SearchOptions) -> (request: WalkRequest)
        ensures
            request.root@ == path@,
            request.max_depth == options.depth_limit(),
            request.follow_links == options.follow_symlinks,
    {
        let max_depth = if options.recursive {
            match options.max_depth {
                Some(d) => d,
                None => usize::MAX,
            }
        } else {
            1
        };
        WalkRequest { root: path.to_owned(), max_depth, follow_links: options.follow_symlinks }
    }

    /// Decides whether `name` falls under the rule `pattern`.
    pub fn match_pattern(pattern: &str, name: &str) -> (matched: bool)
        ensures
            matched == pattern_matches(pattern@, name@),
    {
        let pattern_chars = chars_of(pattern);
        let name_chars = chars_of(name);
        assert(pattern@.skip(0) =~= pattern@ && name@.skip(0) =~= name@);
        if pattern_chars.len() > 0 && pattern_chars[pattern_chars.len() - 1] == '/' {
            Self::folder_match(&pattern_chars, &name_chars)
        } else {
            Self::glob_match_recursive(&pattern_chars, &name_chars, 0, 0)
        }
    }

    /// How much of `pattern` is left once the separators that it ends in
    /// are gone.
    pub fn stem_length(pattern: &Vec<char>) -> (end: usize)
        ensures
            end <= pattern.len(),
            without_trailing_separators(pattern@) == pattern@.take(end as int),
    {
        let mut end: usize = pattern.len();
        assert(pattern@.take(end as int) =~= pattern@);
        while end > 0 && pattern[end - 1] == '/'
            invariant
                end <= pattern.len(),
                without_trailing_separators(pattern@) == without_trailing_separators(
                    pattern@.take(end as int),
                ),
            decreases end,
        {
            assert(pattern@.take(end as int).drop_last() =~= pattern@.take(end - 1));
            end -= 1;
        }
        end
    }

    /// Decides whether the folder rule `pattern` names `name`.
    pub fn folder_match(pattern: &Vec<char>, name: &Vec<char>) -> (matched: bool)
        ensures
            matched == folder_matches(pattern@, name@),
    {
        let end = Self::stem_length(pattern);
        let ghost stem = pattern@.take(end as int);
        if end != name.len() {
            return false;
        }
        let mut i: usize = 0;
        while i < end
            invariant
                end <= pattern.len(),
                end == name.len(),
                i <= end,
                stem == pattern@.take(end as int),
                without_trailing_separators(pattern@) == stem,
                forall|k: int| 0 <= k < i ==> stem[k] == name@[k],
            decreases end - i,
        {
            if pattern[i] != name[i] {
                return false;
            }
            i += 1;
        }
        assert(stem =~= name@);
        true
    }

    /// Decides whether `text` matches the glob `pattern`.
    pub fn glob_match(pattern: &str, text: &str) -> (matched: bool)
        ensures
            matched == glob_matches(pattern@, text@),
    {
        let pattern_chars = chars_of(pattern);
        let text_chars = chars_of(text);
        assert(pattern@.skip(0) =~= pattern@ && text@.skip(0) =~= text@);
        Self::glob_match_recursive(&pattern_chars, &text_chars, 0, 0)
    }

    /// Matches what is left of the pattern from `p_idx` against what is left
    /// of the text from `t_idx`, by backtracking: at a `*` every length of
    /// text is tried in turn. Positions past the ends are taken as they
    /// come: nothing is left there.
    pub fn glob_match_recursive(
        pattern: &Vec<char>,
        text: &Vec<char>,
        p_idx: usize,
        t_idx: usize,
    ) -> (matched: bool)
        ensures
            matched == glob_matches_from(pattern@, text@, p_idx as int, t_idx as int),
        decreases pattern.len() - p_idx,
    {
        if p_idx >= pattern.len() {
            return t_idx >= text.len();
        }
        if t_idx > text.len() {
            return false;
        }
        let ghost rest = pattern@.skip(p_idx as int);
        let ghost left = text@.skip(t_idx as int);
        assert(rest.skip(1) =~= pattern@.skip(p_idx + 1));
        let c = pattern[p_idx];
        if c == '*' {
            let mut i: usize = t_idx;
            loop
                invariant
                    p_idx < pattern.len(),
                    t_idx <= i <= text.len(),
                    rest == pattern@.skip(p_idx as int),
                    rest.skip(1) == pattern@.skip(p_idx + 1),
                    rest.len() > 0 && rest[0] == '*',
                    glob_matches(rest, text@.skip(t_idx as int)) == glob_matches(
                        rest,
                        text@.skip(i as int),
                    ),
                decreases text.len() - i,
            {
                proof {
                    lemma_matches_from_within(pattern@, text@, p_idx + 1, i as int);
                }
                if Self::glob_match_recursive(pattern, text, p_idx + 1, i) {
                    return true;
                }
                if i == text.len() {
                    return false;
                }
                assert(text@.skip(i as int).skip(1) =~= text@.skip(i + 1));
                i += 1;
            }
        } else if t_idx < text.len() && (c == '?' || text[t_idx] == c) {
            proof {
                assert(left.skip(1) =~= text@.skip(t_idx + 1));
                lemma_matches_from_within(pattern@, text@, p_idx + 1, t_idx + 1);
            }
            Self::glob_match_recursive(pattern, text, p_idx + 1, t_idx + 1)
        } else {
            false
        }
    }

    /// Decides whether `path` is one of `excludes` or lies beneath one.
    pub fn should_exclude(path: &str, excludes: &[String]) -> (hidden: bool)
        ensures
            hidden == excluded(path@, texts(excludes@)),
    {
        let parts = split(path);
        let mut i: usize = 0;
        while i < excludes.len()
            invariant
                i <= excludes.len(),
                rows(parts@) == components(path@),
                forall|k: int| 0 <= k < i ==> !is_under(path@, #[trigger] texts(excludes@)[k]),
            decreases excludes.len() - i,
        {
            let base = split(excludes[i].as_str());
            assert(texts(excludes@)[i as int] == excludes@[i as int]@);
            if begins(&base, &parts) {
                return true;
            }
            i += 1;
        }
        false
    }

    /// Decides whether `path` lies beneath one of the matched folders. A
    /// matched folder itself is not beneath itself.
    pub fn is_in_matched_folder(path: &str, matched_folders: &[String]) -> (inside: bool)
        ensures
            inside == pruned(path@, texts(matched_folders@)),
    {
        let parts = split(path);
        let mut i: usize = 0;
        while i < matched_folders.len()
            invariant
                i <= matched_folders.len(),
                rows(parts@) == components(path@),
                forall|k: int|
                    0 <= k < i ==> !is_strictly_under(
                        path@,
                        #[trigger] texts(matched_folders@)[k],
                    ),
            decreases matched_folders.len() - i,
        {
            let base = split(matched_folders[i].as_str());
            assert(texts(matched_folders@)[i as int] == matched_folders@[i as int]@);
            if base.len() < parts.len() && begins(&base, &parts) {
                return true;
            }
            i += 1;
        }
        false
    }

    /// Whether the size of a directory with these entries fits the
    /// machine's integers.
    pub fn dir_size_fits(samples: &[SizeSample]) -> (ok: bool)
        ensures
            ok == (dir_size(samples@) <= u64::MAX),
    {
        let mut total: u64 = 0;
        let mut i: usize = 0;
        while i < samples.len()
            invariant
                i <= samples.len(),
                total == dir_size(samples@.take(i as int)),
            decreases samples.len() - i,
        {
            let sample = samples[i];
            proof {
                assert(samples@.take(i + 1).drop_last() =~= samples@.take(i as int));
                lemma_dir_size_grows(samples@, i + 1);
            }
            if sample.is_file {
                if let Some(n) = sample.size {
                    if n > u64::MAX - total {
                        return false;
                    }
                    total = total + n;
                }
            }
            i += 1;
        }
        assert(samples@.take(i as int) =~= samples@);
        true
    }

    /// Adds up the size of a directory from the entries met beneath it, at
    /// any depth: every regular file counts with its length, directories and
    /// unreadable entries count nothing.
    pub fn calculate_dir_size(samples: &[SizeSample]) -> (total: u64)
        requires
            dir_size(samples@) <= u64::MAX,
        ensures
            total == dir_size(samples@),
    {
        let mut total: u64 = 0;
        let mut i: usize = 0;
        while i < samples.len()
            invariant
                i <= samples.len(),
                dir_size(samples@) <= u64::MAX,
                total == dir_size(samples@.take(i as int)),
            decreases samples.len() - i,
        {
            let sample = samples[i];
            proof {
                assert(samples@.take(i + 1).drop_last() =~= samples@.take(i as int));
                lemma_dir_size_grows(samples@, i + 1);
            }
            if sample.is_file {
                if let Some(n) = sample.size {
                    total = total + n;
                }
            }
            i += 1;
        }
        assert(samples@.take(i as int) =~= samples@);
        total
    }

    /// Tests a file size against the configured bounds.
    pub fn check_size(size: u64, min_size: Option<u64>, max_size: Option<u64>) -> (ok: bool)
        ensures
            ok == size_within(size, min_size, max_size),
    {
        if let Some(min) = min_size {
            if size < min {
                return false;
            }
        }
        if let Some(max) = max_size {
            if size > max {
                return false;
            }
        }
        true
    }

    /// Tests a file's age, in seconds since it was last modified, against
    /// the configured bounds in days.
    pub fn check_age(
        age_secs: Option<u64>,
        min_age_days: Option<u32>,
        max_age_days: Option<u32>,
    ) -> (ok: bool)
        ensures
            ok == age_within(age_secs, min_age_days, max_age_days),
    {
        match age_secs {
            None => true,
            Some(secs) => {
                let days: u64 = secs / SECONDS_PER_DAY;
                if let Some(min) = min_age_days {
                    if days < min as u64 {
                        return false;
                    }
                }
                if let Some(max) = max_age_days {
                    if days > max as u64 {
                        return false;
                    }
                }
                true
            },
        }
    }
}

} // verus!
