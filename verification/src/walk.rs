//! The pruning walk, as a machine that a driver feeds.
//!
//! The driver enumerates the file system and reports each entry that it
//! meets; the walk decides what the entry means and what the driver is to
//! do next. Nothing here touches the file system.

use vstd::prelude::*;
use crate::config::{Config, ConfigView, Options};
use crate::path::{base_name, begins, components, last_name, rows, split};
use crate::search::{
    age_within, any_file_rule, any_folder_rule, excluded, pruned, size_within, SearchEngine,
    SearchResult,
};
use crate::text::{chars_of, texts};

verus! {

/// What kind of thing an entry is, links resolved.
#[derive(Debug, Clone, Copy, PartialEq, Eq, Structural)]
pub enum EntryKind {
    File,
    Directory,
    /// Neither a regular file nor a directory.
    Other,
}

/// One entry as the driver saw it.
#[derive(Debug)]
pub struct Entry {
    pub path: String,
    pub kind: EntryKind,
    /// The length that the entry's metadata gives.
    pub size: u64,
    /// Seconds since the entry was last modified, where that is known.
    pub age_secs: Option<u64>,
}

/// What the driver reports to the walk.
#[derive(Debug)]
pub enum WalkEvent {
    /// An entry was met.
    Entry(Entry),
    /// The folder that was to be measured holds this many bytes.
    FolderSize(u64),
    /// An entry could not be read.
    Fault,
}

/// An entry as plain text and numbers.
pub struct EntryView {
    pub path: Seq<char>,
    pub kind: EntryKind,
    pub size: u64,
    pub age_secs: Option<u64>,
}

/// A walk event as plain text and numbers.
pub enum Visit {
    Entry(EntryView),
    FolderSize(u64),
    Fault,
}

impl View for Entry {
    type V = EntryView;

    open spec fn view(&self) -> EntryView {
        EntryView { path: self.path@, kind: self.kind, size: self.size, age_secs: self.age_secs }
    }
}

impl View for WalkEvent {
    type V = Visit;

    open spec fn view(&self) -> Visit {
        match self {
            WalkEvent::Entry(e) => Visit::Entry(e@),
            WalkEvent::FolderSize(n) => Visit::FolderSize(*n),
            WalkEvent::Fault => Visit::Fault,
        }
    }
}

/// What the driver is to do with the entry it reported.
#[derive(Debug, Clone, Copy, PartialEq, Eq, Structural)]
pub enum Directive {
    /// Go on; if the entry is a directory, descend into it.
    Continue,
    /// The entry is invisible: pass over it and all beneath it.
    Skip,
    /// The entry is a matched folder: do not descend, add up the sizes of
    /// the files in it, and report the sum.
    Measure,
}

/// The walk's answer to an event.
#[derive(Debug, Clone, Copy, PartialEq, Eq, Structural)]
pub struct WalkAction {
    pub directive: Directive,
    /// Whether a progress notification is due now.
    pub report: bool,
}

/// The running counters that a progress notification carries.
#[derive(Debug, Clone, Copy, PartialEq, Eq, Structural)]
pub struct Progress {
    pub files_scanned: usize,
    pub dirs_scanned: usize,
    pub files_matched: usize,
    pub dirs_matched: usize,
    pub total_size: u64,
}

/// A progress notification is due every so many scanned files.
pub const FILES_PER_REPORT: usize = 1000;

/// A progress notification is due every so many scanned directories.
pub const DIRS_PER_REPORT: usize = 100;

/// A progress notification is due while the number of matched folders is a
/// multiple of this.
pub const MATCHES_PER_REPORT: usize = 10;

/// The state of a walk, as mathematics.
pub struct Scan {
    /// The matched folders so far. They are also the set that prunes.
    pub folders: Seq<Seq<char>>,
    /// The matched files so far.
    pub files: Seq<Seq<char>>,
    pub total_size: nat,
    pub dirs_scanned: nat,
    pub files_scanned: nat,
    /// Whether a matched folder still awaits its size.
    pub measuring: bool,
}

impl Scan {
    /// The state before anything was visited.
    pub open spec fn start() -> Scan {
        Scan {
            folders: Seq::empty(),
            files: Seq::empty(),
            total_size: 0,
            dirs_scanned: 0,
            files_scanned: 0,
            measuring: false,
        }
    }

    /// Whether the walk sees `path`: it is neither excluded nor beneath a
    /// folder matched so far.
    pub open spec fn sees(self, cfg: ConfigView, path: Seq<char>) -> bool {
        !excluded(path, cfg.exclude) && !pruned(path, self.folders)
    }

    /// Whether a visible file is a match: inside the size and age bounds,
    /// and its name matched by a file glob.
    pub open spec fn takes_file(cfg: ConfigView, e: EntryView) -> bool {
        &&& size_within(e.size, cfg.options.min_size, cfg.options.max_size)
        &&& age_within(e.age_secs, cfg.options.min_age_days, cfg.options.max_age_days)
        &&& any_file_rule(cfg.files, base_name(e.path))
    }

    /// Whether a visible directory is a match: a folder rule names it.
    pub open spec fn takes_folder(cfg: ConfigView, e: EntryView) -> bool {
        any_folder_rule(cfg.folders, base_name(e.path))
    }

    /// Whether a notification is due after a directory was dealt with.
    pub open spec fn report_after_dir(self) -> bool {
        self.dirs_scanned % (DIRS_PER_REPORT as nat) == 0 || (self.folders.len() > 0
            && self.folders.len() % (MATCHES_PER_REPORT as nat) == 0)
    }

    /// The state after one event.
    pub open spec fn step(self, cfg: ConfigView, v: Visit) -> Scan {
        match v {
            Visit::Fault => self,
            Visit::FolderSize(n) => if self.measuring {
                Scan { total_size: self.total_size + n as nat, measuring: false, ..self }
            } else {
                self
            },
            Visit::Entry(e) => if !self.sees(cfg, e.path) {
                self
            } else {
                match e.kind {
                    EntryKind::Other => self,
                    EntryKind::File => {
                        let counted = Scan { files_scanned: self.files_scanned + 1, ..self };
                        if Self::takes_file(cfg, e) {
                            Scan {
                                files: self.files.push(e.path),
                                total_size: self.total_size + e.size as nat,
                                ..counted
                            }
                        } else {
                            counted
                        }
                    },
                    EntryKind::Directory => {
                        let counted = Scan { dirs_scanned: self.dirs_scanned + 1, ..self };
                        if Self::takes_folder(cfg, e) {
                            Scan {
                                folders: self.folders.push(e.path),
                                measuring: true,
                                ..counted
                            }
                        } else {
                            counted
                        }
                    },
                }
            },
        }
    }

    /// What the driver is told after one event.
    pub open spec fn action(self, cfg: ConfigView, v: Visit) -> WalkAction {
        let after = self.step(cfg, v);
        match v {
            Visit::Fault => WalkAction { directive: Directive::Continue, report: false },
            Visit::FolderSize(n) => WalkAction {
                directive: Directive::Continue,
                report: self.measuring && after.report_after_dir(),
            },
            Visit::Entry(e) => if !self.sees(cfg, e.path) {
                WalkAction { directive: Directive::Skip, report: false }
            } else {
                match e.kind {
                    EntryKind::Other => WalkAction {
                        directive: Directive::Continue,
                        report: false,
                    },
                    EntryKind::File => WalkAction {
                        directive: Directive::Continue,
                        report: after.files_scanned % (FILES_PER_REPORT as nat) == 0,
                    },
                    EntryKind::Directory => if Self::takes_folder(cfg, e) {
                        WalkAction { directive: Directive::Measure, report: false }
                    } else {
                        WalkAction {
                            directive: Directive::Continue,
                            report: after.report_after_dir(),
                        }
                    },
                }
            },
        }
    }

    /// The state after a sequence of events.
    pub open spec fn run(self, cfg: ConfigView, visits: Seq<Visit>) -> Scan
        decreases visits.len(),
    {
        if visits.len() == 0 {
            self
        } else {
            self.run(cfg, visits.drop_last()).step(cfg, visits.last())
        }
    }

    /// Whether the counters fit the machine's integers.
    pub open spec fn fits(self) -> bool {
        &&& self.total_size <= u64::MAX
        &&& self.dirs_scanned <= usize::MAX
        &&& self.files_scanned <= usize::MAX
    }
}

impl Scan {
    /// Whether an event is an entry that the walk does not see.
    pub open spec fn blind_to(self, cfg: ConfigView, v: Visit) -> bool {
        v matches Visit::Entry(e) && !self.sees(cfg, e.path)
    }

    /// No matched folder lies beneath one that was matched before it.
    pub open spec fn orderly(self) -> bool {
        forall|i: int, j: int|
            0 <= i < j < self.folders.len() ==> !crate::path::is_strictly_under(
                self.folders[j],
                self.folders[i],
            )
    }

    /// Every counter of `self` is at most that of `later`, and what `self`
    /// found begins what `later` found.
    pub open spec fn precedes(self, later: Scan) -> bool {
        &&& self.folders.is_prefix_of(later.folders)
        &&& self.files.is_prefix_of(later.files)
        &&& self.total_size <= later.total_size
        &&& self.dirs_scanned <= later.dirs_scanned
        &&& self.files_scanned <= later.files_scanned
    }
}

/// An entry that the walk does not see changes nothing, and the driver is
/// told to pass over it: it reaches neither the lists nor the counters.
pub proof fn lemma_unseen_entry_changes_nothing(s: Scan, cfg: ConfigView, e: EntryView)
    requires
        !s.sees(cfg, e.path),
    ensures
        s.step(cfg, Visit::Entry(e)) == s,
        s.action(cfg, Visit::Entry(e)) == (WalkAction {
            directive: Directive::Skip,
            report: false,
        }),
{
}

/// One event never takes anything back: the lists only grow at their end
/// and no counter falls.
pub proof fn lemma_step_never_goes_back(s: Scan, cfg: ConfigView, v: Visit)
    ensures
        s.precedes(s.step(cfg, v)),
{
}

/// What precedes is transitive.
pub proof fn lemma_precedes_chain(a: Scan, b: Scan, c: Scan)
    requires
        a.precedes(b),
        b.precedes(c),
    ensures
        a.precedes(c),
{
}

/// Over a whole walk no counter ever falls and nothing found is lost: the
/// state after the first `n` events precedes the state after all of them.
/// So the counters that progress notifications carry never decrease.
pub proof fn lemma_progress_never_decreases(s: Scan, cfg: ConfigView, visits: Seq<Visit>, n: int)
    requires
        0 <= n <= visits.len(),
    ensures
        s.run(cfg, visits.take(n)).precedes(s.run(cfg, visits)),
    decreases visits.len(),
{
    if n == visits.len() {
        assert(visits.take(n) =~= visits);
    } else {
        lemma_progress_never_decreases(s, cfg, visits.drop_last(), n);
        assert(visits.drop_last().take(n) =~= visits.take(n));
        lemma_step_never_goes_back(s.run(cfg, visits.drop_last()), cfg, visits.last());
        lemma_precedes_chain(
            s.run(cfg, visits.take(n)),
            s.run(cfg, visits.drop_last()),
            s.run(cfg, visits),
        );
    }
}

/// What an earlier state does not see, a later state does not see either:
/// exclusions are fixed, and a matched folder stays matched.
pub proof fn lemma_unseen_stays_unseen(a: Scan, b: Scan, cfg: ConfigView, path: Seq<char>)
    requires
        a.folders.is_prefix_of(b.folders),
        !a.sees(cfg, path),
    ensures
        !b.sees(cfg, path),
{
    if pruned(path, a.folders) {
        let i = choose|i: int|
            0 <= i < a.folders.len() && crate::path::is_strictly_under(
                path,
                #[trigger] a.folders[i],
            );
        assert(b.folders[i] == a.folders[i]);
    }
}

/// Once the walk does not see an entry, that entry and everything else it
/// does not see can be left out of the rest of the walk without changing
/// its outcome: nothing beneath a matched folder and nothing excluded ever
/// reaches the lists or the counters.
pub proof fn lemma_unseen_entries_never_count(s: Scan, cfg: ConfigView, visits: Seq<Visit>)
    ensures
        s.run(cfg, visits) == s.run(cfg, visits.filter(|v: Visit| !s.blind_to(cfg, v))),
    decreases visits.len(),
{
    let keep = |v: Visit| !s.blind_to(cfg, v);
    if visits.len() == 0 {
        assert(visits.filter(keep) =~= visits) by {
            reveal(Seq::filter);
        }
    } else {
        let before = visits.drop_last();
        let last = visits.last();
        lemma_unseen_entries_never_count(s, cfg, before);
        assert(visits =~= before.push(last));
        before.lemma_filter_push(last, keep);
        let mid = s.run(cfg, before);
        if s.blind_to(cfg, last) {
            let e = last->Entry_0;
            lemma_progress_never_decreases(s, cfg, before, 0);
            lemma_unseen_stays_unseen(s, mid, cfg, e.path);
        } else {
            let kept = before.filter(keep);
            assert(kept.push(last).drop_last() =~= kept);
        }
    }
}

/// Whatever the walk records from a state on, that state saw: no folder
/// and no file is ever added that is excluded or lies beneath a folder
/// that was matched by then.
pub proof fn lemma_found_was_seen(s: Scan, cfg: ConfigView, visits: Seq<Visit>)
    ensures
        s.precedes(s.run(cfg, visits)),
        forall|j: int|
            s.folders.len() <= j < s.run(cfg, visits).folders.len() ==> s.sees(
                cfg,
                #[trigger] s.run(cfg, visits).folders[j],
            ),
        forall|j: int|
            s.files.len() <= j < s.run(cfg, visits).files.len() ==> s.sees(
                cfg,
                #[trigger] s.run(cfg, visits).files[j],
            ),
    decreases visits.len(),
{
    lemma_progress_never_decreases(s, cfg, visits, 0);
    if visits.len() > 0 {
        let before = visits.drop_last();
        let mid = s.run(cfg, before);
        let end = s.run(cfg, visits);
        lemma_found_was_seen(s, cfg, before);
        lemma_step_never_goes_back(mid, cfg, visits.last());
        assert forall|j: int| s.folders.len() <= j < end.folders.len() implies s.sees(
            cfg,
            #[trigger] end.folders[j],
        ) by {
            if j < mid.folders.len() {
                assert(end.folders[j] == mid.folders[j]);
            } else {
                let e = visits.last()->Entry_0;
                assert(end.folders[j] == e.path);
                if !s.sees(cfg, e.path) {
                    lemma_unseen_stays_unseen(s, mid, cfg, e.path);
                }
            }
        }
        assert forall|j: int| s.files.len() <= j < end.files.len() implies s.sees(
            cfg,
            #[trigger] end.files[j],
        ) by {
            if j < mid.files.len() {
                assert(end.files[j] == mid.files[j]);
            } else {
                let e = visits.last()->Entry_0;
                assert(end.files[j] == e.path);
                if !s.sees(cfg, e.path) {
                    lemma_unseen_stays_unseen(s, mid, cfg, e.path);
                }
            }
        }
    }
}

/// No matched folder ever lies beneath a folder that was matched before
/// it: an orderly walk stays orderly.
pub proof fn lemma_walk_stays_orderly(s: Scan, cfg: ConfigView, visits: Seq<Visit>)
    requires
        s.orderly(),
    ensures
        s.run(cfg, visits).orderly(),
    decreases visits.len(),
{
    if visits.len() > 0 {
        let mid = s.run(cfg, visits.drop_last());
        let end = s.run(cfg, visits);
        lemma_walk_stays_orderly(s, cfg, visits.drop_last());
        lemma_step_never_goes_back(mid, cfg, visits.last());
        assert forall|i: int, j: int| 0 <= i < j < end.folders.len() implies
            !crate::path::is_strictly_under(end.folders[j], end.folders[i]) by {
            assert(end.folders[i] == mid.folders[i]);
            if j < mid.folders.len() {
                assert(end.folders[j] == mid.folders[j]);
            } else {
                let e = visits.last()->Entry_0;
                assert(end.folders[j] == e.path);
                assert(mid.sees(cfg, e.path));
            }
        }
    }
}

/// What lies beneath something that the walk does not see, the walk does
/// not see either. So a driver that is told to pass over a directory loses
/// nothing by not looking into it.
pub proof fn lemma_beneath_unseen_is_unseen(
    s: Scan,
    cfg: ConfigView,
    above: Seq<char>,
    path: Seq<char>,
)
    requires
        !s.sees(cfg, above),
        crate::path::is_under(path, above),
    ensures
        !s.sees(cfg, path),
{
    if excluded(above, cfg.exclude) {
        let i = choose|i: int|
            0 <= i < cfg.exclude.len() && crate::path::is_under(above, #[trigger] cfg.exclude[i]);
        crate::path::lemma_under_is_transitive(path, above, cfg.exclude[i]);
    } else {
        let i = choose|i: int|
            0 <= i < s.folders.len() && crate::path::is_strictly_under(
                above,
                #[trigger] s.folders[i],
            );
        crate::path::lemma_under_is_transitive(path, above, s.folders[i]);
    }
}

/// As soon as a folder is matched, the walk sees nothing that lies
/// strictly beneath it: a driver that is told to measure a folder loses
/// nothing by not descending into it.
pub proof fn lemma_matched_folder_is_pruned(s: Scan, cfg: ConfigView, e: EntryView, path: Seq<char>)
    requires
        s.action(cfg, Visit::Entry(e)).directive == Directive::Measure,
        crate::path::is_strictly_under(path, e.path),
    ensures
        !s.step(cfg, Visit::Entry(e)).sees(cfg, path),
{
    let after = s.step(cfg, Visit::Entry(e));
    assert(after.folders.last() == e.path);
}

/// A walk can be cut anywhere: going through one run of events and then
/// through another is going through both in a row.
pub proof fn lemma_run_splits(s: Scan, cfg: ConfigView, first: Seq<Visit>, rest: Seq<Visit>)
    ensures
        s.run(cfg, first + rest) == s.run(cfg, first).run(cfg, rest),
    decreases rest.len(),
{
    if rest.len() > 0 {
        lemma_run_splits(s, cfg, first, rest.drop_last());
        assert((first + rest).drop_last() =~= first + rest.drop_last());
    }
}

/// What a whole walk finds is clean: nothing in it is excluded, and no
/// matched folder lies beneath a folder that was matched before it.
pub proof fn lemma_walk_result_is_clean(cfg: ConfigView, visits: Seq<Visit>)
    ensures
        Scan::start().run(cfg, visits).orderly(),
        forall|j: int|
            0 <= j < Scan::start().run(cfg, visits).folders.len() ==> !excluded(
                #[trigger] Scan::start().run(cfg, visits).folders[j],
                cfg.exclude,
            ),
        forall|j: int|
            0 <= j < Scan::start().run(cfg, visits).files.len() ==> !excluded(
                #[trigger] Scan::start().run(cfg, visits).files[j],
                cfg.exclude,
            ),
{
    lemma_walk_stays_orderly(Scan::start(), cfg, visits);
    lemma_found_was_seen(Scan::start(), cfg, visits);
}

/// A walk in progress.
pub struct Walk {
    folder_rules: Vec<Vec<char>>,
    file_rules: Vec<Vec<char>>,
    /// The components of each excluded path.
    excludes: Vec<Vec<Vec<char>>>,
    options: Options,
    /// The matched folders as a set, each by its components: what a path
    /// is tested against to see whether it lies beneath one of them. No
    /// folder stands in it twice, however often it was met.
    matched: Vec<Vec<Vec<char>>>,
    result: SearchResult,
    measuring: bool,
    cfg: Ghost<ConfigView>,
}

impl View for Walk {
    type V = Scan;

    closed spec fn view(&self) -> Scan {
        Scan {
            folders: texts(self.result.folders@),
            files: texts(self.result.files@),
            total_size: self.result.total_size as nat,
            dirs_scanned: self.result.total_dirs_scanned as nat,
            files_scanned: self.result.total_files_scanned as nat,
            measuring: self.measuring,
        }
    }
}

impl Walk {
    /// The configuration that the walk was begun with.
    pub closed spec fn config(&self) -> ConfigView {
        self.cfg@
    }

    /// Whether the set of matched folders holds these components.
    closed spec fn knows(matched: Seq<Vec<Vec<char>>>, parts: Seq<Seq<char>>) -> bool {
        exists|i: int| 0 <= i < matched.len() && rows(#[trigger] matched[i]@) == parts
    }

    /// Whether one of the folders found has these components.
    closed spec fn found(folders: Seq<String>, parts: Seq<Seq<char>>) -> bool {
        exists|k: int| 0 <= k < folders.len() && components((#[trigger] folders[k])@) == parts
    }

    /// Whether what the walk keeps hangs together: the rules are those of
    /// its configuration, and the set of matched folders holds the
    /// components of every folder found, of nothing else, and of none
    /// twice.
    pub closed spec fn coherent(&self) -> bool {
        &&& rows(self.folder_rules@) == self.cfg@.folders
        &&& rows(self.file_rules@) == self.cfg@.files
        &&& self.options == self.cfg@.options
        &&& self.excludes.len() == self.cfg@.exclude.len()
        &&& forall|i: int|
            0 <= i < self.excludes.len() ==> rows(#[trigger] self.excludes@[i]@) == components(
                self.cfg@.exclude[i],
            )
        &&& forall|i: int|
            0 <= i < self.matched.len() ==> Self::found(
                self.result.folders@,
                rows(#[trigger] self.matched@[i]@),
            )
        &&& forall|k: int|
            0 <= k < self.result.folders.len() ==> Self::knows(
                self.matched@,
                components((#[trigger] self.result.folders@[k])@),
            )
        &&& forall|i: int, j: int|
            0 <= i < j < self.matched.len() ==> rows(#[trigger] self.matched@[i]@) != rows(
                #[trigger] self.matched@[j]@,
            )
    }

    /// What holds of every walk: what it keeps hangs together, and its
    /// counters fit the machine's integers.
    pub open spec fn wf(&self) -> bool {
        self.coherent() && self@.fits()
    }

    fn hides(&self, parts: &Vec<Vec<char>>, Ghost(path): Ghost<Seq<char>>) -> (hidden: bool)
        requires
            self.coherent(),
            rows(parts@) == components(path),
        ensures
            hidden == excluded(path, self.config().exclude),
    {
        let mut i: usize = 0;
        while i < self.excludes.len()
            invariant
                self.coherent(),
                i <= self.excludes.len(),
                rows(parts@) == components(path),
                forall|k: int|
                    0 <= k < i ==> !crate::path::is_under(path, #[trigger] self.cfg@.exclude[k]),
            decreases self.excludes.len() - i,
        {
            if begins(&self.excludes[i], parts) {
                return true;
            }
            i += 1;
        }
        false
    }

    fn prunes(&self, parts: &Vec<Vec<char>>, Ghost(path): Ghost<Seq<char>>) -> (inside: bool)
        requires
            self.coherent(),
            rows(parts@) == components(path),
        ensures
            inside == pruned(path, self@.folders),
    {
        let ghost folders = self.result.folders@;
        let mut i: usize = 0;
        while i < self.matched.len()
            invariant
                self.coherent(),
                i <= self.matched.len(),
                folders == self.result.folders@,
                rows(parts@) == components(path),
                forall|m: int|
                    0 <= m < i ==> !(rows(#[trigger] self.matched@[m]@).is_prefix_of(
                        components(path),
                    ) && self.matched@[m]@.len() < components(path).len()),
            decreases self.matched.len() - i,
        {
            if self.matched[i].len() < parts.len() && begins(&self.matched[i], parts) {
                proof {
                    assert(Self::found(folders, rows(self.matched@[i as int]@)));
                    let k = choose|k: int|
                        0 <= k < folders.len() && components((#[trigger] folders[k])@) == rows(
                            self.matched@[i as int]@,
                        );
                    assert(texts(folders)[k] == folders[k]@);
                    assert(crate::path::is_strictly_under(path, texts(folders)[k]));
                }
                return true;
            }
            i += 1;
        }
        proof {
            assert forall|k: int| 0 <= k < texts(folders).len() implies
                !crate::path::is_strictly_under(path, #[trigger] texts(folders)[k]) by {
                assert(texts(folders)[k] == folders[k]@);
                assert(Self::knows(self.matched@, components(folders[k]@)));
                let m = choose|m: int|
                    0 <= m < self.matched@.len() && rows(#[trigger] self.matched@[m]@)
                        == components(folders[k]@);
                assert(rows(self.matched@[m]@).len() == self.matched@[m]@.len());
            }
        }
        false
    }

    /// Whether the set of matched folders holds these components already.
    fn knows_parts(&self, parts: &Vec<Vec<char>>) -> (known: bool)
        ensures
            known == Self::knows(self.matched@, rows(parts@)),
    {
        let mut i: usize = 0;
        while i < self.matched.len()
            invariant
                i <= self.matched.len(),
                forall|m: int| 0 <= m < i ==> rows(#[trigger] self.matched@[m]@) != rows(parts@),
            decreases self.matched.len() - i,
        {
            if self.matched[i].len() == parts.len() && begins(&self.matched[i], parts) {
                assert(rows(self.matched@[i as int]@) =~= rows(parts@));
                return true;
            }
            proof {
                if rows(self.matched@[i as int]@) == rows(parts@) {
                    assert(rows(self.matched@[i as int]@) =~= rows(parts@).subrange(
                        0,
                        self.matched@[i as int]@.len() as int,
                    ));
                }
            }
            i += 1;
        }
        false
    }

    fn names_folder(&self, name: &Vec<char>) -> (yes: bool)
        requires
            self.coherent(),
        ensures
            yes == any_folder_rule(self.config().folders, name@),
    {
        let mut i: usize = 0;
        while i < self.folder_rules.len()
            invariant
                self.coherent(),
                i <= self.folder_rules.len(),
                forall|k: int|
                    0 <= k < i ==> !crate::search::folder_matches(
                        #[trigger] self.cfg@.folders[k],
                        name@,
                    ),
            decreases self.folder_rules.len() - i,
        {
            assert(rows(self.folder_rules@)[i as int] == self.folder_rules@[i as int]@);
            if SearchEngine::folder_match(&self.folder_rules[i], name) {
                return true;
            }
            i += 1;
        }
        false
    }

    fn names_file(&self, name: &Vec<char>) -> (yes: bool)
        requires
            self.coherent(),
        ensures
            yes == any_file_rule(self.config().files, name@),
    {
        let mut i: usize = 0;
        while i < self.file_rules.len()
            invariant
                self.coherent(),
                i <= self.file_rules.len(),
                forall|k: int|
                    0 <= k < i ==> !crate::search::glob_matches(
                        #[trigger] self.cfg@.files[k],
                        name@,
                    ),
            decreases self.file_rules.len() - i,
        {
            assert(rows(self.file_rules@)[i as int] == self.file_rules@[i as int]@);
            assert(self.file_rules@[i as int]@.skip(0) =~= self.file_rules@[i as int]@);
            assert(name@.skip(0) =~= name@);
            if SearchEngine::glob_match_recursive(&self.file_rules[i], name, 0, 0) {
                return true;
            }
            i += 1;
        }
        false
    }

    fn report_after_dir(&self) -> (due: bool)
        ensures
            due == self@.report_after_dir(),
    {
        self.result.total_dirs_scanned % DIRS_PER_REPORT == 0 || (self.result.folders.len() > 0
            && self.result.folders.len() % MATCHES_PER_REPORT == 0)
    }

    /// Whether the walk can take `event` without a counter leaving the
    /// machine's integers.
    pub fn fits(&self, event: &WalkEvent) -> (ok: bool)
        requires
            self.wf(),
        ensures
            ok == self@.step(self.config(), event@).fits(),
    {
        match event {
            WalkEvent::Fault => true,
            WalkEvent::FolderSize(n) => !self.measuring || *n <= u64::MAX
                - self.result.total_size,
            WalkEvent::Entry(e) => {
                let parts = split(e.path.as_str());
                if self.hides(&parts, Ghost(e.path@)) || self.prunes(&parts, Ghost(e.path@)) {
                    true
                } else {
                    match e.kind {
                        EntryKind::Other => true,
                        EntryKind::File => {
                            if self.result.total_files_scanned == usize::MAX {
                                false
                            } else if self.takes_file(e, &parts) {
                                e.size <= u64::MAX - self.result.total_size
                            } else {
                                true
                            }
                        },
                        EntryKind::Directory => self.result.total_dirs_scanned < usize::MAX,
                    }
                }
            },
        }
    }

    fn takes_file(&self, e: &Entry, parts: &Vec<Vec<char>>) -> (yes: bool)
        requires
            self.coherent(),
            rows(parts@) == components(e.path@),
        ensures
            yes == Scan::takes_file(self.config(), e@),
    {
        if !SearchEngine::check_size(e.size, self.options.min_size, self.options.max_size) {
            return false;
        }
        if !SearchEngine::check_age(
            e.age_secs,
            self.options.min_age_days,
            self.options.max_age_days,
        ) {
            return false;
        }
        match last_name(parts) {
            Some(name) => self.names_file(name),
            None => {
                let empty: Vec<char> = Vec::new();
                self.names_file(&empty)
            },
        }
    }

    fn takes_folder(&self, e: &Entry, parts: &Vec<Vec<char>>) -> (yes: bool)
        requires
            self.coherent(),
            rows(parts@) == components(e.path@),
        ensures
            yes == Scan::takes_folder(self.config(), e@),
    {
        match last_name(parts) {
            Some(name) => self.names_folder(name),
            None => {
                let empty: Vec<char> = Vec::new();
                self.names_folder(&empty)
            },
        }
    }

    /// Takes one event from the driver and says what to do next.
    pub fn step(&mut self, event: &WalkEvent) -> (action: WalkAction)
        requires
            old(self).wf(),
            old(self)@.step(old(self).config(), event@).fits(),
        ensures
            final(self).wf(),
            final(self).config() == old(self).config(),
            final(self)@ == old(self)@.step(old(self).config(), event@),
            action == old(self)@.action(old(self).config(), event@),
    {
        match event {
            WalkEvent::Fault => WalkAction { directive: Directive::Continue, report: false },
            WalkEvent::FolderSize(n) => {
                if self.measuring {
                    self.result.total_size = self.result.total_size + *n;
                    self.measuring = false;
                    let report = self.report_after_dir();
                    WalkAction { directive: Directive::Continue, report }
                } else {
                    WalkAction { directive: Directive::Continue, report: false }
                }
            },
            WalkEvent::Entry(e) => {
                let parts = split(e.path.as_str());
                if self.hides(&parts, Ghost(e.path@)) || self.prunes(&parts, Ghost(e.path@)) {
                    return WalkAction { directive: Directive::Skip, report: false };
                }
                match e.kind {
                    EntryKind::Other => WalkAction {
                        directive: Directive::Continue,
                        report: false,
                    },
                    EntryKind::File => {
                        let taken = self.takes_file(e, &parts);
                        self.result.total_files_scanned = self.result.total_files_scanned + 1;
                        if taken {
                            let ghost before = texts(self.result.files@);
                            self.result.files.push(e.path.clone());
                            assert(texts(self.result.files@) =~= before.push(e.path@));
                            self.result.total_size = self.result.total_size + e.size;
                        }
                        WalkAction {
                            directive: Directive::Continue,
                            report: self.result.total_files_scanned % FILES_PER_REPORT == 0,
                        }
                    },
                    EntryKind::Directory => {
                        let taken = self.takes_folder(e, &parts);
                        self.result.total_dirs_scanned = self.result.total_dirs_scanned + 1;
                        if taken {
                            let ghost before = texts(self.result.folders@);
                            let ghost old_folders = self.result.folders@;
                            let ghost old_matched = self.matched@;
                            let ghost added = rows(parts@);
                            let known = self.knows_parts(&parts);
                            let folder = e.path.clone();
                            self.result.folders.push(folder);
                            if !known {
                                self.matched.push(parts);
                            }
                            self.measuring = true;
                            proof {
                                let folders = self.result.folders@;
                                let matched = self.matched@;
                                assert(texts(folders) =~= before.push(e.path@));
                                assert(folders[folders.len() - 1]@ == e.path@);
                                assert forall|i: int| 0 <= i < matched.len() implies Self::found(
                                    folders,
                                    rows(#[trigger] matched[i]@),
                                ) by {
                                    if i < old_matched.len() {
                                        assert(matched[i] == old_matched[i]);
                                        assert(Self::found(old_folders, rows(old_matched[i]@)));
                                        let k = choose|k: int|
                                            0 <= k < old_folders.len() && components(
                                                (#[trigger] old_folders[k])@,
                                            ) == rows(old_matched[i]@);
                                        assert(folders[k] == old_folders[k]);
                                    } else {
                                        assert(components(folders[folders.len() - 1]@) == rows(
                                            matched[i]@,
                                        ));
                                    }
                                }
                                assert forall|k: int| 0 <= k < folders.len() implies Self::knows(
                                    matched,
                                    components((#[trigger] folders[k])@),
                                ) by {
                                    if k < old_folders.len() {
                                        assert(folders[k] == old_folders[k]);
                                        assert(Self::knows(
                                            old_matched,
                                            components(old_folders[k]@),
                                        ));
                                        let m = choose|m: int|
                                            0 <= m < old_matched.len() && rows(
                                                #[trigger] old_matched[m]@,
                                            ) == components(old_folders[k]@);
                                        assert(matched[m] == old_matched[m]);
                                    } else if known {
                                        let m = choose|m: int|
                                            0 <= m < old_matched.len() && rows(
                                                #[trigger] old_matched[m]@,
                                            ) == added;
                                        assert(matched[m] == old_matched[m]);
                                    } else {
                                        assert(rows(matched[matched.len() - 1]@) == added);
                                    }
                                }
                                assert forall|i: int, j: int|
                                    0 <= i < j < matched.len() implies rows(
                                    #[trigger] matched[i]@,
                                ) != rows(#[trigger] matched[j]@) by {
                                    assert(matched[i] == old_matched[i]);
                                    if j < old_matched.len() {
                                        assert(matched[j] == old_matched[j]);
                                    }
                                }
                            }
                            WalkAction { directive: Directive::Measure, report: false }
                        } else {
                            let report = self.report_after_dir();
                            WalkAction { directive: Directive::Continue, report }
                        }
                    },
                }
            },
        }
    }

    /// Takes one event from the driver if the counters allow it. Where a
    /// counter would leave the machine's integers nothing is taken: the
    /// walk stays as it is and there is no answer.
    pub fn try_step(&mut self, event: &WalkEvent) -> (action: Option<WalkAction>)
        requires
            old(self).wf(),
        ensures
            final(self).wf(),
            final(self).config() == old(self).config(),
            old(self)@.step(old(self).config(), event@).fits() ==> final(self)@ == old(self)@.step(
                old(self).config(),
                event@,
            ) && action == Some(old(self)@.action(old(self).config(), event@)),
            !old(self)@.step(old(self).config(), event@).fits() ==> final(self)@ == old(self)@
                && action is None,
    {
        if self.fits(event) {
            Some(self.step(event))
        } else {
            None
        }
    }

    /// The counters as they stand.
    pub fn progress(&self) -> (p: Progress)
        ensures
            p.files_scanned == self@.files_scanned,
            p.dirs_scanned == self@.dirs_scanned,
            p.files_matched == self@.files.len(),
            p.dirs_matched == self@.folders.len(),
            p.total_size == self@.total_size,
    {
        Progress {
            files_scanned: self.result.total_files_scanned,
            dirs_scanned: self.result.total_dirs_scanned,
            files_matched: self.result.files.len(),
            dirs_matched: self.result.folders.len(),
            total_size: self.result.total_size,
        }
    }

    /// Ends the walk and hands out what it found.
    pub fn finish(self) -> (result: SearchResult)
        ensures
            result@.folders == self@.folders,
            result@.files == self@.files,
            result@.total_size == self@.total_size,
            result@.total_dirs_scanned == self@.dirs_scanned,
            result@.total_files_scanned == self@.files_scanned,
    {
        self.result
    }
}

impl SearchEngine {
    /// Begins a search under `config`: the walk before any entry was seen.
    pub fn search(config: &Config) -> (walk: Walk)
        ensures
            walk.wf(),
            walk.config() == config@,
            walk@ == Scan::start(),
    {
        let mut folder_rules: Vec<Vec<char>> = Vec::new();
        let mut i: usize = 0;
        while i < config.clean.folders.len()
            invariant
                i <= config.clean.folders.len(),
                rows(folder_rules@) == texts(config.clean.folders@.take(i as int)),
            decreases config.clean.folders.len() - i,
        {
            let ghost before = rows(folder_rules@);
            folder_rules.push(chars_of(config.clean.folders[i].as_str()));
            i += 1;
            assert(texts(config.clean.folders@.take(i as int)) =~= before.push(
                config.clean.folders@[i - 1]@,
            ));
        }
        assert(config.clean.folders@.take(i as int) =~= config.clean.folders@);
        let mut file_rules: Vec<Vec<char>> = Vec::new();
        let mut j: usize = 0;
        while j < config.clean.files.len()
            invariant
                j <= config.clean.files.len(),
                rows(file_rules@) == texts(config.clean.files@.take(j as int)),
            decreases config.clean.files.len() - j,
        {
            let ghost before = rows(file_rules@);
            file_rules.push(chars_of(config.clean.files[j].as_str()));
            j += 1;
            assert(texts(config.clean.files@.take(j as int)) =~= before.push(
                config.clean.files@[j - 1]@,
            ));
        }
        assert(config.clean.files@.take(j as int) =~= config.clean.files@);
        let mut excludes: Vec<Vec<Vec<char>>> = Vec::new();
        let mut k: usize = 0;
        while k < config.exclude.len()
            invariant
                k <= config.exclude.len(),
                excludes.len() == k,
                forall|m: int|
                    0 <= m < k ==> rows(#[trigger] excludes@[m]@) == components(
                        config.exclude@[m]@,
                    ),
            decreases config.exclude.len() - k,
        {
            excludes.push(split(config.exclude[k].as_str()));
            k += 1;
        }
        let result = SearchResult {
            folders: Vec::new(),
            files: Vec::new(),
            total_size: 0,
            total_dirs_scanned: 0,
            total_files_scanned: 0,
        };
        assert(texts(result.folders@) =~= Seq::empty() && texts(result.files@) =~= Seq::empty());
        Walk {
            folder_rules,
            file_rules,
            excludes,
            options: config.options,
            matched: Vec::new(),
            result,
            measuring: false,
            cfg: Ghost(config@),
        }
    }
}

} // verus!
