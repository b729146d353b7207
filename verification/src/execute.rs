//! The delete executor, as a machine that a driver feeds.
//!
//! The executor owns the decisions: which item is next, whether it passed
//! the safety check, whether the user is to be asked, and where each item
//! ends up. The driver owns the file system and the terminal: it performs
//! the task that the executor names and reports what came of it.

use vstd::prelude::*;
use crate::delete::{
    failures, is_plan_of, safety_objection, DeleteEngine, DeletePlan, DeleteResult,
    DeleteResultView,
};
use crate::error::CleanError;
use crate::search::SearchResult;
use crate::text::{copy_texts, texts};

verus! {

/// What the user answers when asked about one item.
#[derive(Debug, Clone, Copy, PartialEq, Eq, Structural)]
pub enum Decision {
    /// Remove this item.
    Proceed,
    /// Leave this item alone.
    Skip,
    /// Remove this item and all that follow without asking again.
    AcceptAll,
    /// Stop the run. What was removed stays removed.
    Abort,
}

/// Where a removed item goes.
#[derive(Debug, Clone, Copy, PartialEq, Eq, Structural)]
pub enum Removal {
    /// It is deleted for good.
    Permanent,
    /// It is moved to the trash, from where it can be recovered.
    Trash,
}

/// How a run is to be made. The caller chooses; the executor obeys.
#[derive(Debug, Clone, Copy, PartialEq, Eq, Structural)]
pub struct Policy {
    /// Report what would be removed and remove nothing.
    pub dry_run: bool,
    /// Ask the user before each removal.
    pub interactive: bool,
    pub removal: Removal,
}

/// What the current item waits for.
#[derive(Debug, Clone, Copy, PartialEq, Eq, Structural)]
pub enum Stage {
    Resolve,
    Measure,
    Confirm,
    Remove,
}

/// What the driver is to do next.
#[derive(Debug)]
pub enum DeleteAction {
    /// Bring the path into canonical form and report it, or report that it
    /// cannot be resolved.
    Resolve { path: String, is_dir: bool },
    /// Report the item's size: a file's length, or zero where it cannot be
    /// read; for a directory the sizes of the files in it, added up.
    Measure { path: String, is_dir: bool },
    /// Ask the user about the item and report the answer.
    Confirm { path: String, is_dir: bool, size: u64 },
    /// Remove the item and report whether that worked.
    Remove { path: String, is_dir: bool, removal: Removal },
    /// Nothing: the run is over.
    Done,
}

/// What the driver reports.
#[derive(Debug)]
pub enum DeleteEvent {
    /// The canonical form of the path, or `None` where it has none.
    Resolved(Option<String>),
    Measured(u64),
    Decided(Decision),
    /// Whether the item is gone; if not, why.
    Removed(Result<(), String>),
}

/// A task as plain text and numbers.
pub enum Task {
    Resolve { path: Seq<char>, is_dir: bool },
    Measure { path: Seq<char>, is_dir: bool },
    Confirm { path: Seq<char>, is_dir: bool, size: u64 },
    Remove { path: Seq<char>, is_dir: bool, removal: Removal },
    Done,
}

/// A report as plain text and numbers.
pub enum Reply {
    Resolved(Option<Seq<char>>),
    Measured(u64),
    Decided(Decision),
    /// `None` where the item is gone, else the cause.
    Removed(Option<Seq<char>>),
}

impl View for DeleteAction {
    type V = Task;

    open spec fn view(&self) -> Task {
        match self {
            DeleteAction::Resolve { path, is_dir } => Task::Resolve {
                path: path@,
                is_dir: *is_dir,
            },
            DeleteAction::Measure { path, is_dir } => Task::Measure {
                path: path@,
                is_dir: *is_dir,
            },
            DeleteAction::Confirm { path, is_dir, size } => Task::Confirm {
                path: path@,
                is_dir: *is_dir,
                size: *size,
            },
            DeleteAction::Remove { path, is_dir, removal } => Task::Remove {
                path: path@,
                is_dir: *is_dir,
                removal: *removal,
            },
            DeleteAction::Done => Task::Done,
        }
    }
}

impl View for DeleteEvent {
    type V = Reply;

    open spec fn view(&self) -> Reply {
        match self {
            DeleteEvent::Resolved(Some(c)) => Reply::Resolved(Some(c@)),
            DeleteEvent::Resolved(None) => Reply::Resolved(None),
            DeleteEvent::Measured(n) => Reply::Measured(*n),
            DeleteEvent::Decided(d) => Reply::Decided(*d),
            DeleteEvent::Removed(Ok(_)) => Reply::Removed(None),
            DeleteEvent::Removed(Err(cause)) => Reply::Removed(Some(cause@)),
        }
    }
}

/// The state of a run, as mathematics.
pub struct Run {
    pub files: Seq<Seq<char>>,
    pub dirs: Seq<Seq<char>>,
    pub policy: Policy,
    /// Whether the files are done with and the directories have begun.
    pub on_dirs: bool,
    /// The position of the current item in its list.
    pub index: nat,
    pub stage: Stage,
    /// The size of the current item, once measured.
    pub size: u64,
    /// Whether the user has accepted all that follows.
    pub accept_all: bool,
    pub cancelled: bool,
    pub deleted_files: Seq<Seq<char>>,
    pub deleted_dirs: Seq<Seq<char>>,
    pub failed_files: Seq<(Seq<char>, Seq<char>)>,
    pub failed_dirs: Seq<(Seq<char>, Seq<char>)>,
    pub total_size: nat,
    /// How many files the user chose to leave alone.
    pub skipped_files: nat,
    /// How many directories the user chose to leave alone.
    pub skipped_dirs: nat,
}

impl Run {
    /// The stage in which every item begins. A dry run only measures: it
    /// validates nothing, asks nothing and removes nothing.
    pub open spec fn first_stage(policy: Policy) -> Stage {
        if policy.dry_run {
            Stage::Measure
        } else {
            Stage::Resolve
        }
    }

    /// The run before anything was done: files first, then directories.
    pub open spec fn begin(files: Seq<Seq<char>>, dirs: Seq<Seq<char>>, policy: Policy) -> Run {
        Run {
            files,
            dirs,
            policy,
            on_dirs: files.len() == 0,
            index: 0,
            stage: Self::first_stage(policy),
            size: 0,
            accept_all: false,
            cancelled: false,
            deleted_files: Seq::empty(),
            deleted_dirs: Seq::empty(),
            failed_files: Seq::empty(),
            failed_dirs: Seq::empty(),
            total_size: 0,
            skipped_files: 0,
            skipped_dirs: 0,
        }
    }

    /// A dry run that has nothing left to measure because the sizes are
    /// known already: it is over at once, every item of the plan counts as
    /// deleted, nothing has failed, and the size is the one handed in.
    pub open spec fn previewed(files: Seq<Seq<char>>, dirs: Seq<Seq<char>>, total_size: u64) -> Run {
        Run {
            files,
            dirs,
            policy: Policy { dry_run: true, interactive: false, removal: Removal::Permanent },
            on_dirs: true,
            index: dirs.len(),
            stage: Stage::Measure,
            size: 0,
            accept_all: false,
            cancelled: false,
            deleted_files: files,
            deleted_dirs: dirs,
            failed_files: Seq::empty(),
            failed_dirs: Seq::empty(),
            total_size: total_size as nat,
            skipped_files: 0,
            skipped_dirs: 0,
        }
    }

    /// Whether the run is over: cancelled, or past the last item.
    pub open spec fn done(self) -> bool {
        self.cancelled || (self.on_dirs && self.index >= self.dirs.len())
    }

    /// The current item.
    pub open spec fn item(self) -> Seq<char> {
        if self.on_dirs {
            self.dirs[self.index as int]
        } else {
            self.files[self.index as int]
        }
    }

    /// How many files have met their fate.
    pub open spec fn files_handled(self) -> nat {
        if self.on_dirs {
            self.files.len()
        } else {
            self.index
        }
    }

    /// How many directories have met their fate.
    pub open spec fn dirs_handled(self) -> nat {
        if self.on_dirs {
            self.index
        } else {
            0
        }
    }

    /// The run with the next item as the current one.
    pub open spec fn moved_on(self) -> Run {
        if !self.on_dirs && self.index + 1 >= self.files.len() {
            Run {
                on_dirs: true,
                index: 0,
                stage: Self::first_stage(self.policy),
                size: 0,
                ..self
            }
        } else {
            Run {
                index: self.index + 1,
                stage: Self::first_stage(self.policy),
                size: 0,
                ..self
            }
        }
    }

    /// The run after the current item was deleted: it is listed, its size
    /// counted, and the next item is up.
    pub open spec fn with_deleted(self) -> Run {
        let counted = Run { total_size: self.total_size + self.size as nat, ..self };
        if self.on_dirs {
            Run { deleted_dirs: self.deleted_dirs.push(self.item()), ..counted }.moved_on()
        } else {
            Run { deleted_files: self.deleted_files.push(self.item()), ..counted }.moved_on()
        }
    }

    /// The run after the current item failed for `cause`: it is listed with
    /// the cause, and the next item is up.
    pub open spec fn with_failed(self, cause: Seq<char>) -> Run {
        if self.on_dirs {
            Run { failed_dirs: self.failed_dirs.push((self.item(), cause)), ..self }.moved_on()
        } else {
            Run { failed_files: self.failed_files.push((self.item(), cause)), ..self }.moved_on()
        }
    }

    /// The run after the user chose to leave the current item alone.
    pub open spec fn with_skipped(self) -> Run {
        if self.on_dirs {
            Run { skipped_dirs: self.skipped_dirs + 1, ..self }.moved_on()
        } else {
            Run { skipped_files: self.skipped_files + 1, ..self }.moved_on()
        }
    }

    /// What the driver is to do next.
    pub open spec fn pending(self) -> Task {
        if self.done() {
            Task::Done
        } else {
            match self.stage {
                Stage::Resolve => Task::Resolve { path: self.item(), is_dir: self.on_dirs },
                Stage::Measure => Task::Measure { path: self.item(), is_dir: self.on_dirs },
                Stage::Confirm => Task::Confirm {
                    path: self.item(),
                    is_dir: self.on_dirs,
                    size: self.size,
                },
                Stage::Remove => Task::Remove {
                    path: self.item(),
                    is_dir: self.on_dirs,
                    removal: self.policy.removal,
                },
            }
        }
    }

    /// Whether `reply` is a report on the pending task.
    pub open spec fn answers(self, reply: Reply) -> bool {
        !self.done() && match self.stage {
            Stage::Resolve => reply is Resolved,
            Stage::Measure => reply is Measured,
            Stage::Confirm => reply is Decided,
            Stage::Remove => reply is Removed,
        }
    }

    /// The run after a report. A report that does not answer the pending
    /// task changes nothing.
    pub open spec fn advance(self, reply: Reply) -> Run {
        if !self.answers(reply) {
            self
        } else {
            match reply {
                Reply::Resolved(canonical) => match safety_objection(self.item(), canonical) {
                    Some(text) => self.with_failed(text),
                    None => Run { stage: Stage::Measure, ..self },
                },
                Reply::Measured(n) => {
                    let measured = Run { size: n, ..self };
                    if self.policy.dry_run {
                        measured.with_deleted()
                    } else if self.policy.interactive && !self.accept_all {
                        Run { stage: Stage::Confirm, ..measured }
                    } else {
                        Run { stage: Stage::Remove, ..measured }
                    }
                },
                Reply::Decided(decision) => match decision {
                    Decision::Proceed => Run { stage: Stage::Remove, ..self },
                    Decision::Skip => self.with_skipped(),
                    Decision::AcceptAll => Run {
                        accept_all: true,
                        stage: Stage::Remove,
                        ..self
                    },
                    Decision::Abort => Run { cancelled: true, ..self },
                },
                Reply::Removed(None) => self.with_deleted(),
                Reply::Removed(Some(cause)) => self.with_failed(cause),
            }
        }
    }

    /// The run after a sequence of reports.
    pub open spec fn after(self, replies: Seq<Reply>) -> Run
        decreases replies.len(),
    {
        if replies.len() == 0 {
            self
        } else {
            self.after(replies.drop_last()).advance(replies.last())
        }
    }

    /// Whatever the run lists, as deleted or as failed, is an item of the plan.
    pub open spec fn within_plan(self) -> bool {
        &&& forall|i: int|
            0 <= i < self.deleted_files.len() ==> self.files.contains(
                #[trigger] self.deleted_files[i],
            )
        &&& forall|i: int|
            0 <= i < self.deleted_dirs.len() ==> self.dirs.contains(#[trigger] self.deleted_dirs[i])
        &&& forall|i: int|
            0 <= i < self.failed_files.len() ==> self.files.contains(
                (#[trigger] self.failed_files[i]).0,
            )
        &&& forall|i: int|
            0 <= i < self.failed_dirs.len() ==> self.dirs.contains(
                (#[trigger] self.failed_dirs[i]).0,
            )
    }

    /// What holds of a run at every moment.
    pub open spec fn inv(self) -> bool {
        &&& self.within_plan()
        &&& !self.on_dirs ==> self.index < self.files.len()
        &&& self.on_dirs ==> self.index <= self.dirs.len()
        &&& self.deleted_files.len() + self.failed_files.len() + self.skipped_files
            == self.files_handled()
        &&& self.deleted_dirs.len() + self.failed_dirs.len() + self.skipped_dirs
            == self.dirs_handled()
        &&& !self.policy.interactive ==> self.skipped_files == 0 && self.skipped_dirs == 0
            && !self.cancelled && !self.accept_all
        &&& self.stage is Confirm ==> self.policy.interactive && !self.accept_all
        &&& self.policy.dry_run ==> {
            &&& self.stage is Measure
            &&& !self.cancelled
            &&& self.deleted_files == self.files.take(self.files_handled() as int)
            &&& self.deleted_dirs == self.dirs.take(self.dirs_handled() as int)
        }
    }

    /// How many items still wait for their fate, the current one counted.
    pub open spec fn items_left(self) -> nat {
        if self.done() {
            0
        } else if self.on_dirs {
            (self.dirs.len() - self.index) as nat
        } else {
            (self.files.len() - self.index + self.dirs.len()) as nat
        }
    }

    /// A bound on the reports that the run still needs: four for each item
    /// that waits, less the stages that the current one has behind it.
    pub open spec fn work_left(self) -> nat {
        if self.done() {
            0
        } else {
            let behind: nat = match self.stage {
                Stage::Resolve => 0,
                Stage::Measure => 1,
                Stage::Confirm => 2,
                Stage::Remove => 3,
            };
            (4 * self.items_left() - behind) as nat
        }
    }

    /// Whether the size removed fits the machine's integers.
    pub open spec fn fits(self) -> bool {
        self.total_size <= u64::MAX
    }

    /// The result of the run as it stands.
    pub open spec fn result(self) -> DeleteResultView {
        DeleteResultView {
            deleted_files: self.deleted_files,
            deleted_dirs: self.deleted_dirs,
            failed_files: self.failed_files,
            failed_dirs: self.failed_dirs,
            total_size: self.total_size as u64,
        }
    }
}

/// A fresh run is in order.
pub proof fn lemma_begin_inv(files: Seq<Seq<char>>, dirs: Seq<Seq<char>>, policy: Policy)
    ensures
        Run::begin(files, dirs, policy).inv(),
{
    let r = Run::begin(files, dirs, policy);
    assert(r.deleted_files =~= files.take(0));
    assert(r.deleted_dirs =~= dirs.take(0));
}

/// A previewed run is in order, and over.
pub proof fn lemma_previewed_inv(files: Seq<Seq<char>>, dirs: Seq<Seq<char>>, total_size: u64)
    ensures
        Run::previewed(files, dirs, total_size).inv(),
        Run::previewed(files, dirs, total_size).done(),
{
    let r = Run::previewed(files, dirs, total_size);
    assert(r.deleted_files =~= files.take(files.len() as int));
    assert(r.deleted_dirs =~= dirs.take(dirs.len() as int));
}

/// Whatever is reported, a run that was in order stays in order.
pub proof fn lemma_advance_inv(run: Run, reply: Reply)
    requires
        run.inv(),
    ensures
        run.advance(reply).inv(),
{
    if run.answers(reply) && run.policy.dry_run {
        let next = run.advance(reply);
        assert(next.deleted_files =~= run.files.take(next.files_handled() as int));
        assert(next.deleted_dirs =~= run.dirs.take(next.dirs_handled() as int));
    }
}

/// Nothing is touched that was not planned: the item of every task that a
/// run sets is an item of its plan, a file while the files are up and a
/// directory after that, and so is whatever the run lists.
pub proof fn lemma_only_planned_items_are_touched(run: Run)
    requires
        run.inv(),
        !run.done(),
    ensures
        run.within_plan(),
        !run.on_dirs ==> run.files.contains(run.item()),
        run.on_dirs ==> run.dirs.contains(run.item()),
        match run.pending() {
            Task::Resolve { path, is_dir } => path == run.item() && is_dir == run.on_dirs,
            Task::Measure { path, is_dir } => path == run.item() && is_dir == run.on_dirs,
            Task::Confirm { path, is_dir, size } => path == run.item() && is_dir == run.on_dirs,
            Task::Remove { path, is_dir, removal } => path == run.item() && is_dir == run.on_dirs,
            Task::Done => false,
        },
{
}

/// After any sequence of reports a run that began in order is in order.
pub proof fn lemma_after_inv(run: Run, replies: Seq<Reply>)
    requires
        run.inv(),
    ensures
        run.after(replies).inv(),
    decreases replies.len(),
{
    if replies.len() > 0 {
        lemma_after_inv(run, replies.drop_last());
        lemma_advance_inv(run.after(replies.drop_last()), replies.last());
    }
}

/// Whatever is reported, the plan and the policy of a run stay as they
/// were when it began.
pub proof fn lemma_after_keeps_plan(run: Run, replies: Seq<Reply>)
    ensures
        run.after(replies).files == run.files,
        run.after(replies).dirs == run.dirs,
        run.after(replies).policy == run.policy,
    decreases replies.len(),
{
    if replies.len() > 0 {
        lemma_after_keeps_plan(run, replies.drop_last());
    }
}

/// However a run without confirmation goes, once it is over every file
/// of the plan is either among the deleted or among the failed, and so is
/// every directory: the numbers add up to the plan's.
pub proof fn lemma_finished_run_accounts_for_the_plan(
    files: Seq<Seq<char>>,
    dirs: Seq<Seq<char>>,
    policy: Policy,
    replies: Seq<Reply>,
)
    requires
        !policy.interactive,
        Run::begin(files, dirs, policy).after(replies).done(),
    ensures
        ({
            let end = Run::begin(files, dirs, policy).after(replies);
            &&& end.deleted_files.len() + end.failed_files.len() == files.len()
            &&& end.deleted_dirs.len() + end.failed_dirs.len() == dirs.len()
            &&& !end.cancelled
        }),
{
    let start = Run::begin(files, dirs, policy);
    lemma_begin_inv(files, dirs, policy);
    lemma_after_inv(start, replies);
    lemma_after_keeps_plan(start, replies);
}

/// Every item that was handled met exactly one fate: it was deleted, it
/// failed, or the user chose to leave it alone. Where nobody is asked
/// nothing is left alone, so when such a run is over the deleted and the
/// failed files together are the files of the plan, and so for the
/// directories.
pub proof fn lemma_every_item_meets_one_fate(run: Run)
    requires
        run.inv(),
    ensures
        run.deleted_files.len() + run.failed_files.len() + run.skipped_files
            == run.files_handled(),
        run.deleted_dirs.len() + run.failed_dirs.len() + run.skipped_dirs == run.dirs_handled(),
        run.done() && !run.cancelled ==> run.files_handled() == run.files.len()
            && run.dirs_handled() == run.dirs.len(),
        !run.policy.interactive && run.done() ==> {
            &&& run.deleted_files.len() + run.failed_files.len() == run.files.len()
            &&& run.deleted_dirs.len() + run.failed_dirs.len() == run.dirs.len()
        },
{
}

/// A dry run removes nothing: the only task it ever sets is to measure,
/// it asks for no safety check, no confirmation and no removal, and
/// nothing in it fails. What it has measured it lists as deleted, in the
/// plan's order, so that in the end it lists the whole plan.
pub proof fn lemma_dry_run_removes_nothing(run: Run)
    requires
        run.inv(),
        run.policy.dry_run,
    ensures
        run.pending() is Measure || run.pending() is Done,
        run.deleted_files == run.files.take(run.files_handled() as int),
        run.deleted_dirs == run.dirs.take(run.dirs_handled() as int),
        run.failed_files.len() == 0,
        run.failed_dirs.len() == 0,
        run.done() ==> run.deleted_files == run.files && run.deleted_dirs == run.dirs,
{
    if run.done() {
        assert(run.files.take(run.files.len() as int) =~= run.files);
        assert(run.dirs.take(run.dirs.len() as int) =~= run.dirs);
    }
}

/// The sizes of a list, added up.
pub open spec fn sum_of(sizes: Seq<u64>) -> nat
    decreases sizes.len(),
{
    if sizes.len() == 0 {
        0
    } else {
        sum_of(sizes.drop_last()) + sizes.last() as nat
    }
}

/// In a dry run the size is what would be removed: the sizes that were
/// reported for the items of the plan, one after another, added up. Once
/// a size was reported for every item the run is over.
pub proof fn lemma_dry_run_adds_up(
    files: Seq<Seq<char>>,
    dirs: Seq<Seq<char>>,
    policy: Policy,
    sizes: Seq<u64>,
)
    requires
        policy.dry_run,
        sizes.len() <= files.len() + dirs.len(),
    ensures
        ({
            let end = Run::begin(files, dirs, policy).after(
                sizes.map_values(|n: u64| Reply::Measured(n)),
            );
            &&& end.inv()
            &&& end.total_size == sum_of(sizes)
            &&& end.files_handled() + end.dirs_handled() == sizes.len()
            &&& end.done() <==> sizes.len() == files.len() + dirs.len()
        }),
    decreases sizes.len(),
{
    let start = Run::begin(files, dirs, policy);
    let replies = sizes.map_values(|n: u64| Reply::Measured(n));
    lemma_begin_inv(files, dirs, policy);
    if sizes.len() > 0 {
        lemma_dry_run_adds_up(files, dirs, policy, sizes.drop_last());
        assert(replies.drop_last() =~= sizes.drop_last().map_values(|n: u64| Reply::Measured(n)));
        let before = start.after(replies.drop_last());
        lemma_after_keeps_plan(start, replies.drop_last());
        lemma_advance_inv(before, replies.last());
    }
}

/// A dry run over what a search found is over at once and is a function
/// of the search result alone: made twice on the same result, it lists
/// the same items and the same size, and no task is ever set.
pub proof fn lemma_preview_repeats(files: Seq<Seq<char>>, dirs: Seq<Seq<char>>, total_size: u64)
    ensures
        Run::previewed(files, dirs, total_size).pending() is Done,
        Run::previewed(files, dirs, total_size).result() == (DeleteResultView {
            deleted_files: files,
            deleted_dirs: dirs,
            failed_files: Seq::empty(),
            failed_dirs: Seq::empty(),
            total_size,
        }),
        forall|reply: Reply|
            Run::previewed(files, dirs, total_size).advance(reply) == Run::previewed(
                files,
                dirs,
                total_size,
            ),
{
}

/// One item's failure stops nothing: the run goes on to the next item, is
/// no more cancelled than before, and what was deleted stays as it was.
pub proof fn lemma_failure_is_local(run: Run, cause: Seq<char>)
    requires
        run.inv(),
        !run.done(),
    ensures
        run.with_failed(cause).cancelled == run.cancelled,
        run.with_failed(cause).deleted_files == run.deleted_files,
        run.with_failed(cause).deleted_dirs == run.deleted_dirs,
        run.with_failed(cause).total_size == run.total_size,
        run.with_failed(cause).files_handled() + run.with_failed(cause).dirs_handled()
            == run.files_handled() + run.dirs_handled() + 1,
{
}

/// Nothing is rolled back: whatever is reported, what was deleted or had
/// failed before is still listed, in its place, and the size removed does
/// not fall. Only the user's abort cancels a run.
pub proof fn lemma_no_rollback(run: Run, reply: Reply)
    requires
        run.inv(),
    ensures
        run.deleted_files.is_prefix_of(run.advance(reply).deleted_files),
        run.deleted_dirs.is_prefix_of(run.advance(reply).deleted_dirs),
        run.failed_files.is_prefix_of(run.advance(reply).failed_files),
        run.failed_dirs.is_prefix_of(run.advance(reply).failed_dirs),
        run.total_size <= run.advance(reply).total_size,
        run.advance(reply).cancelled && !run.cancelled ==> reply == Reply::Decided(
            Decision::Abort,
        ),
{
}

/// Every run ends: each report on the pending task brings the run
/// nearer to its end, so that a plan of `n` items is through after at
/// most `4 * n` such reports.
pub proof fn lemma_every_report_brings_the_end_nearer(run: Run, reply: Reply)
    requires
        run.inv(),
        run.answers(reply),
    ensures
        run.advance(reply).work_left() < run.work_left(),
        run.work_left() <= 4 * (run.files.len() + run.dirs.len()),
{
}

/// Once the user has accepted all that follows, nobody is asked again:
/// whatever is reported, the acceptance stands and no task to confirm is
/// set for the rest of the run.
pub proof fn lemma_accept_all_stops_asking(run: Run, replies: Seq<Reply>)
    requires
        run.inv(),
        run.accept_all,
    ensures
        run.after(replies).accept_all,
        !(run.after(replies).pending() is Confirm),
    decreases replies.len(),
{
    if replies.len() > 0 {
        lemma_accept_all_stops_asking(run, replies.drop_last());
        lemma_after_inv(run, replies.drop_last());
    }
}

/// The user's abort ends the run there and then: no task is set any more,
/// nothing that is reported changes anything, and what was deleted before
/// stays listed as deleted.
pub proof fn lemma_abort_ends_the_run(run: Run, reply: Reply)
    requires
        run.inv(),
        run.stage is Confirm,
        !run.done(),
    ensures
        run.advance(Reply::Decided(Decision::Abort)).cancelled,
        run.advance(Reply::Decided(Decision::Abort)).pending() is Done,
        run.advance(Reply::Decided(Decision::Abort)).result() == run.result(),
        run.advance(Reply::Decided(Decision::Abort)).advance(reply) == run.advance(
            Reply::Decided(Decision::Abort),
        ),
{
}

/// An item is removed only after it passed the safety check: the task to
/// measure, to confirm or to remove an item of a real run is set only
/// once a canonical path was reported for it that is safe.
pub proof fn lemma_safety_comes_first(run: Run, reply: Reply)
    requires
        run.inv(),
        run.stage is Resolve,
        run.answers(reply),
    ensures
        reply matches Reply::Resolved(canonical) && (if crate::delete::is_safe(canonical) {
            run.advance(reply) == (Run { stage: Stage::Measure, ..run })
        } else {
            run.advance(reply) == run.with_failed(
                safety_objection(run.item(), canonical).unwrap(),
            )
        }),
{
}

/// A run in progress.
pub struct DeleteRun {
    plan: DeletePlan,
    policy: Policy,
    on_dirs: bool,
    index: usize,
    stage: Stage,
    size: u64,
    accept_all: bool,
    cancelled: bool,
    result: DeleteResult,
    skipped: Ghost<(nat, nat)>,
}

impl View for DeleteRun {
    type V = Run;

    closed spec fn view(&self) -> Run {
        Run {
            files: texts(self.plan.files@),
            dirs: texts(self.plan.dirs@),
            policy: self.policy,
            on_dirs: self.on_dirs,
            index: self.index as nat,
            stage: self.stage,
            size: self.size,
            accept_all: self.accept_all,
            cancelled: self.cancelled,
            deleted_files: texts(self.result.deleted_files@),
            deleted_dirs: texts(self.result.deleted_dirs@),
            failed_files: failures(self.result.failed_files@),
            failed_dirs: failures(self.result.failed_dirs@),
            total_size: self.result.total_size as nat,
            skipped_files: self.skipped@.0,
            skipped_dirs: self.skipped@.1,
        }
    }
}

impl DeleteRun {
    /// What holds of every run that this module hands out: it is in
    /// order, and the size removed so far fits the machine's integers.
    pub open spec fn wf(&self) -> bool {
        self@.inv() && self@.fits()
    }

    /// A dry run over `plan` whose sizes are known already: it is over at
    /// once, with every item listed as deleted and `total_size` as the size
    /// that would be removed.
    pub fn preview(plan: DeletePlan, total_size: u64) -> (run: DeleteRun)
        ensures
            run.wf(),
            run@ == Run::previewed(plan@.files, plan@.dirs, total_size),
    {
        let result = DeleteResult {
            deleted_files: copy_texts(&plan.files),
            deleted_dirs: copy_texts(&plan.dirs),
            failed_files: Vec::new(),
            failed_dirs: Vec::new(),
            total_size,
        };
        proof {
            assert(failures(result.failed_files@) =~= Seq::empty());
            assert(failures(result.failed_dirs@) =~= Seq::empty());
            lemma_previewed_inv(plan@.files, plan@.dirs, total_size);
        }
        let index = plan.dirs.len();
        DeleteRun {
            plan,
            policy: Policy { dry_run: true, interactive: false, removal: Removal::Permanent },
            on_dirs: true,
            index,
            stage: Stage::Measure,
            size: 0,
            accept_all: false,
            cancelled: false,
            result,
            skipped: Ghost((0, 0)),
        }
    }

    /// Begins a run over `plan` under `policy`. A dry run sets the task to
    /// measure each item and no other; what it reports as its size is what
    /// was measured, added up.
    pub fn begin(plan: DeletePlan, policy: Policy) -> (run: DeleteRun)
        ensures
            run.wf(),
            run@ == Run::begin(plan@.files, plan@.dirs, policy),
    {
        let on_dirs = plan.files.len() == 0;
        let stage = if policy.dry_run {
            Stage::Measure
        } else {
            Stage::Resolve
        };
        let result = DeleteResult {
            deleted_files: Vec::new(),
            deleted_dirs: Vec::new(),
            failed_files: Vec::new(),
            failed_dirs: Vec::new(),
            total_size: 0,
        };
        proof {
            assert(texts(result.deleted_files@) =~= Seq::empty());
            assert(texts(result.deleted_dirs@) =~= Seq::empty());
            assert(failures(result.failed_files@) =~= Seq::empty());
            assert(failures(result.failed_dirs@) =~= Seq::empty());
            lemma_begin_inv(plan@.files, plan@.dirs, policy);
        }
        DeleteRun {
            plan,
            policy,
            on_dirs,
            index: 0,
            stage,
            size: 0,
            accept_all: false,
            cancelled: false,
            result,
            skipped: Ghost((0, 0)),
        }
    }

    /// Whether the run is over.
    pub fn is_done(&self) -> (done: bool)
        ensures
            done == self@.done(),
    {
        self.cancelled || (self.on_dirs && self.index >= self.plan.dirs.len())
    }

    fn item(&self) -> (path: &String)
        requires
            self.wf(),
            !self@.done(),
        ensures
            path@ == self@.item(),
    {
        if self.on_dirs {
            &self.plan.dirs[self.index]
        } else {
            &self.plan.files[self.index]
        }
    }

    /// What the driver is to do next.
    pub fn next_action(&self) -> (action: DeleteAction)
        requires
            self.wf(),
        ensures
            action@ == self@.pending(),
    {
        if self.is_done() {
            return DeleteAction::Done;
        }
        let path = self.item().clone();
        match self.stage {
            Stage::Resolve => DeleteAction::Resolve { path, is_dir: self.on_dirs },
            Stage::Measure => DeleteAction::Measure { path, is_dir: self.on_dirs },
            Stage::Confirm => DeleteAction::Confirm {
                path,
                is_dir: self.on_dirs,
                size: self.size,
            },
            Stage::Remove => DeleteAction::Remove {
                path,
                is_dir: self.on_dirs,
                removal: self.policy.removal,
            },
        }
    }

    fn move_on(&mut self)
        requires
            old(self).on_dirs ==> old(self).index < old(self).plan.dirs.len(),
            !old(self).on_dirs ==> old(self).index < old(self).plan.files.len(),
        ensures
            final(self)@ == old(self)@.moved_on(),
    {
        if !self.on_dirs && self.index + 1 >= self.plan.files.len() {
            self.on_dirs = true;
            self.index = 0;
        } else {
            self.index = self.index + 1;
        }
        self.stage = if self.policy.dry_run {
            Stage::Measure
        } else {
            Stage::Resolve
        };
        self.size = 0;
    }

    fn record_deleted(&mut self)
        requires
            old(self).wf(),
            !old(self)@.done(),
            old(self)@.with_deleted().fits(),
        ensures
            final(self)@ == old(self)@.with_deleted(),
    {
        let path = self.item().clone();
        self.result.total_size = self.result.total_size + self.size;
        if self.on_dirs {
            let ghost before = texts(self.result.deleted_dirs@);
            self.result.deleted_dirs.push(path);
            assert(texts(self.result.deleted_dirs@) =~= before.push(path@));
        } else {
            let ghost before = texts(self.result.deleted_files@);
            self.result.deleted_files.push(path);
            assert(texts(self.result.deleted_files@) =~= before.push(path@));
        }
        self.move_on();
    }

    fn record_failed(&mut self, cause: String)
        requires
            old(self).wf(),
            !old(self)@.done(),
        ensures
            final(self)@ == old(self)@.with_failed(cause@),
    {
        let path = self.item().clone();
        if self.on_dirs {
            let ghost before = failures(self.result.failed_dirs@);
            self.result.failed_dirs.push((path, cause));
            assert(failures(self.result.failed_dirs@) =~= before.push((path@, cause@)));
        } else {
            let ghost before = failures(self.result.failed_files@);
            self.result.failed_files.push((path, cause));
            assert(failures(self.result.failed_files@) =~= before.push((path@, cause@)));
        }
        self.move_on();
    }

    fn record_skipped(&mut self)
        requires
            old(self).wf(),
            !old(self)@.done(),
        ensures
            final(self)@ == old(self)@.with_skipped(),
    {
        if self.on_dirs {
            self.skipped = Ghost((self.skipped@.0, self.skipped@.1 + 1));
        } else {
            self.skipped = Ghost((self.skipped@.0 + 1, self.skipped@.1));
        }
        self.move_on();
    }

    /// Whether the run can take `event` without the size removed leaving
    /// the machine's integers.
    pub fn fits(&self, event: &DeleteEvent) -> (ok: bool)
        requires
            self.wf(),
        ensures
            ok == self@.advance(event@).fits(),
    {
        if self.is_done() {
            return true;
        }
        match event {
            DeleteEvent::Measured(n) => !(self.stage == Stage::Measure && self.policy.dry_run)
                || *n <= u64::MAX - self.result.total_size,
            DeleteEvent::Removed(Ok(_)) => !(self.stage == Stage::Remove) || self.size
                <= u64::MAX - self.result.total_size,
            _ => true,
        }
    }

    /// Takes the driver's report on the pending task.
    pub fn advance(&mut self, event: DeleteEvent)
        requires
            old(self).wf(),
            old(self)@.advance(event@).fits(),
        ensures
            final(self).wf(),
            final(self)@ == old(self)@.advance(event@),
    {
        proof {
            lemma_advance_inv(self@, event@);
        }
        if self.is_done() {
            return ;
        }
        match event {
            DeleteEvent::Resolved(canonical) => {
                if self.stage == Stage::Resolve {
                    let verdict = match &canonical {
                        Some(c) => DeleteEngine::check_safety(
                            self.item().as_str(),
                            Some(c.as_str()),
                        ),
                        None => DeleteEngine::check_safety(self.item().as_str(), None),
                    };
                    match verdict {
                        Ok(_) => {
                            self.stage = Stage::Measure;
                        },
                        Err(e) => {
                            self.record_failed(e.message());
                        },
                    }
                }
            },
            DeleteEvent::Measured(n) => {
                if self.stage == Stage::Measure {
                    self.size = n;
                    if self.policy.dry_run {
                        self.record_deleted();
                    } else if self.policy.interactive && !self.accept_all {
                        self.stage = Stage::Confirm;
                    } else {
                        self.stage = Stage::Remove;
                    }
                }
            },
            DeleteEvent::Decided(decision) => {
                if self.stage == Stage::Confirm {
                    match decision {
                        Decision::Proceed => {
                            self.stage = Stage::Remove;
                        },
                        Decision::Skip => {
                            self.record_skipped();
                        },
                        Decision::AcceptAll => {
                            self.accept_all = true;
                            self.stage = Stage::Remove;
                        },
                        Decision::Abort => {
                            self.cancelled = true;
                        },
                    }
                }
            },
            DeleteEvent::Removed(outcome) => {
                if self.stage == Stage::Remove {
                    match outcome {
                        Ok(_) => {
                            self.record_deleted();
                        },
                        Err(cause) => {
                            self.record_failed(cause);
                        },
                    }
                }
            },
        }
    }

    /// Takes the driver's report if the size removed allows it. Where the
    /// size would leave the machine's integers nothing is taken: the run
    /// stays as it is and the answer is `false`.
    pub fn try_advance(&mut self, event: DeleteEvent) -> (taken: bool)
        requires
            old(self).wf(),
        ensures
            final(self).wf(),
            taken == old(self)@.advance(event@).fits(),
            taken ==> final(self)@ == old(self)@.advance(event@),
            !taken ==> final(self)@ == old(self)@,
    {
        if self.fits(&event) {
            self.advance(event);
            true
        } else {
            false
        }
    }

    /// Ends the run. A cancelled run yields the cancellation; any other
    /// yields what was done, which for a run that is not over yet is what
    /// was done so far.
    pub fn finish(self) -> (outcome: Result<DeleteResult, CleanError>)
        requires
            self.wf(),
        ensures
            self@.cancelled ==> outcome matches Err(CleanError::Cancelled),
            !self@.cancelled ==> (outcome matches Ok(result) && result@ == self@.result()),
    {
        if self.cancelled {
            Err(CleanError::Cancelled)
        } else {
            Ok(self.result)
        }
    }
}

impl DeleteEngine {
    /// Begins the execution of `plan` without confirmation: as a dry run,
    /// which measures every item and removes none, or as a real run that
    /// validates, measures and permanently removes one item after another.
    pub fn execute_deletion(plan: &DeletePlan, dry_run: bool) -> (run: DeleteRun)
        ensures
            run.wf(),
            run@ == Run::begin(
                plan@.files,
                plan@.dirs,
                Policy { dry_run, interactive: false, removal: Removal::Permanent },
            ),
    {
        let copy = DeletePlan { files: copy_texts(&plan.files), dirs: copy_texts(&plan.dirs) };
        DeleteRun::begin(
            copy,
            Policy { dry_run, interactive: false, removal: Removal::Permanent },
        )
    }

    /// Begins the execution of `plan` in which the user is asked about each
    /// item and what is removed goes to the trash.
    pub fn execute_deletion_interactive(plan: &DeletePlan) -> (run: DeleteRun)
        ensures
            run.wf(),
            run@ == Run::begin(
                plan@.files,
                plan@.dirs,
                Policy { dry_run: false, interactive: true, removal: Removal::Trash },
            ),
    {
        let copy = DeletePlan { files: copy_texts(&plan.files), dirs: copy_texts(&plan.dirs) };
        DeleteRun::begin(
            copy,
            Policy { dry_run: false, interactive: true, removal: Removal::Trash },
        )
    }

    /// Plans and executes what a search found. A dry run is over at once:
    /// every planned item counts as deleted and the size is the one that
    /// the search added up, so that nothing is measured twice. A real run
    /// begins as `execute_deletion` does.
    pub fn execute_deletion_from_search(search_result: &SearchResult, dry_run: bool) -> (run:
        DeleteRun)
        ensures
            run.wf(),
            run@.files == search_result@.files,
            is_plan_of(run@.dirs, search_result@.folders),
            dry_run ==> run@ == Run::previewed(
                run@.files,
                run@.dirs,
                search_result@.total_size,
            ),
            !dry_run ==> run@ == Run::begin(
                run@.files,
                run@.dirs,
                Policy { dry_run: false, interactive: false, removal: Removal::Permanent },
            ),
    {
        let plan = Self::create_delete_plan(search_result);
        if dry_run {
            DeleteRun::preview(plan, search_result.total_size)
        } else {
            DeleteRun::begin(
                plan,
                Policy { dry_run: false, interactive: false, removal: Removal::Permanent },
            )
        }
    }
}

} // verus!
