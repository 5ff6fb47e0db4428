//! Bulk execution: one job over many items, with a ceiling on the number of
//! jobs in flight, a dry-run mode, and two ways of reporting failures.

use vstd::prelude::*;

verus! {

/// Settings of a bulk run.
#[derive(Debug, Clone, Copy, PartialEq, Eq, Structural)]
pub struct BulkConfig {
    pub concurrency: usize,
    pub dry_run: bool,
    pub show_progress: bool,
    pub fail_fast: bool,
}

impl BulkConfig {
    /// Four jobs at a time, jobs really run, progress shown, every item
    /// attempted.
    pub open spec fn standard() -> BulkConfig {
        BulkConfig { concurrency: 4, dry_run: false, show_progress: true, fail_fast: false }
    }

    /// The same settings with the concurrency raised to 1 where it is 0.
    pub open spec fn floored(self) -> BulkConfig {
        BulkConfig { concurrency: if self.concurrency < 1 { 1 } else { self.concurrency }, ..self }
    }
}

impl Default for BulkConfig {
    fn default() -> (r: Self)
        ensures
            r == BulkConfig::standard(),
    {
        BulkConfig { concurrency: 4, dry_run: false, show_progress: true, fail_fast: false }
    }
}

/// Why an item of a bulk run has no result.
#[derive(Debug, Clone, PartialEq, Eq)]
pub enum TaskFailure<E> {
    /// The run was a dry run: the job was not called.
    DryRun,
    /// The job was called and failed.
    Job(E),
}

/// Why a bulk run as a whole failed.
#[derive(Debug, Clone, PartialEq, Eq)]
pub enum BulkError<E> {
    /// In fail-fast mode: the first failure, as the job returned it.
    Task(E),
    /// Otherwise: how many jobs failed.
    MultipleFailed { count: usize },
}

/// The results of a bulk run: the values of the jobs that succeeded, and
/// the failures, each with the index of its item in the input.
#[derive(Debug)]
pub struct BulkResult<T, E> {
    pub successful: Vec<T>,
    pub failed: Vec<(usize, TaskFailure<E>)>,
}

impl<T, E> BulkResult<T, E> {
    /// The result holds exactly the values and the failures of `records`.
    pub open spec fn holds(self, records: Seq<Record<T, E>>) -> bool {
        &&& self.successful@ == successes(records)
        &&& self.failed@ == failures(records)
    }

    /// The result of a run in which nothing has finished yet.
    pub fn new() -> (r: Self)
        ensures
            r.successful@.len() == 0,
            r.failed@.len() == 0,
            r.holds(Seq::empty()),
    {
        BulkResult { successful: Vec::new(), failed: Vec::new() }
    }

    /// Takes in the end of the task for item `index`: a value joins
    /// `successful`, a failure joins `failed` together with the index.
    pub fn record(&mut self, index: usize, outcome: Result<T, TaskFailure<E>>)
        ensures
            match outcome {
                Ok(value) => final(self).successful@ == old(self).successful@.push(value)
                    && final(self).failed@ == old(self).failed@,
                Err(e) => final(self).successful@ == old(self).successful@ && final(self).failed@
                    == old(self).failed@.push((index, e)),
            },
            forall|records: Seq<Record<T, E>>| #[trigger]
                old(self).holds(records) ==> final(self).holds(records.push((index, outcome))),
    {
        proof {
            assert forall|records: Seq<Record<T, E>>|
                records.push((index, outcome)).drop_last() == records by {
                assert(records.push((index, outcome)).drop_last() =~= records);
            }
        }
        match outcome {
            Ok(value) => {
                self.successful.push(value);
            },
            Err(e) => {
                self.failed.push((index, e));
            },
        }
    }

    /// No job failed.
    pub fn is_complete_success(&self) -> (r: bool)
        ensures
            r == (self.failed@.len() == 0),
    {
        self.failed.len() == 0
    }

    /// The number of jobs that succeeded.
    pub fn success_count(&self) -> (r: usize)
        ensures
            r == self.successful@.len(),
    {
        self.successful.len()
    }

    /// The number of jobs that failed.
    pub fn failure_count(&self) -> (r: usize)
        ensures
            r == self.failed@.len(),
    {
        self.failed.len()
    }
}

/// One finished task: the index of its item and how it ended.
pub type Record<R, E> = (usize, Result<R, TaskFailure<E>>);

/// The values of the records that succeeded, in the order of the records.
pub open spec fn successes<R, E>(records: Seq<Record<R, E>>) -> Seq<R>
    decreases records.len(),
{
    if records.len() == 0 {
        Seq::empty()
    } else {
        let rest = successes(records.drop_last());
        match records.last().1 {
            Ok(value) => rest.push(value),
            Err(_) => rest,
        }
    }
}

/// The failures among the records, each with its index, in the order of the
/// records.
pub open spec fn failures<R, E>(records: Seq<Record<R, E>>) -> Seq<(usize, TaskFailure<E>)>
    decreases records.len(),
{
    if records.len() == 0 {
        Seq::empty()
    } else {
        let rest = failures(records.drop_last());
        match records.last().1 {
            Ok(_) => rest,
            Err(e) => rest.push((records.last().0, e)),
        }
    }
}

/// The records of a dry run over `n` items: each item, in input order,
/// failed with the dry-run marker.
pub open spec fn dry_records<R, E>(n: nat) -> Seq<Record<R, E>> {
    Seq::new(n, |i: int| (i as usize, Err(TaskFailure::DryRun)))
}

/// The record of item `index` whose job returned `outcome`.
pub open spec fn job_record<R, E>(index: int, outcome: Result<R, E>) -> Record<R, E> {
    (
        index as usize,
        match outcome {
            Ok(value) => Ok(value),
            Err(e) => Err(TaskFailure::Job(e)),
        },
    )
}

/// The records of a run in input order, where the job of item `i` returned
/// `outcomes[i]`.
pub open spec fn job_records<R, E>(outcomes: Seq<Result<R, E>>) -> Seq<Record<R, E>> {
    Seq::new(outcomes.len(), |i: int| job_record(i, outcomes[i]))
}

/// The number of failures among the outcomes.
pub open spec fn failure_total<E>(outcomes: Seq<Result<(), E>>) -> nat
    decreases outcomes.len(),
{
    if outcomes.len() == 0 {
        0
    } else {
        failure_total(outcomes.drop_last()) + if outcomes.last() is Err {
            1nat
        } else {
            0nat
        }
    }
}

/// The first failure among the outcomes, in their order.
pub open spec fn first_failure<E>(outcomes: Seq<Result<(), E>>) -> Option<E>
    decreases outcomes.len(),
{
    if outcomes.len() == 0 {
        None
    } else {
        match first_failure(outcomes.drop_last()) {
            Some(e) => Some(e),
            None => match outcomes.last() {
                Ok(_) => None,
                Err(e) => Some(e),
            },
        }
    }
}

/// What a run reports for the outcomes of its tasks, given in the order in
/// which the tasks finished. In fail-fast mode the first failure is handed
/// on as it is; otherwise only the number of failures is reported.
pub open spec fn run_verdict<E>(outcomes: Seq<Result<(), E>>, fail_fast: bool) -> Result<
    (),
    BulkError<E>,
> {
    if fail_fast {
        match first_failure(outcomes) {
            Some(e) => Err(BulkError::Task(e)),
            None => Ok(()),
        }
    } else if failure_total(outcomes) > 0 {
        Err(BulkError::MultipleFailed { count: failure_total(outcomes) as usize })
    } else {
        Ok(())
    }
}

/// The failure count never exceeds the number of outcomes.
pub proof fn lemma_failure_total_bounded<E>(outcomes: Seq<Result<(), E>>)
    ensures
        failure_total(outcomes) <= outcomes.len(),
    decreases outcomes.len(),
{
    if outcomes.len() > 0 {
        lemma_failure_total_bounded(outcomes.drop_last());
    }
}

/// Sums up the outcomes of the tasks of a run, given in the order in which
/// the tasks finished.
pub fn summarize<E>(outcomes: Vec<Result<(), E>>, fail_fast: bool) -> (r: Result<(), BulkError<E>>)
    ensures
        r == run_verdict(outcomes@, fail_fast),
{
    let ghost all = outcomes@;
    let n = outcomes.len();
    let mut count: usize = 0;
    for outcome in it: outcomes
        invariant
            it.seq() == all,
            all.len() == n,
            count == failure_total(all.take(it.index() as int)),
            count <= it.index(),
            fail_fast ==> first_failure(all.take(it.index() as int)) is None,
    {
        let ghost k = it.index() as int;
        proof {
            assert(all.take(k + 1).drop_last() =~= all.take(k));
            assert(all.take(k + 1).last() == all[k]);
        }
        match outcome {
            Ok(_) => {},
            Err(e) => {
                if fail_fast {
                    proof {
                        lemma_first_failure_prefix(all, k + 1);
                    }
                    return Err(BulkError::Task(e));
                }
                count = count + 1;
            },
        }
    }
    proof {
        assert(all.take(all.len() as int) =~= all);
    }
    if count > 0 && !fail_fast {
        Err(BulkError::MultipleFailed { count })
    } else {
        Ok(())
    }
}

/// A failure found in a prefix of the outcomes is the first failure of the
/// whole.
pub proof fn lemma_first_failure_prefix<E>(outcomes: Seq<Result<(), E>>, k: int)
    requires
        0 <= k <= outcomes.len(),
        first_failure(outcomes.take(k)) is Some,
    ensures
        first_failure(outcomes) == first_failure(outcomes.take(k)),
    decreases outcomes.len() - k,
{
    if k == outcomes.len() {
        assert(outcomes.take(k) =~= outcomes);
    } else {
        assert(outcomes.take(k + 1).drop_last() =~= outcomes.take(k));
        lemma_first_failure_prefix(outcomes, k + 1);
    }
}

/// The tasks of a run were carried out one after the other, in input
/// order: `outcomes[i]` is what the job returned for `items[i]`. Without
/// fail-fast every item has an outcome; with it, the outcomes end with the
/// first failure.
pub open spec fn ran_in_order<T, E, F: Fn(T) -> Result<(), E>>(
    job: F,
    items: Seq<T>,
    outcomes: Seq<Result<(), E>>,
    fail_fast: bool,
) -> bool {
    &&& outcomes.len() <= items.len()
    &&& forall|i: int|
        0 <= i < outcomes.len() ==> call_ensures(job, (items[i],), #[trigger] outcomes[i])
    &&& if fail_fast {
        &&& forall|i: int| 0 <= i < outcomes.len() - 1 ==> (#[trigger] outcomes[i]) is Ok
        &&& outcomes.len() == items.len() || (outcomes.len() > 0 && outcomes.last() is Err)
    } else {
        outcomes.len() == items.len()
    }
}

/// Runs one job over many items.
pub struct BulkExecutor {
    concurrency: usize,
    dry_run: bool,
    show_progress: bool,
    fail_fast: bool,
}

impl View for BulkExecutor {
    type V = BulkConfig;

    closed spec fn view(&self) -> BulkConfig {
        BulkConfig {
            concurrency: self.concurrency,
            dry_run: self.dry_run,
            show_progress: self.show_progress,
            fail_fast: self.fail_fast,
        }
    }
}

impl BulkExecutor {
    #[verifier::type_invariant]
    spec fn has_a_permit(self) -> bool {
        self.concurrency >= 1
    }

    /// The settings of `new(concurrency, dry_run)`.
    pub open spec fn fresh(concurrency: usize, dry_run: bool) -> BulkConfig {
        (BulkConfig { concurrency, dry_run, show_progress: true, fail_fast: false }).floored()
    }

    /// An executor that runs at most `concurrency` jobs at a time, and at
    /// least one. It shows progress and attempts every item.
    pub fn new(concurrency: usize, dry_run: bool) -> (r: Self)
        ensures
            r@ == BulkExecutor::fresh(concurrency, dry_run),
            r@.concurrency >= 1,
    {
        BulkExecutor {
            concurrency: if concurrency < 1 {
                1
            } else {
                concurrency
            },
            dry_run,
            show_progress: true,
            fail_fast: false,
        }
    }

    /// An executor with the given settings, the concurrency raised to 1
    /// where it is 0.
    pub fn from_config(config: BulkConfig) -> (r: Self)
        ensures
            r@ == config.floored(),
            r@.concurrency >= 1,
    {
        BulkExecutor {
            concurrency: if config.concurrency < 1 {
                1
            } else {
                config.concurrency
            },
            dry_run: config.dry_run,
            show_progress: config.show_progress,
            fail_fast: config.fail_fast,
        }
    }

    /// The same executor, showing progress or not.
    pub fn with_progress(self, show_progress: bool) -> (r: Self)
        ensures
            r@ == (BulkConfig { show_progress, ..self@ }),
    {
        proof {
            use_type_invariant(&self);
        }
        BulkExecutor {
            concurrency: self.concurrency,
            dry_run: self.dry_run,
            show_progress,
            fail_fast: self.fail_fast,
        }
    }

    /// The same executor, stopping at the first failure or not.
    pub fn with_fail_fast(self, fail_fast: bool) -> (r: Self)
        ensures
            r@ == (BulkConfig { fail_fast, ..self@ }),
    {
        proof {
            use_type_invariant(&self);
        }
        BulkExecutor {
            concurrency: self.concurrency,
            dry_run: self.dry_run,
            show_progress: self.show_progress,
            fail_fast,
        }
    }

    /// The ceiling on jobs in flight; never 0.
    pub fn concurrency(&self) -> (r: usize)
        ensures
            r == self@.concurrency,
            r >= 1,
    {
        proof {
            use_type_invariant(self);
        }
        self.concurrency
    }

    /// Whether jobs are skipped.
    pub fn dry_run(&self) -> (r: bool)
        ensures
            r == self@.dry_run,
    {
        self.dry_run
    }

    /// Whether progress is shown.
    pub fn show_progress(&self) -> (r: bool)
        ensures
            r == self@.show_progress,
    {
        self.show_progress
    }

    /// Whether the first failure ends the run.
    pub fn fail_fast(&self) -> (r: bool)
        ensures
            r == self@.fail_fast,
    {
        self.fail_fast
    }

    /// The admission control for a run over `total` items under this
    /// executor's ceiling.
    pub fn scheduler(&self, total: usize) -> (r: Scheduler)
        ensures
            r@ == Schedule::initial(self@.concurrency, total),
    {
        proof {
            use_type_invariant(self);
        }
        Scheduler::new(self.concurrency, total)
    }

    /// Runs `job` on every item, one after the other.
    ///
    /// In a dry run the job is never called, so that nothing is asked of it,
    /// and the run succeeds. Otherwise
    /// the report is [`run_verdict`] of what the job returned: in fail-fast
    /// mode the run stops at the first failure and hands it on; else every
    /// item is attempted and only the number of failures is reported. An
    /// empty input succeeds without any work.
    pub fn run<T, E, F: Fn(T) -> Result<(), E>>(&self, items: Vec<T>, job: F) -> (r: Result<
        (),
        BulkError<E>,
    >)
        requires
            !self@.dry_run ==> forall|i: int|
                0 <= i < items@.len() ==> call_requires(job, (#[trigger] items@[i],)),
        ensures
            self@.dry_run ==> r is Ok,
            !self@.dry_run ==> exists|outcomes: Seq<Result<(), E>>|
                ran_in_order(job, items@, outcomes, self@.fail_fast) && r == run_verdict(
                    outcomes,
                    self@.fail_fast,
                ),
    {
        if self.dry_run {
            return Ok(());
        }
        let ghost all = items@;
        let n = items.len();
        let mut outcomes: Vec<Result<(), E>> = Vec::new();
        for item in it: items
            invariant
                it.seq() == all,
                all.len() == n,
                forall|i: int| 0 <= i < all.len() ==> call_requires(job, (#[trigger] all[i],)),
                outcomes@.len() == it.index(),
                forall|i: int|
                    0 <= i < outcomes@.len() ==> call_ensures(
                        job,
                        (all[i],),
                        #[trigger] outcomes@[i],
                    ),
                all == items@,
                !self@.dry_run,
                self.fail_fast == self@.fail_fast,
                self.fail_fast ==> forall|i: int|
                    0 <= i < outcomes@.len() ==> (#[trigger] outcomes@[i]) is Ok,
        {
            let outcome = job(item);
            let failed = outcome.is_err();
            outcomes.push(outcome);
            if failed && self.fail_fast {
                return summarize(outcomes, true);
            }
        }
        summarize(outcomes, self.fail_fast)
    }

    /// Runs `job` on every item, one after the other, and keeps every
    /// result with the index of its item.
    ///
    /// In a dry run the job is never called, so that nothing is asked of it,
    /// and every item is reported as failed with the dry-run marker. Otherwise the value of each
    /// successful job is in `successful`, and each failure is in `failed`
    /// next to the index of its item, both in input order.
    pub fn execute_with_results<T, R, E, F: Fn(T) -> Result<R, E>>(
        &self,
        items: Vec<T>,
        job: F,
    ) -> (r: BulkResult<R, E>)
        requires
            !self@.dry_run ==> forall|i: int|
                0 <= i < items@.len() ==> call_requires(job, (#[trigger] items@[i],)),
        ensures
            self@.dry_run ==> r.holds(dry_records(items@.len())) && r.successful@.len() == 0
                && r.failed@ == Seq::new(
                items@.len(),
                |i: int| (i as usize, TaskFailure::<E>::DryRun),
            ),
            !self@.dry_run ==> exists|outcomes: Seq<Result<R, E>>|
                {
                    &&& outcomes.len() == items@.len()
                    &&& forall|i: int|
                        0 <= i < outcomes.len() ==> call_ensures(
                            job,
                            (items@[i],),
                            #[trigger] outcomes[i],
                        )
                    &&& r.holds(job_records(outcomes))
                },
    {
        let ghost all = items@;
        let n = items.len();
        let mut result: BulkResult<R, E> = BulkResult::new();
        let ghost mut outcomes: Seq<Result<R, E>> = Seq::empty();
        let ghost mut records: Seq<Record<R, E>> = Seq::empty();
        let mut index: usize = 0;
        for item in it: items
            invariant
                it.seq() == all,
                all.len() == n,
                index == it.index(),
                !self.dry_run ==> forall|i: int|
                    0 <= i < all.len() ==> call_requires(job, (#[trigger] all[i],)),
                result.holds(records),
                self.dry_run ==> records == dry_records::<R, E>(index as nat),
                !self.dry_run ==> {
                    &&& outcomes.len() == index
                    &&& records == job_records(outcomes)
                    &&& forall|i: int|
                        0 <= i < outcomes.len() ==> call_ensures(
                            job,
                            (all[i],),
                            #[trigger] outcomes[i],
                        )
                },
        {
            if self.dry_run {
                result.record(index, Err(TaskFailure::DryRun));
                proof {
                    records = records.push((index, Err(TaskFailure::DryRun)));
                    assert(records =~= dry_records::<R, E>((index + 1) as nat));
                }
            } else {
                let outcome = job(item);
                proof {
                    records = records.push(job_record(index as int, outcome));
                    outcomes = outcomes.push(outcome);
                    assert(records =~= job_records(outcomes));
                }
                match outcome {
                    Ok(value) => {
                        result.record(index, Ok(value));
                    },
                    Err(e) => {
                        result.record(index, Err(TaskFailure::Job(e)));
                    },
                }
            }
            index = index + 1;
        }
        proof {
            if self.dry_run {
                lemma_dry_run_fails_every_item::<R, E>(all.len());
            }
        }
        result
    }
}

/// Where a run stands: the ceiling on tasks in flight, the number of
/// items, and how many tasks have been started and have finished.
pub struct Schedule {
    pub permits: usize,
    pub total: usize,
    pub started: usize,
    pub finished: usize,
}

impl Schedule {
    /// Before anything was started.
    pub open spec fn initial(permits: usize, total: usize) -> Schedule {
        Schedule { permits, total, started: 0, finished: 0 }
    }

    /// The number of tasks in flight.
    pub open spec fn active(self) -> int {
        self.started - self.finished
    }

    /// What finished was started, what was started is an item, and no more
    /// tasks are in flight than there are permits.
    pub open spec fn sound(self) -> bool {
        &&& self.permits >= 1
        &&& self.finished <= self.started <= self.total
        &&& self.active() <= self.permits
    }

    /// Another task may start: an item is left and a permit is free.
    pub open spec fn can_start(self) -> bool {
        self.started < self.total && self.active() < self.permits
    }

    /// The state after the next item's task was started.
    pub open spec fn start(self) -> Schedule {
        Schedule { started: (self.started + 1) as usize, ..self }
    }

    /// The state after one task in flight finished.
    pub open spec fn finish(self) -> Schedule {
        Schedule { finished: (self.finished + 1) as usize, ..self }
    }
}

/// Admission control for the tasks of one run: tasks start in input order,
/// and only while fewer are in flight than the ceiling allows.
pub struct Scheduler {
    permits: usize,
    total: usize,
    started: usize,
    finished: usize,
}

impl View for Scheduler {
    type V = Schedule;

    closed spec fn view(&self) -> Schedule {
        Schedule {
            permits: self.permits,
            total: self.total,
            started: self.started,
            finished: self.finished,
        }
    }
}

impl Scheduler {
    #[verifier::type_invariant]
    spec fn within_ceiling(self) -> bool {
        &&& self.permits >= 1
        &&& self.finished <= self.started <= self.total
        &&& self.started - self.finished <= self.permits
    }

    /// Admission control for `total` items with `permits` tasks at a time;
    /// a ceiling of 0 counts as 1.
    pub fn new(permits: usize, total: usize) -> (r: Self)
        ensures
            r@ == Schedule::initial(if permits < 1 { 1 } else { permits }, total),
            r@.sound(),
    {
        Scheduler { permits: if permits < 1 { 1 } else { permits }, total, started: 0, finished: 0 }
    }

    /// Starts the task of the next item, if an item is left and a permit is
    /// free, and returns the index of that item.
    pub fn try_start(&mut self) -> (r: Option<usize>)
        ensures
            final(self)@.sound(),
            old(self)@.can_start() ==> r == Some(old(self)@.started) && final(self)@ == old(
                self,
            )@.start(),
            !old(self)@.can_start() ==> r is None && final(self)@ == old(self)@,
    {
        proof {
            use_type_invariant(&*self);
        }
        if self.started < self.total && self.started - self.finished < self.permits {
            let index = self.started;
            self.started = self.started + 1;
            Some(index)
        } else {
            None
        }
    }

    /// Takes note that one task in flight has finished, and frees its
    /// permit. Without a task in flight nothing changes.
    pub fn complete(&mut self)
        ensures
            final(self)@.sound(),
            old(self)@.active() > 0 ==> final(self)@ == old(self)@.finish(),
            old(self)@.active() <= 0 ==> final(self)@ == old(self)@,
    {
        proof {
            use_type_invariant(&*self);
        }
        if self.finished < self.started {
            self.finished = self.finished + 1;
        }
    }

    /// The number of tasks in flight, which never exceeds the ceiling.
    pub fn active(&self) -> (r: usize)
        ensures
            r == self@.active(),
            r <= self@.permits,
    {
        proof {
            use_type_invariant(self);
        }
        self.started - self.finished
    }

    /// Whether every item's task has finished.
    pub fn is_done(&self) -> (r: bool)
        ensures
            r == (self@.finished == self@.total),
    {
        self.finished == self.total
    }
}

/// A ceiling of 0 is a ceiling of 1: the two executors have the same
/// settings, and so behave alike in everything.
pub proof fn lemma_zero_concurrency_is_one(config: BulkConfig)
    ensures
        (BulkConfig { concurrency: 0, ..config }).floored() == (BulkConfig {
            concurrency: 1,
            ..config
        }).floored(),
        BulkExecutor::fresh(0, config.dry_run) == BulkExecutor::fresh(1, config.dry_run),
        config.floored().concurrency >= 1,
        config.concurrency >= 1 ==> config.floored() == config,
{
}

/// Every record is either a success or a failure: the two parts of a
/// result together are as many as the records.
pub proof fn lemma_partition_sizes<R, E>(records: Seq<Record<R, E>>)
    ensures
        successes(records).len() + failures(records).len() == records.len(),
    decreases records.len(),
{
    if records.len() > 0 {
        lemma_partition_sizes(records.drop_last());
    }
}

/// The failures are exactly the failed records, each with the index of its
/// own item: what stands in `failed` came from a record that failed, and
/// every record that failed stands in `failed`.
pub proof fn lemma_failures_are_the_failed_records<R, E>(records: Seq<Record<R, E>>)
    ensures
        forall|j: int|
            0 <= j < failures(records).len() ==> exists|k: int|
                0 <= k < records.len() && records[k] == (
                    (#[trigger] failures(records)[j]).0,
                    Err::<R, TaskFailure<E>>(failures(records)[j].1),
                ),
        forall|k: int|
            0 <= k < records.len() && (#[trigger] records[k]).1 is Err ==> exists|j: int|
                0 <= j < failures(records).len() && failures(records)[j] == (
                    records[k].0,
                    records[k].1->Err_0,
                ),
    decreases records.len(),
{
    if records.len() > 0 {
        let rest = records.drop_last();
        let last = records.last();
        lemma_failures_are_the_failed_records(rest);
        let f = failures(records);
        let fr = failures(rest);
        assert forall|j: int| 0 <= j < f.len() implies exists|k: int|
            0 <= k < records.len() && records[k] == (
                (#[trigger] f[j]).0,
                Err::<R, TaskFailure<E>>(f[j].1),
            ) by {
            if j < fr.len() {
                assert(f[j] == fr[j]);
                let k = choose|k: int|
                    0 <= k < rest.len() && rest[k] == (fr[j].0, Err::<R, TaskFailure<E>>(fr[j].1));
                assert(records[k] == rest[k]);
            } else {
                assert(records[records.len() - 1] == last);
            }
        }
        assert forall|k: int| 0 <= k < records.len() && (#[trigger] records[k]).1 is Err implies
            exists|j: int| 0 <= j < f.len() && f[j] == (records[k].0, records[k].1->Err_0) by {
            if k < rest.len() {
                assert(rest[k] == records[k]);
                let j = choose|j: int|
                    0 <= j < fr.len() && fr[j] == (rest[k].0, rest[k].1->Err_0);
                assert(f[j] == fr[j]);
            } else {
                assert(f[f.len() - 1] == (last.0, last.1->Err_0));
            }
        }
    }
}

/// In a run over the items in input order, the indices in `failed` are
/// indices of items, come in increasing order, and so never repeat; and
/// the index of an item stands there exactly when its job failed.
pub proof fn lemma_failed_indices<R, E>(outcomes: Seq<Result<R, E>>)
    requires
        outcomes.len() <= usize::MAX,
    ensures
        forall|j: int|
            0 <= j < failures(job_records(outcomes)).len() ==> {
                let at = (#[trigger] failures(job_records(outcomes))[j]).0;
                &&& at < outcomes.len()
                &&& outcomes[at as int] is Err
                &&& failures(job_records(outcomes))[j].1 == TaskFailure::Job(
                    outcomes[at as int]->Err_0,
                )
            },
        forall|i: int, j: int|
            0 <= i < j < failures(job_records(outcomes)).len() ==> (#[trigger] failures(
                job_records(outcomes),
            )[i]).0 < (#[trigger] failures(job_records(outcomes))[j]).0,
        forall|k: int|
            0 <= k < outcomes.len() && (#[trigger] outcomes[k]) is Err ==> exists|j: int|
                0 <= j < failures(job_records(outcomes)).len() && failures(
                    job_records(outcomes),
                )[j].0 == k,
        forall|k: int|
            0 <= k < outcomes.len() && (#[trigger] outcomes[k]) is Ok ==> forall|j: int|
                0 <= j < failures(job_records(outcomes)).len() ==> (#[trigger] failures(
                    job_records(outcomes),
                )[j]).0 != k,
    decreases outcomes.len(),
{
    let records = job_records(outcomes);
    let f = failures(records);
    if outcomes.len() > 0 {
        let shorter = outcomes.drop_last();
        lemma_failed_indices(shorter);
        assert(job_records(shorter) =~= records.drop_last());
        let fr = failures(job_records(shorter));
        let n = outcomes.len() - 1;
        assert(records.last() == job_record(n, outcomes[n]));
        assert forall|j: int| 0 <= j < f.len() implies {
            let at = (#[trigger] f[j]).0;
            &&& at < outcomes.len()
            &&& outcomes[at as int] is Err
            &&& f[j].1 == TaskFailure::Job(outcomes[at as int]->Err_0)
        } by {
            if j < fr.len() {
                assert(f[j] == fr[j]);
                assert(shorter[fr[j].0 as int] == outcomes[fr[j].0 as int]);
            }
        }
        assert forall|i: int, j: int| 0 <= i < j < f.len() implies (#[trigger] f[i]).0 < (
        #[trigger] f[j]).0 by {
            assert(f[i] == fr[i]);
            if j < fr.len() {
                assert(f[j] == fr[j]);
            }
        }
        assert forall|k: int| 0 <= k < outcomes.len() && (#[trigger] outcomes[k]) is Err implies
            exists|j: int| 0 <= j < f.len() && f[j].0 == k by {
            if k < n {
                assert(shorter[k] == outcomes[k]);
                let j = choose|j: int| 0 <= j < fr.len() && fr[j].0 == k;
                assert(f[j] == fr[j]);
            } else {
                assert(f[f.len() - 1].0 == k);
            }
        }
        assert forall|k: int| 0 <= k < outcomes.len() && (#[trigger] outcomes[k]) is Ok implies
            forall|j: int| 0 <= j < f.len() ==> (#[trigger] f[j]).0 != k by {
            assert forall|j: int| 0 <= j < f.len() implies (#[trigger] f[j]).0 != k by {
                let at = f[j].0;
                assert(outcomes[at as int] is Err);
            }
        }
    }
}

/// A dry run reports every item as failed with the dry-run marker, in
/// input order, and no item as successful.
pub proof fn lemma_dry_run_fails_every_item<R, E>(n: nat)
    requires
        n <= usize::MAX,
    ensures
        successes(dry_records::<R, E>(n)).len() == 0,
        failures(dry_records::<R, E>(n)) == Seq::new(
            n,
            |i: int| (i as usize, TaskFailure::<E>::DryRun),
        ),
    decreases n,
{
    let records = dry_records::<R, E>(n);
    if n > 0 {
        lemma_dry_run_fails_every_item::<R, E>((n - 1) as nat);
        assert(records.drop_last() =~= dry_records::<R, E>((n - 1) as nat));
        assert(failures(records) =~= Seq::new(n, |i: int| (i as usize, TaskFailure::<E>::DryRun)));
    } else {
        assert(failures(records) =~= Seq::new(n, |i: int| (i as usize, TaskFailure::<E>::DryRun)));
    }
}

/// A run without failures succeeds in either mode, and a run with
/// failures fails in either mode.
pub proof fn lemma_verdict_by_failures<E>(outcomes: Seq<Result<(), E>>, fail_fast: bool)
    ensures
        run_verdict(outcomes, fail_fast) is Ok <==> failure_total(outcomes) == 0,
        failure_total(outcomes) == 0 <==> first_failure(outcomes) is None,
        failure_total(outcomes) == 0 <==> forall|i: int|
            0 <= i < outcomes.len() ==> (#[trigger] outcomes[i]) is Ok,
    decreases outcomes.len(),
{
    if outcomes.len() > 0 {
        let rest = outcomes.drop_last();
        lemma_verdict_by_failures(rest, fail_fast);
        lemma_failure_total_bounded(outcomes);
        if failure_total(outcomes) == 0 {
            assert forall|i: int| 0 <= i < outcomes.len() implies (#[trigger] outcomes[i]) is Ok by {
                if i < rest.len() {
                    assert(rest[i] == outcomes[i]);
                }
            }
        } else if failure_total(rest) == 0 {
            assert(outcomes[outcomes.len() - 1] is Err);
        } else {
            let i = choose|i: int| 0 <= i < rest.len() && !((#[trigger] rest[i]) is Ok);
            assert(outcomes[i] == rest[i]);
        }
    } else {
        lemma_failure_total_bounded(outcomes);
    }
}

/// No step takes a sound schedule over its ceiling: from the start of a
/// run on, the tasks in flight are never more than the permits.
pub proof fn lemma_schedule_stays_sound(schedule: Schedule)
    requires
        schedule.sound(),
    ensures
        schedule.active() <= schedule.permits,
        schedule.can_start() ==> schedule.start().sound() && schedule.start().active()
            == schedule.active() + 1,
        schedule.active() > 0 ==> schedule.finish().sound() && schedule.finish().active()
            == schedule.active() - 1,
        schedule.active() == schedule.permits ==> !schedule.can_start(),
{
}

/// A run starts sound whatever its size, once the ceiling is at least 1.
pub proof fn lemma_schedule_starts_sound(permits: usize, total: usize)
    requires
        permits >= 1,
    ensures
        Schedule::initial(permits, total).sound(),
        Schedule::initial(permits, total).active() == 0,
{
}

} // verus!
