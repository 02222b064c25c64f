//! The upload coordinator: the fan-in half of the batch. Upload units run
//! outside this crate in any order; as each one completes, its outcome is
//! recorded here. Recording is a single serialized mutation — the caller owns
//! the coordinator exclusively (behind a lock, or in one aggregator task fed
//! by a channel), so no two units ever mutate the aggregate concurrently.
//! One failed unit never stops the rest: every outcome is recorded alike and
//! the aggregate is produced only after all units have finished.

use vstd::prelude::*;

use crate::errors::UploadError;
use crate::progress::ProgressReporter;
use crate::transport::UploadOutcome;

verus! {

/// The failure records that a sequence of outcomes leaves behind: one
/// `(path, error)` pair per failed outcome, in recording order.
pub open spec fn failures_of(s: Seq<UploadOutcome>) -> Seq<(String, UploadError)>
    decreases s.len(),
{
    if s.len() == 0 {
        Seq::empty()
    } else {
        failures_of(s.drop_last()) + (match s.last() {
            UploadOutcome::Success(_) => Seq::empty(),
            UploadOutcome::Failure(p, e) => seq![(p, e)],
        })
    }
}

/// No more failure records than outcomes: each outcome leaves at most one.
pub proof fn lemma_failures_of_len(s: Seq<UploadOutcome>)
    ensures
        failures_of(s).len() <= s.len(),
    decreases s.len(),
{
    if s.len() > 0 {
        lemma_failures_of_len(s.drop_last());
    }
}

/// The paths of the failed outcomes, in recording order.
pub open spec fn failure_paths(s: Seq<UploadOutcome>) -> Seq<Seq<char>> {
    failures_of(s).map_values(|f: (String, UploadError)| f.0@)
}

/// The counts a full run of `n` units reports: `1, 2, …, n`.
pub open spec fn progress_log(n: int) -> Seq<usize> {
    Seq::new(n as nat, |i: int| (i + 1) as usize)
}

/// The combined record of one upload batch, read by the caller after every
/// unit has finished.
pub struct AggregateResult {
    /// How many uploads the batch attempted.
    pub total: usize,
    /// How many units completed (with success or failure alike).
    pub completed: usize,
    /// One `(path, error)` pair per failed upload, in completion order.
    pub failures: Vec<(String, UploadError)>,
}

impl AggregateResult {
    /// The aggregate invariant: completion never exceeds the total, and only
    /// completed units can have failed.
    pub open spec fn wf(&self) -> bool {
        self.completed <= self.total && self.failures@.len() <= self.completed
    }

    /// Whether any upload of the batch failed; if so, the whole run reports a
    /// non-zero outcome to its caller after completing every attempt.
    pub fn has_failures(&self) -> (r: bool)
        ensures
            r == (self.failures@.len() > 0),
    {
        self.failures.len() > 0
    }
}

/// Owns one batch's aggregate while units complete. Mutation is serialized by
/// Rust's exclusive-borrow rule: whoever holds `&mut` on the coordinator is
/// the only writer.
pub struct UploadCoordinator {
    /// How many units the batch has in all.
    pub total: usize,
    /// How many outcomes have been recorded so far.
    pub completed: usize,
    /// One `(path, error)` pair per failure recorded so far.
    pub failures: Vec<(String, UploadError)>,
    /// The progress sink this coordinator notifies after each outcome.
    pub reporter: ProgressReporter,
    /// Every outcome recorded so far, in recording order.
    pub outcomes: Ghost<Seq<UploadOutcome>>,
}

impl UploadCoordinator {
    /// The coordinator invariant, from creation until the batch is finished:
    /// the completed count only grows toward `total`, the failure list is
    /// exactly what the recorded outcomes dictate, and the reporter has seen
    /// `1, …, completed` and is not yet finished.
    pub open spec fn wf(&self) -> bool {
        &&& self.completed <= self.total
        &&& self.outcomes@.len() == self.completed
        &&& self.failures@ == failures_of(self.outcomes@)
        &&& self.reporter.total == self.total
        &&& self.reporter.advances@ == progress_log(self.completed as int)
        &&& !self.reporter.finished
    }

    /// Starts a batch of `total` units: nothing completed, nothing failed,
    /// the progress reporter initialized with the total.
    pub fn new(total: usize) -> (r: Self)
        ensures
            r.wf(),
            r.total == total,
            r.completed == 0,
            r.outcomes@ == Seq::<UploadOutcome>::empty(),
    {
        let r = UploadCoordinator {
            total,
            completed: 0,
            failures: Vec::new(),
            reporter: ProgressReporter::initialize(total),
            outcomes: Ghost(Seq::empty()),
        };
        proof {
            assert(r.reporter.advances@ =~= progress_log(0));
        }
        r
    }

    /// Records the outcome of one completed unit and notifies the reporter
    /// with the new cumulative count, which is also returned. A failure is
    /// appended to the failure list; either way the batch goes on.
    pub fn record(&mut self, outcome: UploadOutcome) -> (done: usize)
        requires
            old(self).wf(),
            old(self).completed < old(self).total,
        ensures
            final(self).wf(),
            final(self).total == old(self).total,
            final(self).completed == old(self).completed + 1,
            final(self).outcomes@ == old(self).outcomes@.push(outcome),
            outcome matches UploadOutcome::Failure(p, e) ==> final(self).failures@ == old(
                self,
            ).failures@.push((p, e)),
            outcome is Success ==> final(self).failures@ == old(self).failures@,
            done == final(self).completed,
    {
        let ghost o = outcome;
        proof {
            self.outcomes@ = self.outcomes@.push(o);
            assert(self.outcomes@.drop_last() =~= old(self).outcomes@);
        }
        match outcome {
            UploadOutcome::Success(_) => (),
            UploadOutcome::Failure(p, e) => {
                self.failures.push((p, e));
                proof {
                    assert(failures_of(self.outcomes@) =~= old(self).failures@.push(
                        (o->Failure_0, o->Failure_1),
                    ));
                }
            },
        }
        proof {
            assert(failures_of(self.outcomes@) =~= self.failures@);
        }
        self.completed = self.completed + 1;
        self.reporter.advance(self.completed);
        proof {
            assert(self.reporter.advances@ =~= progress_log(self.completed as int));
        }
        self.completed
    }

    /// Whether every unit of the batch has been recorded.
    pub fn is_done(&self) -> (r: bool)
        ensures
            r == (self.completed == self.total),
    {
        self.completed == self.total
    }

    /// Closes the batch once every unit has been recorded: tells the reporter
    /// to finish, and hands out the aggregate together with the reporter's
    /// record. Completion equals the total — the coordinator never returns a
    /// partial result.
    pub fn finish(self) -> (r: (AggregateResult, ProgressReporter))
        requires
            self.wf(),
            self.completed == self.total,
        ensures
            r.0.wf(),
            r.0.total == self.total,
            r.0.completed == self.total,
            r.0.failures@ == failures_of(self.outcomes@),
            r.1.total == self.total,
            r.1.advances@ == progress_log(self.total as int),
            r.1.finished,
    {
        proof {
            lemma_failures_of_len(self.outcomes@);
        }
        let UploadCoordinator { total, completed, failures, reporter, outcomes } = self;
        let mut reporter = reporter;
        reporter.finish();
        (AggregateResult { total, completed, failures }, reporter)
    }
}

/// Drives one coordinator over a sequence of outcomes that arrived in the
/// given order, and closes the batch: the fan-in barrier in one verified
/// piece. However many of the outcomes are failures, every one is recorded
/// and the aggregate reports completion of them all.
pub fn aggregate_outcomes(outcomes: Vec<UploadOutcome>) -> (r: (AggregateResult, ProgressReporter))
    ensures
        r.0.wf(),
        r.0.total == outcomes@.len(),
        r.0.completed == outcomes@.len(),
        r.0.failures@ == failures_of(outcomes@),
        r.1.total == outcomes@.len(),
        r.1.advances@ == progress_log(outcomes@.len() as int),
        r.1.finished,
{
    let mut outcomes = outcomes;
    let ghost all = outcomes@;
    let total = outcomes.len();
    let mut coordinator = UploadCoordinator::new(total);
    proof {
        assert(coordinator.outcomes@ =~= all.subrange(0, 0));
        assert(outcomes@ =~= all.subrange(0, all.len() as int));
    }
    while outcomes.len() > 0
        invariant
            coordinator.wf(),
            coordinator.total == total,
            total == all.len(),
            coordinator.completed + outcomes@.len() == total,
            coordinator.outcomes@ == all.subrange(0, coordinator.completed as int),
            outcomes@ == all.subrange(coordinator.completed as int, all.len() as int),
        decreases outcomes@.len(),
    {
        let outcome = outcomes.remove(0);
        let ghost done = coordinator.completed as int;
        proof {
            assert(all.subrange(done, all.len() as int)[0] == all[done]);
        }
        coordinator.record(outcome);
        proof {
            assert(coordinator.outcomes@ =~= all.subrange(0, done + 1));
            assert(outcomes@ =~= all.subrange(done + 1, all.len() as int));
        }
    }
    proof {
        assert(all.subrange(0, all.len() as int) =~= all);
    }
    coordinator.finish()
}

/// However a run's outcomes fell, the progress counts it reported are
/// strictly increasing, one per unit, and end at the total.
pub proof fn lemma_progress_monotone(n: int)
    requires
        0 <= n <= usize::MAX,
    ensures
        progress_log(n).len() == n,
        forall|i: int, j: int| 0 <= i < j < n ==> progress_log(n)[i] < progress_log(n)[j],
        n > 0 ==> progress_log(n).last() == n,
{
}

/// Every failed outcome's path appears among the recorded failure paths.
pub proof fn lemma_failure_recorded(outcomes: Seq<UploadOutcome>)
    ensures
        forall|i: int|
            0 <= i < outcomes.len() && outcomes[i] is Failure ==> failure_paths(outcomes).contains(
                #[trigger] outcomes[i].path_chars(),
            ),
    decreases outcomes.len(),
{
    if outcomes.len() > 0 {
        let pre = outcomes.drop_last();
        lemma_failure_recorded(pre);
        assert forall|i: int|
            0 <= i < outcomes.len() && outcomes[i] is Failure implies failure_paths(
            outcomes,
        ).contains(#[trigger] outcomes[i].path_chars()) by {
            if i < pre.len() {
                assert(pre[i] == outcomes[i]);
                assert(failure_paths(pre).contains(outcomes[i].path_chars()));
                let k = choose|k: int|
                    0 <= k < failure_paths(pre).len() && failure_paths(pre)[k]
                        == outcomes[i].path_chars();
                lemma_failures_of_last(outcomes);
                assert(failure_paths(outcomes)[k] == outcomes[i].path_chars());
            } else {
                lemma_failures_of_last(outcomes);
                assert(failure_paths(outcomes).last() == outcomes[i].path_chars());
                assert(failure_paths(outcomes)[failure_paths(outcomes).len() - 1]
                    == outcomes[i].path_chars());
            }
        }
    }
}

/// How the failure paths grow by one outcome: unchanged by a success,
/// extended by the path of a failure.
proof fn lemma_failures_of_last(outcomes: Seq<UploadOutcome>)
    requires
        outcomes.len() > 0,
    ensures
        outcomes.last() is Failure ==> failure_paths(outcomes) =~= failure_paths(
            outcomes.drop_last(),
        ).push(outcomes.last().path_chars()),
        outcomes.last() is Success ==> failure_paths(outcomes) =~= failure_paths(
            outcomes.drop_last(),
        ),
{
    let pre = outcomes.drop_last();
    match outcomes.last() {
        UploadOutcome::Success(_) => {
            assert(failures_of(outcomes) =~= failures_of(pre));
        },
        UploadOutcome::Failure(p, e) => {
            assert(failures_of(outcomes) =~= failures_of(pre).push((p, e)));
            failures_of(pre).lemma_push_map_commute(
                |f: (String, UploadError)| f.0@,
                (p, e),
            );
        },
    }
}

/// Every recorded failure path comes from a failed outcome with that path:
/// the failure list holds exactly the failed subset.
pub proof fn lemma_failure_path_has_outcome(outcomes: Seq<UploadOutcome>, p: Seq<char>)
    requires
        failure_paths(outcomes).contains(p),
    ensures
        exists|i: int| 0 <= i < outcomes.len() && outcomes[i] is Failure && outcomes[i].path_chars() == p,
    decreases outcomes.len(),
{
    assert(outcomes.len() > 0);
    let pre = outcomes.drop_last();
    lemma_failures_of_last(outcomes);
    if outcomes.last() is Failure && failure_paths(outcomes).last() == p
        && outcomes.last().path_chars() == p {
        assert(0 <= outcomes.len() - 1 < outcomes.len() && outcomes[outcomes.len()
            - 1] is Failure && outcomes[outcomes.len() - 1].path_chars() == p);
    } else {
        let k = choose|k: int|
            0 <= k < failure_paths(outcomes).len() && failure_paths(outcomes)[k] == p;
        if outcomes.last() is Failure {
            assert(k < failure_paths(outcomes).len() - 1);
        }
        assert(failure_paths(pre)[k] == p);
        assert(failure_paths(pre).contains(p));
        lemma_failure_path_has_outcome(pre, p);
        let i = choose|i: int|
            0 <= i < pre.len() && pre[i] is Failure && pre[i].path_chars() == p;
        assert(pre[i] == outcomes[i]);
        assert(0 <= i < outcomes.len() && outcomes[i] is Failure && outcomes[i].path_chars() == p);
    }
}

/// Uploads that succeeded leave no failure record: when the outcomes' paths
/// are distinct — as they are when each file is uploaded once — a successful
/// path never appears among the failures.
pub proof fn lemma_success_not_recorded(outcomes: Seq<UploadOutcome>)
    requires
        forall|i: int, j: int|
            0 <= i < j < outcomes.len() ==> outcomes[i].path_chars() != outcomes[j].path_chars(),
    ensures
        forall|i: int|
            0 <= i < outcomes.len() && outcomes[i] is Success ==> !failure_paths(
                outcomes,
            ).contains(#[trigger] outcomes[i].path_chars()),
{
    assert forall|i: int|
        0 <= i < outcomes.len() && outcomes[i] is Success implies !failure_paths(
        outcomes,
    ).contains(#[trigger] outcomes[i].path_chars()) by {
        if failure_paths(outcomes).contains(outcomes[i].path_chars()) {
            lemma_failure_path_has_outcome(outcomes, outcomes[i].path_chars());
            let j = choose|j: int|
                0 <= j < outcomes.len() && outcomes[j] is Failure && outcomes[j].path_chars()
                    == outcomes[i].path_chars();
            assert(j != i);
            assert(outcomes[if i < j {
                i
            } else {
                j
            }].path_chars() != outcomes[if i < j {
                j
            } else {
                i
            }].path_chars());
        }
    }
}

/// A run in which every upload succeeded has an empty failure list.
pub proof fn lemma_all_success_no_failures(outcomes: Seq<UploadOutcome>)
    requires
        forall|i: int| 0 <= i < outcomes.len() ==> outcomes[i] is Success,
    ensures
        failures_of(outcomes).len() == 0,
    decreases outcomes.len(),
{
    if outcomes.len() > 0 {
        let pre = outcomes.drop_last();
        assert(forall|i: int| 0 <= i < pre.len() ==> pre[i] == outcomes[i]);
        lemma_all_success_no_failures(pre);
    }
}

} // verus!
