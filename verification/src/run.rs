use vstd::prelude::*;

use crate::error::Error;
use crate::error::Status;

verus! {

/// Counters shown to the user while a run is in flight: how many execution
/// units were attempted so far, out of a total fixed at planning time.
pub struct Progress {
    pub count: usize,
    pub total: usize,
}

impl Progress {
    pub fn new(total: usize) -> (r: Progress)
        ensures
            r.count == 0,
            r.total == total,
    {
        Progress { count: 0, total }
    }
}

/// The sequencing state of a run: the progress counters plus the first
/// failing status, if any unit has failed.
pub struct Runner {
    pub progress: Progress,
    pub failure: Option<Status>,
}

/// The state a run starts in: nothing attempted, nothing failed.
pub open spec fn runner_start(total: usize) -> Runner {
    Runner { progress: Progress { count: 0, total }, failure: Option::None }
}

/// May another unit run? Only while nothing has failed and units remain.
pub open spec fn runner_active(r: Runner) -> bool {
    r.failure is None && r.progress.count < r.progress.total
}

/// The effect of attempting one unit that ended with `status`: the attempt is
/// counted, and a failing status is latched as the run's outcome.
pub open spec fn step_spec(r: Runner, status: Status) -> Runner {
    Runner {
        progress: Progress {
            count: (r.progress.count + 1) as usize,
            total: r.progress.total,
        },
        failure: if status.success {
            r.failure
        } else {
            Option::Some(status)
        },
    }
}

/// The run driven to its end over a sequence of unit statuses: units are
/// attempted in order while the run is active, and attempts stop at the first
/// failure or when the total is reached.
pub open spec fn run_trace(r: Runner, statuses: Seq<Status>) -> Runner
    decreases statuses.len(),
{
    if statuses.len() == 0 || !runner_active(r) {
        r
    } else {
        run_trace(step_spec(r, statuses[0]), statuses.drop_first())
    }
}

impl Runner {
    /// A run over `total` planned units that has not started yet.
    pub fn new(total: usize) -> (r: Runner)
        ensures
            r == runner_start(total),
    {
        Runner { progress: Progress::new(total), failure: Option::None }
    }

    /// May another unit run?
    pub fn active(&self) -> (r: bool)
        ensures
            r == runner_active(*self),
    {
        self.failure.is_none() && self.progress.count < self.progress.total
    }

    /// Record the status one unit ended with.
    pub fn record(&mut self, status: Status)
        requires
            runner_active(*old(self)),
        ensures
            *final(self) == step_spec(*old(self), status),
    {
        self.progress.count = self.progress.count + 1;
        if !status.success {
            self.failure = Some(status);
        }
    }

    /// The run's outcome: success, or the first failing unit's status.
    pub fn report(&self) -> (r: Result<(), Error>)
        ensures
            r is Ok <==> self.failure is None,
            self.failure matches Some(s) ==> r == Result::<(), Error>::Err(
                Error::Build { status: s },
            ),
    {
        match self.failure {
            Option::None => Ok(()),
            Option::Some(s) => Err(Error::Build { status: s }),
        }
    }
}

proof fn lemma_run_all_success(r: Runner, statuses: Seq<Status>)
    requires
        r.failure is None,
        r.progress.count <= r.progress.total,
        statuses.len() >= r.progress.total - r.progress.count,
        forall|i: int|
            0 <= i < r.progress.total - r.progress.count ==> (#[trigger] statuses[i]).success,
    ensures
        run_trace(r, statuses).progress.count == r.progress.total,
        run_trace(r, statuses).progress.total == r.progress.total,
        run_trace(r, statuses).failure is None,
    decreases statuses.len(),
{
    if runner_active(r) && statuses.len() > 0 {
        let r2 = step_spec(r, statuses[0]);
        assert(statuses[0].success);
        assert forall|i: int|
            0 <= i < r2.progress.total - r2.progress.count implies (#[trigger] statuses.drop_first()[i]).success by {
            assert(statuses.drop_first()[i] == statuses[i + 1]);
        }
        lemma_run_all_success(r2, statuses.drop_first());
    }
}

/// The total the planner fixed before the first unit ran is exactly the
/// number of units attempted when every unit succeeds: a run over `total`
/// units whose statuses all report success attempts each unit once and ends
/// with no failure.
pub proof fn lemma_total_attempted(total: usize, statuses: Seq<Status>)
    requires
        statuses.len() >= total,
        forall|i: int| 0 <= i < total ==> (#[trigger] statuses[i]).success,
    ensures
        run_trace(runner_start(total), statuses).progress.count == total,
        run_trace(runner_start(total), statuses).failure is None,
{
    lemma_run_all_success(runner_start(total), statuses);
}

proof fn lemma_run_stops_at_failure(r: Runner, statuses: Seq<Status>, k: int)
    requires
        r.failure is None,
        0 <= k < statuses.len(),
        r.progress.count + k < r.progress.total,
        forall|i: int| 0 <= i < k ==> (#[trigger] statuses[i]).success,
        !statuses[k].success,
    ensures
        run_trace(r, statuses) == (Runner {
            progress: Progress {
                count: (r.progress.count + k + 1) as usize,
                total: r.progress.total,
            },
            failure: Option::Some(statuses[k]),
        }),
    decreases k,
{
    let r2 = step_spec(r, statuses[0]);
    if k == 0 {
        assert(!runner_active(r2));
        assert(run_trace(r2, statuses.drop_first()) == r2);
    } else {
        assert(statuses[0].success);
        assert forall|i: int| 0 <= i < k - 1 implies (#[trigger] statuses.drop_first()[i]).success by {
            assert(statuses.drop_first()[i] == statuses[i + 1]);
        }
        assert(statuses.drop_first()[k - 1] == statuses[k]);
        lemma_run_stops_at_failure(r2, statuses.drop_first(), k - 1);
    }
}

/// Fail-fast: when unit `k` of a run over `total` units is the first to fail,
/// exactly `k + 1` units are attempted — the later units are never executed —
/// and the run's reported outcome is unit `k`'s status.
pub proof fn lemma_fail_fast(total: usize, statuses: Seq<Status>, k: int)
    requires
        0 <= k < total,
        k < statuses.len(),
        forall|i: int| 0 <= i < k ==> (#[trigger] statuses[i]).success,
        !statuses[k].success,
    ensures
        run_trace(runner_start(total), statuses).progress.count == k + 1,
        run_trace(runner_start(total), statuses).failure == Option::Some(statuses[k]),
{
    lemma_run_stops_at_failure(runner_start(total), statuses, k);
}

} // verus!
