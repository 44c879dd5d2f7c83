//! The schedule engine: the state of every timer, and the sweep.
//!
//! A job that is armed has a timer. On each tick of the timer the job fires:
//! its action runs, and when the action is done the job is armed again,
//! whether the action failed or not. A job that is cancelled stays so until
//! it is armed anew; an action that is running at that moment may finish.
//!
//! The engine holds the state of the timers, keyed by job id, and nothing of
//! the jobs themselves. The timers and the actions are the caller's: the
//! engine says what follows from each event.
use vstd::prelude::*;
use vstd::string::*;
use vstd::seq_lib::*;
use crate::errors::ScheduleError;
use crate::models::{CronJob, JobRecord};
use crate::schedule::{is_valid_schedule, valid_schedule};
use crate::store::{due_jobs, job_due, job_records, stamped, Store};

verus! {

/// The state of a timer.
#[derive(Clone, Copy, Debug, PartialEq, Eq, Structural)]
pub enum JobState {
    /// The timer is registered and waits for its next tick.
    Armed,
    /// The action is running.
    Firing,
    /// The timer was removed.
    Cancelled,
}

/// What can happen to a timer.
#[derive(Clone, Copy, Debug, PartialEq, Eq, Structural)]
pub enum Event {
    /// The job is to be armed.
    Arm,
    /// The timer ticked.
    Tick,
    /// The action came to its end; `failed` says whether it went wrong.
    Done { failed: bool },
    /// The job is to be cancelled.
    Cancel,
}

/// What the caller is to do after an event.
#[derive(Clone, Copy, Debug, PartialEq, Eq, Structural)]
pub enum Action {
    /// Nothing.
    Idle,
    /// Run the action of the job.
    Run,
    /// Log the failure; the job goes on.
    Report(ScheduleError),
}

/// The state that follows `state` on `event`; `None` is a job that the
/// engine does not know.
pub open spec fn next_state(state: Option<JobState>, event: Event) -> Option<JobState> {
    match (state, event) {
        (None, Event::Arm) => Some(JobState::Armed),
        (Some(JobState::Cancelled), Event::Arm) => Some(JobState::Armed),
        (Some(JobState::Armed), Event::Tick) => Some(JobState::Firing),
        (Some(JobState::Firing), Event::Done { failed }) => Some(JobState::Armed),
        (Some(_), Event::Cancel) => Some(JobState::Cancelled),
        _ => state,
    }
}

/// What the caller is to do when `event` meets `state`.
pub open spec fn action_on(state: Option<JobState>, event: Event) -> Action {
    match (state, event) {
        (Some(JobState::Armed), Event::Tick) => Action::Run,
        (Some(_), Event::Done { failed }) => if failed {
            Action::Report(ScheduleError::ExecutionFailed)
        } else {
            Action::Idle
        },
        _ => Action::Idle,
    }
}

/// One step of a timer: the state that follows, and what to do.
pub fn step(state: Option<JobState>, event: Event) -> (r: (Option<JobState>, Action))
    ensures
        r.0 == next_state(state, event),
        r.1 == action_on(state, event),
{
    match event {
        Event::Arm => match state {
            None => (Some(JobState::Armed), Action::Idle),
            Some(JobState::Cancelled) => (Some(JobState::Armed), Action::Idle),
            Some(_) => (state, Action::Idle),
        },
        Event::Tick => match state {
            Some(JobState::Armed) => (Some(JobState::Firing), Action::Run),
            _ => (state, Action::Idle),
        },
        Event::Done { failed } => {
            let action = match state {
                None => Action::Idle,
                Some(_) => if failed {
                    Action::Report(ScheduleError::ExecutionFailed)
                } else {
                    Action::Idle
                },
            };
            match state {
                Some(JobState::Firing) => (Some(JobState::Armed), action),
                _ => (state, action),
            }
        },
        Event::Cancel => match state {
            None => (None, Action::Idle),
            Some(_) => (Some(JobState::Cancelled), Action::Idle),
        },
    }
}

/// The timer of one job.
#[derive(Clone, Copy, Debug, PartialEq, Eq, Structural)]
pub struct Timer {
    pub job_id: i32,
    pub state: JobState,
}

/// The state of the job `job_id` among `timers`; `None` where it has no
/// timer.
pub open spec fn state_of(timers: Seq<Timer>, job_id: i32) -> Option<JobState>
    decreases timers.len(),
{
    if timers.len() == 0 {
        None
    } else if timers.last().job_id == job_id {
        Some(timers.last().state)
    } else {
        state_of(timers.drop_last(), job_id)
    }
}

/// No two timers belong to one job.
pub open spec fn timers_distinct(timers: Seq<Timer>) -> bool {
    forall|i: int, j: int|
        0 <= i < j < timers.len() ==> (#[trigger] timers[i]).job_id != (#[trigger] timers[j]).job_id
}

/// Where no job has two timers, the state of a job is the state of its
/// timer.
pub proof fn lemma_state_of(timers: Seq<Timer>, job_id: i32)
    requires
        timers_distinct(timers),
    ensures
        forall|k: int|
            0 <= k < timers.len() && (#[trigger] timers[k]).job_id == job_id ==> state_of(
                timers,
                job_id,
            ) == Some(timers[k].state),
        (forall|k: int| 0 <= k < timers.len() ==> (#[trigger] timers[k]).job_id != job_id)
            ==> state_of(timers, job_id) is None,
    decreases timers.len(),
{
    if timers.len() > 0 {
        let shorter = timers.drop_last();
        assert forall|i: int, j: int| 0 <= i < j < shorter.len() implies (#[trigger] shorter[i]).job_id
            != (#[trigger] shorter[j]).job_id by {
            assert(shorter[i] == timers[i] && shorter[j] == timers[j]);
        }
        lemma_state_of(shorter, job_id);
        assert forall|k: int|
            0 <= k < timers.len() && (#[trigger] timers[k]).job_id == job_id implies state_of(
            timers,
            job_id,
        ) == Some(timers[k].state) by {
            if k < timers.len() - 1 {
                assert(shorter[k] == timers[k]);
                assert(timers[k].job_id != timers[timers.len() - 1].job_id);
            }
        }
        if forall|k: int| 0 <= k < timers.len() ==> (#[trigger] timers[k]).job_id != job_id {
            assert(timers[timers.len() - 1].job_id != job_id);
            assert forall|k: int| 0 <= k < shorter.len() implies (#[trigger] shorter[k]).job_id
                != job_id by {
                assert(shorter[k] == timers[k]);
            }
        }
    }
}

/// The timers of the service.
pub struct ScheduleEngine {
    timers: Vec<Timer>,
}

impl View for ScheduleEngine {
    type V = Seq<Timer>;

    closed spec fn view(&self) -> Seq<Timer> {
        self.timers@
    }
}

impl ScheduleEngine {
    /// No job has two timers.
    #[verifier::type_invariant]
    pub open spec fn wf(&self) -> bool {
        timers_distinct(self@)
    }

    /// An engine without timers.
    pub fn new() -> (engine: ScheduleEngine)
        ensures
            engine@.len() == 0,
    {
        ScheduleEngine { timers: Vec::new() }
    }

    /// Where the timer of `job_id` stands among the timers.
    fn position(&self, job_id: i32) -> (at: Option<usize>)
        ensures
            match at {
                Some(k) => k < self@.len() && self@[k as int].job_id == job_id,
                None => forall|k: int| 0 <= k < self@.len() ==> (#[trigger] self@[k]).job_id != job_id,
            },
    {
        let mut i: usize = 0;
        while i < self.timers.len() && self.timers[i].job_id != job_id
            invariant
                i <= self.timers@.len(),
                forall|k: int| 0 <= k < i ==> (#[trigger] self.timers@[k]).job_id != job_id,
            decreases self.timers@.len() - i,
        {
            i = i + 1;
        }
        if i < self.timers.len() {
            Some(i)
        } else {
            None
        }
    }

    /// The state of the job `job_id`.
    pub fn state(&self, job_id: i32) -> (state: Option<JobState>)
        ensures
            state == state_of(self@, job_id),
    {
        proof {
            use_type_invariant(self);
            lemma_state_of(self@, job_id);
        }
        match self.position(job_id) {
            Some(k) => Some(self.timers[k].state),
            None => None,
        }
    }

    /// Lets `event` happen to the job `job_id` and says what to do. No other
    /// job is touched.
    pub fn dispatch(&mut self, job_id: i32, event: Event) -> (action: Action)
        ensures
            action == action_on(state_of(old(self)@, job_id), event),
            state_of(final(self)@, job_id) == next_state(state_of(old(self)@, job_id), event),
            forall|other: i32|
                other != job_id ==> state_of(final(self)@, other) == state_of(old(self)@, other),
    {
        proof {
            use_type_invariant(&*self);
            lemma_state_of(self@, job_id);
        }
        let found = self.position(job_id);
        let before: Option<JobState> = match found {
            Some(k) => Some(self.timers[k].state),
            None => None,
        };
        let (after, action) = step(before, event);
        let mut timers: Vec<Timer> = Vec::new();
        core::mem::swap(&mut self.timers, &mut timers);
        let ghost old_timers = timers@;
        match (found, after) {
            (Some(k), Some(state)) => {
                timers.set(k, Timer { job_id, state });
                proof {
                    assert forall|other: i32| true implies #[trigger] state_of(timers@, other) == (
                    if other == job_id {
                        Some(state)
                    } else {
                        state_of(old_timers, other)
                    }) by {
                        lemma_state_of(old_timers, other);
                        lemma_state_of(timers@, other);
                        if other != job_id && state_of(old_timers, other) is Some {
                            lemma_state_has_timer(old_timers, other);
                            let m = choose|m: int|
                                0 <= m < old_timers.len() && (#[trigger] old_timers[m]).job_id
                                    == other;
                            assert(timers@[m] == old_timers[m]);
                        } else if other != job_id {
                            lemma_state_has_timer(timers@, other);
                            if state_of(timers@, other) is Some {
                                let m = choose|m: int|
                                    0 <= m < timers@.len() && (#[trigger] timers@[m]).job_id
                                        == other;
                                assert(timers@[m] == old_timers[m]);
                            }
                        } else {
                            assert(timers@[k as int].job_id == job_id);
                        }
                    }
                }
            },
            (None, Some(state)) => {
                timers.push(Timer { job_id, state });
                proof {
                    assert(timers@.drop_last() =~= old_timers);
                }
            },
            _ => {},
        }
        self.timers = timers;
        action
    }

    /// Arms `job`: the engine reads its schedule and, where that is a cron
    /// expression, takes the job as armed. A job that is armed or firing
    /// stays as it is.
    ///
    /// `InvalidExpression` where the schedule is no cron expression: the job
    /// is then not armed, and the engine is unchanged.
    pub fn arm(&mut self, job: &CronJob) -> (r: Result<(), ScheduleError>)
        ensures
            r is Ok <==> valid_schedule(job@.schedule),
            r is Err ==> r == Err::<(), ScheduleError>(ScheduleError::InvalidExpression)
                && final(self)@ == old(self)@,
            r is Ok ==> state_of(final(self)@, job@.id) == next_state(
                state_of(old(self)@, job@.id),
                Event::Arm,
            ),
            forall|other: i32|
                other != job@.id ==> state_of(final(self)@, other) == state_of(old(self)@, other),
    {
        if !is_valid_schedule(job.schedule.as_str()) {
            return Err(ScheduleError::InvalidExpression);
        }
        let _ = self.dispatch(job.id, Event::Arm);
        Ok(())
    }

    /// The timer of `job_id` ticked. Says whether the action is to run: it
    /// is where the job was armed, and the job is then firing.
    pub fn tick(&mut self, job_id: i32) -> (run: bool)
        ensures
            run == (state_of(old(self)@, job_id) == Some(JobState::Armed)),
            state_of(final(self)@, job_id) == next_state(state_of(old(self)@, job_id), Event::Tick),
            forall|other: i32|
                other != job_id ==> state_of(final(self)@, other) == state_of(old(self)@, other),
    {
        match self.dispatch(job_id, Event::Tick) {
            Action::Run => true,
            _ => false,
        }
    }

    /// The action of `job_id` is done. A firing job is armed again, whether
    /// the action failed or not; a failure of a job that the engine knows is
    /// handed back for the log.
    pub fn complete(&mut self, job_id: i32, failed: bool) -> (report: Option<ScheduleError>)
        ensures
            report == (if failed && state_of(old(self)@, job_id) is Some {
                Some(ScheduleError::ExecutionFailed)
            } else {
                None
            }),
            state_of(final(self)@, job_id) == next_state(
                state_of(old(self)@, job_id),
                Event::Done { failed },
            ),
            forall|other: i32|
                other != job_id ==> state_of(final(self)@, other) == state_of(old(self)@, other),
    {
        match self.dispatch(job_id, Event::Done { failed }) {
            Action::Report(error) => Some(error),
            _ => None,
        }
    }

    /// Cancels the job `job_id`.
    pub fn cancel(&mut self, job_id: i32)
        ensures
            state_of(final(self)@, job_id) == next_state(state_of(old(self)@, job_id), Event::Cancel),
            forall|other: i32|
                other != job_id ==> state_of(final(self)@, other) == state_of(old(self)@, other),
    {
        let _ = self.dispatch(job_id, Event::Cancel);
    }

    /// Cancels every job.
    pub fn shutdown(&mut self)
        ensures
            forall|job_id: i32|
                #[trigger] state_of(final(self)@, job_id) == next_state(
                    state_of(old(self)@, job_id),
                    Event::Cancel,
                ),
    {
        proof {
            use_type_invariant(&*self);
        }
        let mut timers: Vec<Timer> = Vec::new();
        core::mem::swap(&mut self.timers, &mut timers);
        let ghost old_timers = timers@;
        let mut i: usize = 0;
        while i < timers.len()
            invariant
                i <= timers@.len(),
                timers@.len() == old_timers.len(),
                forall|k: int|
                    0 <= k < timers@.len() ==> (#[trigger] timers@[k]).job_id == old_timers[k].job_id,
                forall|k: int| 0 <= k < i ==> (#[trigger] timers@[k]).state == JobState::Cancelled,
                forall|k: int| i <= k < timers@.len() ==> #[trigger] timers@[k] == old_timers[k],
            decreases timers@.len() - i,
        {
            let job_id: i32 = timers[i].job_id;
            timers.set(i, Timer { job_id, state: JobState::Cancelled });
            i = i + 1;
        }
        proof {
            assert forall|a: int, b: int| 0 <= a < b < timers@.len() implies (#[trigger] timers@[a]).job_id
                != (#[trigger] timers@[b]).job_id by {
                assert(old_timers[a].job_id != old_timers[b].job_id);
            }
            assert forall|job_id: i32| #[trigger]
                state_of(timers@, job_id) == next_state(
                    state_of(old_timers, job_id),
                    Event::Cancel,
                ) by {
                lemma_state_of(old_timers, job_id);
                lemma_state_of(timers@, job_id);
                lemma_state_has_timer(old_timers, job_id);
                if state_of(old_timers, job_id) is Some {
                    let m = choose|m: int|
                        0 <= m < old_timers.len() && (#[trigger] old_timers[m]).job_id == job_id;
                    assert(timers@[m].job_id == job_id);
                } else {
                    assert forall|k: int| 0 <= k < timers@.len() implies (#[trigger] timers@[k]).job_id
                        != job_id by {
                        assert(old_timers[k].job_id != job_id);
                    }
                }
            }
        }
        self.timers = timers;
    }
}

/// A job that has a state has a timer.
pub proof fn lemma_state_has_timer(timers: Seq<Timer>, job_id: i32)
    ensures
        state_of(timers, job_id) is Some ==> exists|m: int|
            0 <= m < timers.len() && (#[trigger] timers[m]).job_id == job_id,
        state_of(timers, job_id) is None ==> forall|m: int|
            0 <= m < timers.len() ==> (#[trigger] timers[m]).job_id != job_id,
    decreases timers.len(),
{
    if timers.len() > 0 {
        if timers.last().job_id == job_id {
            assert(timers[timers.len() - 1].job_id == job_id);
        } else {
            let shorter = timers.drop_last();
            lemma_state_has_timer(shorter, job_id);
            if state_of(shorter, job_id) is Some {
                let m = choose|m: int|
                    0 <= m < shorter.len() && (#[trigger] shorter[m]).job_id == job_id;
                assert(timers[m] == shorter[m]);
            } else {
                assert forall|m: int| 0 <= m < timers.len() implies (#[trigger] timers[m]).job_id
                    != job_id by {
                    if m < timers.len() - 1 {
                        assert(shorter[m] == timers[m]);
                    }
                }
            }
        }
    }
}

/// `jobs` after a sweep at `now`: every job that was due ran at `now`.
pub open spec fn swept(jobs: Seq<JobRecord>, now: u64) -> Seq<JobRecord> {
    jobs.map_values(
        |job: JobRecord|
            if job_due(job, now) {
                stamped(job, now)
            } else {
                job
            },
    )
}

/// `jobs` after the jobs with an id among `ids` ran at `now`.
spec fn stamped_among(jobs: Seq<JobRecord>, ids: Seq<i32>, now: u64) -> Seq<JobRecord> {
    jobs.map_values(
        |job: JobRecord|
            if ids.contains(job.id) {
                stamped(job, now)
            } else {
                job
            },
    )
}

/// The ids of `jobs`.
spec fn ids_of(jobs: Seq<JobRecord>) -> Seq<i32> {
    jobs.map_values(|job: JobRecord| job.id)
}

/// Among jobs with distinct ids, the ids of the due jobs are the ids of no
/// other job.
proof fn lemma_due_ids(jobs: Seq<JobRecord>, now: u64, k: int)
    requires
        0 <= k < jobs.len(),
        forall|i: int, j: int|
            0 <= i < j < jobs.len() ==> (#[trigger] jobs[i]).id != (#[trigger] jobs[j]).id,
    ensures
        ids_of(due_jobs(jobs, now)).contains(jobs[k].id) <==> job_due(jobs[k], now),
{
    let pred = |job: JobRecord| job_due(job, now);
    let due = jobs.filter(pred);
    let ids = ids_of(due);
    #[allow(deprecated)]
    jobs.filter_lemma(pred);
    if job_due(jobs[k], now) {
        assert(due.contains(jobs[k]));
        let m = choose|m: int| 0 <= m < due.len() && due[m] == jobs[k];
        assert(ids[m] == jobs[k].id);
    }
    if ids.contains(jobs[k].id) {
        let m = choose|m: int| 0 <= m < ids.len() && ids[m] == jobs[k].id;
        assert(due.contains(due[m]));
        jobs.lemma_filter_contains_rev(pred, due[m]);
        let n = choose|n: int| 0 <= n < jobs.len() && jobs[n] == due[m];
        assert(n == k);
    }
}

/// One sweep of the poller at the time `now`: stamps every job that is due
/// with `now` and hands the jobs out as they were selected, for their
/// actions to run.
pub fn sweep(store: &mut Store, now: u64) -> (ran: Vec<CronJob>)
    ensures
        job_records(ran@) == due_jobs(old(store)@.jobs, now),
        final(store)@.jobs == swept(old(store)@.jobs, now),
        final(store)@.users == old(store)@.users,
{
    proof {
        use_type_invariant(&*store);
    }
    let ran = store.list_due(now);
    let ghost before = store@.jobs;
    let ghost ids = ids_of(job_records(ran@));
    let mut i: usize = 0;
    proof {
        assert(store@.jobs =~= stamped_among(before, ids.take(0), now));
    }
    while i < ran.len()
        invariant
            i <= ran@.len(),
            ids == ids_of(job_records(ran@)),
            job_records(ran@) == due_jobs(before, now),
            forall|a: int, b: int|
                0 <= a < b < before.len() ==> (#[trigger] before[a]).id != (#[trigger] before[b]).id,
            store@.users == old(store)@.users,
            store@.jobs == stamped_among(before, ids.take(i as int), now),
        decreases ran@.len() - i,
    {
        let job_id: i32 = ran[i].id;
        let ghost current = store@.jobs;
        proof {
            assert(ids[i as int] == job_id);
            let pred = |job: JobRecord| job_due(job, now);
            assert(before.filter(pred).contains(job_records(ran@)[i as int]));
            before.lemma_filter_contains_rev(pred, job_records(ran@)[i as int]);
            let n = choose|n: int| 0 <= n < before.len() && before[n] == job_records(ran@)[i as int];
            assert(current[n].id == job_id);
        }
        let _ = store.mark_run(job_id, now);
        proof {
            let done = ids.take(i as int);
            let more = ids.take(i + 1);
            assert(more =~= done.push(job_id));
            assert forall|k: int| 0 <= k < before.len() implies store@.jobs[k] == stamped_among(
                before,
                more,
                now,
            )[k] by {
                assert(current[k].id == before[k].id);
                if before[k].id == job_id {
                    assert(more[i as int] == job_id);
                } else if done.contains(before[k].id) {
                    let m = choose|m: int| 0 <= m < done.len() && done[m] == before[k].id;
                    assert(more[m] == before[k].id);
                } else if more.contains(before[k].id) {
                    let m = choose|m: int| 0 <= m < more.len() && more[m] == before[k].id;
                    assert(done[m] == before[k].id);
                }
            }
            assert(store@.jobs =~= stamped_among(before, more, now));
        }
        i = i + 1;
    }
    proof {
        assert(ids.take(i as int) =~= ids);
        assert forall|k: int| 0 <= k < before.len() implies stamped_among(before, ids, now)[k]
            == swept(before, now)[k] by {
            lemma_due_ids(before, now, k);
        }
        assert(stamped_among(before, ids, now) =~= swept(before, now));
    }
    ran
}

/// The line that the action of a job puts out.
pub fn execution_line(job: &CronJob) -> (line: String)
    ensures
        line@ == "Executing cron job: "@ + job@.message,
{
    String::from_str("Executing cron job: ").concat(job.message.as_str())
}

} // verus!
