//! Jobs: creating them, listing them, arming them.
use vstd::prelude::*;
use crate::clock::unix_time;
use crate::engine::{next_state, state_of, Event, ScheduleEngine};
use crate::errors::{ScheduleError, StoreError};
use crate::models::{CronJob, NewCronJob};
use crate::schedule::valid_schedule;
use crate::store::{job_records, newest_first, next_job_id, owner_jobs, user_with_id, Store};

verus! {

/// Keeps a new job of the user `user_id`, with the clock's time as the time
/// of creation. The job has not run yet.
///
/// `InvalidSchedule` where the schedule is no cron expression, else
/// `OwnerNotFound` where `user_id` is no user of the store, else `Storage`
/// where no id is left. The store is then unchanged.
pub fn create_cron_job(store: &mut Store, user_id: i32, new_cron_job: NewCronJob) -> (r: Result<
    CronJob,
    StoreError,
>)
    ensures
        final(store)@.users == old(store)@.users,
        r is Err ==> final(store)@ == old(store)@,
        r is Err ==> r == Err::<CronJob, StoreError>(
            if !valid_schedule(new_cron_job.schedule@) {
                StoreError::InvalidSchedule
            } else if user_with_id(old(store)@.users, user_id) is None {
                StoreError::OwnerNotFound
            } else {
                StoreError::Storage
            },
        ),
        r is Ok <==> valid_schedule(new_cron_job.schedule@) && user_with_id(
            old(store)@.users,
            user_id,
        ) is Some && next_job_id(old(store)@.jobs) <= i32::MAX,
        r matches Ok(job) ==> {
            &&& job@.id == next_job_id(old(store)@.jobs)
            &&& job@.user_id == user_id
            &&& job@.message == new_cron_job.message@
            &&& job@.schedule == new_cron_job.schedule@
            &&& job@.last_run is None
            &&& final(store)@.jobs == old(store)@.jobs.push(job@)
        },
{
    let now: u64 = unix_time();
    store.create(user_id, new_cron_job.message, new_cron_job.schedule, now)
}

/// The jobs of the user `user_id`, newest first.
pub fn get_user_cron_jobs(store: &Store, user_id: i32) -> (list: Vec<CronJob>)
    ensures
        job_records(list@).to_multiset() == owner_jobs(store@.jobs, user_id).to_multiset(),
        newest_first(job_records(list@)),
{
    store.list_by_owner(user_id)
}

/// Arms `cron_job` in the engine.
///
/// `InvalidExpression` where its schedule is no cron expression: the job is
/// then not armed, and the engine is unchanged.
pub fn schedule_job(engine: &mut ScheduleEngine, cron_job: CronJob) -> (r: Result<(), ScheduleError>)
    ensures
        r is Ok <==> valid_schedule(cron_job@.schedule),
        r is Err ==> r == Err::<(), ScheduleError>(ScheduleError::InvalidExpression)
            && final(engine)@ == old(engine)@,
        r is Ok ==> state_of(final(engine)@, cron_job@.id) == next_state(
            state_of(old(engine)@, cron_job@.id),
            Event::Arm,
        ),
        forall|other: i32|
            other != cron_job@.id ==> state_of(final(engine)@, other) == state_of(
                old(engine)@,
                other,
            ),
{
    engine.arm(&cron_job)
}

} // verus!
