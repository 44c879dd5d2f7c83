use cron_reminders::cron::{create_cron_job, get_user_cron_jobs};
use cron_reminders::clock::unix_time;
use cron_reminders::errors::{AuthError, StoreError};
use cron_reminders::models::{CronJob, NewCronJob};
use cron_reminders::store::Store;

fn store_with_users(count: usize) -> Store {
    let mut store = Store::new();
    for i in 0..count {
        store
            .insert_user(format!("user{}", i + 1), format!("u{}@x.com", i + 1), "hash".to_string(), 0)
            .unwrap();
    }
    store
}

fn ids(jobs: &[CronJob]) -> Vec<i32> {
    jobs.iter().map(|job| job.id).collect()
}

#[test]
fn a_new_store_is_empty() {
    let store = Store::new();
    assert!(store.user_by_id(1).is_none());
    assert!(store.list_by_owner(1).is_empty());
    assert!(store.list_due(u64::MAX).is_empty());
}

#[test]
fn insert_user_gives_the_record_it_keeps() {
    let mut store = Store::new();
    let user = store
        .insert_user("alice".to_string(), "a@x.com".to_string(), "hash".to_string(), 99)
        .unwrap();
    assert_eq!(user.id, 1);
    assert_eq!(user.username, "alice");
    assert_eq!(user.email, "a@x.com");
    assert_eq!(user.password, "hash");
    assert_eq!(user.created_at, 99);
    assert_eq!(store.user_by_id(1), Some(user));
    assert!(store.has_email(&"a@x.com".to_string()));
    assert!(!store.has_email(&"b@x.com".to_string()));
}

#[test]
fn insert_user_refuses_what_is_taken() {
    let mut store = store_with_users(1);
    assert_eq!(
        store.insert_user("user1".to_string(), "new@x.com".to_string(), "h".to_string(), 0),
        Err(AuthError::Conflict)
    );
    assert_eq!(
        store.insert_user("new".to_string(), "u1@x.com".to_string(), "h".to_string(), 0),
        Err(AuthError::Conflict)
    );
    assert!(store.user_by_id(2).is_none());
}

#[test]
fn create_keeps_a_job_that_has_not_run() {
    let mut store = store_with_users(1);
    let job = store.create(1, "water the plants".to_string(), "* * * * *".to_string(), 500).unwrap();
    assert_eq!(
        job,
        CronJob {
            id: 1,
            user_id: 1,
            message: "water the plants".to_string(),
            schedule: "* * * * *".to_string(),
            last_run: None,
            created_at: 500,
        }
    );
    let listed = store.list_by_owner(1);
    assert_eq!(listed.len(), 1);
    assert_eq!(listed[0], job);
    assert_eq!(listed[0].last_run, None);
}

#[test]
fn create_refuses_what_is_no_cron_expression() {
    let mut store = store_with_users(1);
    let refused = store.create(1, "msg".to_string(), "not a cron expr".to_string(), 1);
    assert_eq!(refused, Err(StoreError::InvalidSchedule));
    assert!(store.list_by_owner(1).is_empty());
    assert!(store.list_due(u64::MAX).is_empty());
    assert_eq!(store.mark_run(1, 5), Err(StoreError::NotFound));
    let next = store.create(1, "msg".to_string(), "* * * * *".to_string(), 1).unwrap();
    assert_eq!(next.id, 1);
}

#[test]
fn create_refuses_an_unknown_owner() {
    let mut store = store_with_users(1);
    assert_eq!(
        store.create(2, "msg".to_string(), "* * * * *".to_string(), 1),
        Err(StoreError::OwnerNotFound)
    );
    assert_eq!(
        store.create(0, "msg".to_string(), "* * * * *".to_string(), 1),
        Err(StoreError::OwnerNotFound)
    );
    assert!(store.list_by_owner(2).is_empty());
    assert!(store.list_due(u64::MAX).is_empty());
}

#[test]
fn an_invalid_schedule_is_reported_before_an_unknown_owner() {
    let mut store = Store::new();
    assert_eq!(
        store.create(1, "msg".to_string(), "nope".to_string(), 1),
        Err(StoreError::InvalidSchedule)
    );
}

#[test]
fn jobs_are_listed_newest_first() {
    let mut store = store_with_users(2);
    let first = store.create(1, "first".to_string(), "*/5 * * * *".to_string(), 100).unwrap();
    let other = store.create(2, "other".to_string(), "* * * * *".to_string(), 150).unwrap();
    let second = store.create(1, "second".to_string(), "* * * * *".to_string(), 200).unwrap();
    assert_eq!(store.list_by_owner(1), vec![second.clone(), first.clone()]);
    assert_eq!(store.list_by_owner(2), vec![other]);
    assert!(store.list_by_owner(3).is_empty());
    let third = store.create(1, "third".to_string(), "* * * * *".to_string(), 150).unwrap();
    assert_eq!(store.list_by_owner(1), vec![second, third, first]);
}

#[test]
fn jobs_of_one_second_are_listed_by_id() {
    let mut store = store_with_users(1);
    for _ in 0..4 {
        store.create(1, "m".to_string(), "* * * * *".to_string(), 7).unwrap();
    }
    store.create(1, "old".to_string(), "* * * * *".to_string(), 3).unwrap();
    store.create(1, "new".to_string(), "* * * * *".to_string(), 9).unwrap();
    assert_eq!(ids(&store.list_by_owner(1)), vec![6, 4, 3, 2, 1, 5]);
}

#[test]
fn a_job_that_never_ran_is_due() {
    let mut store = store_with_users(1);
    let job = store.create(1, "m".to_string(), "0 0 1 1 *".to_string(), 1_000).unwrap();
    assert_eq!(store.list_due(0), vec![job.clone()]);
    assert_eq!(store.list_due(1_000), vec![job.clone()]);
    assert_eq!(store.list_due(u64::MAX), vec![job]);
}

#[test]
fn list_due_repeats_itself_until_a_run_is_marked() {
    let mut store = store_with_users(1);
    let job = store.create(1, "m".to_string(), "*/5 * * * *".to_string(), 10).unwrap();
    assert_eq!(store.list_due(20), vec![job.clone()]);
    assert_eq!(store.list_due(20), vec![job.clone()]);
    assert_eq!(store.list_due(21), vec![job]);
    assert_eq!(store.mark_run(1, 20), Ok(()));
    assert!(store.list_due(20).is_empty());
    assert!(store.list_due(21).is_empty());
    assert!(store.list_due(299).is_empty());
    let due = store.list_due(300);
    assert_eq!(ids(&due), vec![1]);
    assert_eq!(due[0].last_run, Some(20));
    assert_eq!(ids(&store.list_due(10_000)), vec![1]);
}

#[test]
fn every_job_waits_for_its_own_schedule() {
    let mut store = store_with_users(2);
    store.create(1, "minutely".to_string(), "* * * * *".to_string(), 0).unwrap();
    store.create(2, "hourly".to_string(), "0 * * * *".to_string(), 0).unwrap();
    store.create(1, "daily".to_string(), "0 0 * * *".to_string(), 0).unwrap();
    assert_eq!(ids(&store.list_due(0)), vec![1, 2, 3]);
    for id in 1..=3 {
        store.mark_run(id, 0).unwrap();
    }
    assert!(store.list_due(59).is_empty());
    assert_eq!(ids(&store.list_due(60)), vec![1]);
    assert_eq!(ids(&store.list_due(3_599)), vec![1]);
    assert_eq!(ids(&store.list_due(3_600)), vec![1, 2]);
    assert_eq!(ids(&store.list_due(86_400)), vec![1, 2, 3]);
    store.mark_run(1, 86_400).unwrap();
    assert_eq!(ids(&store.list_due(86_400)), vec![2, 3]);
}

#[test]
fn mark_run_stamps_one_job() {
    let mut store = store_with_users(1);
    store.create(1, "a".to_string(), "* * * * *".to_string(), 0).unwrap();
    store.create(1, "b".to_string(), "* * * * *".to_string(), 1).unwrap();
    assert_eq!(store.mark_run(2, 77), Ok(()));
    let listed = store.list_by_owner(1);
    assert_eq!(listed[0].id, 2);
    assert_eq!(listed[0].last_run, Some(77));
    assert_eq!(listed[0].message, "b");
    assert_eq!(listed[1].id, 1);
    assert_eq!(listed[1].last_run, None);
}

#[test]
fn mark_run_is_idempotent_and_never_moves_back() {
    let mut store = store_with_users(1);
    store.create(1, "a".to_string(), "* * * * *".to_string(), 0).unwrap();
    assert_eq!(store.mark_run(1, 100), Ok(()));
    let once = store.list_by_owner(1);
    assert_eq!(store.mark_run(1, 100), Ok(()));
    assert_eq!(store.list_by_owner(1), once);
    assert_eq!(store.mark_run(1, 40), Ok(()));
    assert_eq!(store.list_by_owner(1)[0].last_run, Some(100));
    assert_eq!(store.mark_run(1, 250), Ok(()));
    assert_eq!(store.list_by_owner(1)[0].last_run, Some(250));
    assert_eq!(store.mark_run(1, 0), Ok(()));
    assert_eq!(store.list_by_owner(1)[0].last_run, Some(250));
}

#[test]
fn mark_run_of_an_unknown_job_is_not_found() {
    let mut store = store_with_users(1);
    assert_eq!(store.mark_run(1, 5), Err(StoreError::NotFound));
    store.create(1, "a".to_string(), "* * * * *".to_string(), 0).unwrap();
    assert_eq!(store.mark_run(2, 5), Err(StoreError::NotFound));
    assert_eq!(store.mark_run(0, 5), Err(StoreError::NotFound));
    assert_eq!(store.list_by_owner(1)[0].last_run, None);
}

#[test]
fn is_due_reads_the_schedule() {
    let mut job = CronJob {
        id: 1,
        user_id: 1,
        message: "m".to_string(),
        schedule: "*/5 * * * *".to_string(),
        last_run: None,
        created_at: 0,
    };
    assert!(Store::is_due(&job, 0));
    job.last_run = Some(300);
    assert!(!Store::is_due(&job, 300));
    assert!(!Store::is_due(&job, 599));
    assert!(Store::is_due(&job, 600));
    job.schedule = "not a cron expr".to_string();
    assert!(!Store::is_due(&job, u64::MAX));
    job.last_run = None;
    assert!(Store::is_due(&job, 0));
}

#[test]
fn create_cron_job_stamps_the_time_of_creation() {
    let mut store = store_with_users(1);
    let before = unix_time();
    let form = NewCronJob { message: "m".to_string(), schedule: "*/5 * * * *".to_string() };
    let job = create_cron_job(&mut store, 1, form).unwrap();
    assert!(job.created_at >= before);
    assert!(job.created_at <= unix_time());
    assert_eq!(job.id, 1);
    assert_eq!(job.user_id, 1);
    assert_eq!(job.schedule, "*/5 * * * *");
    assert_eq!(job.last_run, None);
    assert_eq!(get_user_cron_jobs(&store, 1), vec![job]);
    let bad = NewCronJob { message: "m".to_string(), schedule: "not a cron expr".to_string() };
    assert_eq!(create_cron_job(&mut store, 1, bad), Err(StoreError::InvalidSchedule));
    let orphan = NewCronJob { message: "m".to_string(), schedule: "* * * * *".to_string() };
    assert_eq!(create_cron_job(&mut store, 9, orphan), Err(StoreError::OwnerNotFound));
    assert_eq!(get_user_cron_jobs(&store, 1).len(), 1);
}

#[test]
fn an_occurrence_is_reached_from_its_second_on() {
    assert!(!Store::has_reached(None, 0));
    assert!(!Store::has_reached(None, u64::MAX));
    assert!(!Store::has_reached(Some(300), 299));
    assert!(Store::has_reached(Some(300), 300));
    assert!(Store::has_reached(Some(300), 301));
    assert!(Store::has_reached(Some(0), 0));
}

#[test]
fn insert_job_takes_the_schedule_as_it_is() {
    let mut store = store_with_users(1);
    let job = store.insert_job(1, "m".to_string(), "whatever".to_string(), 8).unwrap();
    assert_eq!(job.id, 1);
    assert_eq!(job.schedule, "whatever");
    assert_eq!(job.last_run, None);
    assert_eq!(job.created_at, 8);
    assert_eq!(store.find_job(1), Some(job));
    assert_eq!(
        store.insert_job(2, "m".to_string(), "* * * * *".to_string(), 8),
        Err(StoreError::OwnerNotFound)
    );
    assert_eq!(store.all_jobs().len(), 1);
}
