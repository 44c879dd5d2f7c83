use cron_reminders::models::{CronJob, User};
use cron_reminders::store::Store;

fn user(id: i32, username: &str, email: &str) -> User {
    User {
        id,
        username: username.to_string(),
        email: email.to_string(),
        password: "hash".to_string(),
        created_at: 10,
    }
}

fn job(id: i32, user_id: i32, last_run: Option<u64>) -> CronJob {
    CronJob {
        id,
        user_id,
        message: format!("job {}", id),
        schedule: "* * * * *".to_string(),
        last_run,
        created_at: 20,
    }
}

#[test]
fn consistent_records_make_a_store() {
    let users = vec![user(2, "alice", "a@x.com"), user(5, "bob", "b@x.com")];
    let jobs = vec![job(1, 5, None), job(3, 2, Some(77)), job(4, 5, Some(9))];
    let store = Store::from_records(users.clone(), jobs.clone()).unwrap();
    assert_eq!(store.user_by_id(2), Some(users[0].clone()));
    assert_eq!(store.user_by_id(5), Some(users[1].clone()));
    assert_eq!(store.user_by_id(1), None);
    assert_eq!(store.all_jobs(), jobs);
    assert_eq!(store.find_job(3), Some(jobs[1].clone()));
    assert_eq!(store.find_job(2), None);
    assert_eq!(store.last_user(), Some(users[1].clone()));
    assert_eq!(store.last_job(), Some(jobs[2].clone()));
}

#[test]
fn no_records_make_an_empty_store() {
    let store = Store::from_records(Vec::new(), Vec::new()).unwrap();
    assert_eq!(store.last_user(), None);
    assert_eq!(store.last_job(), None);
    assert!(store.all_jobs().is_empty());
    assert_eq!(Store::new().last_user(), None);
    assert_eq!(Store::new().last_job(), None);
}

#[test]
fn ids_go_on_after_the_last_record() {
    let users = vec![user(2, "alice", "a@x.com"), user(5, "bob", "b@x.com")];
    let jobs = vec![job(7, 5, None)];
    let mut store = Store::from_records(users, jobs).unwrap();
    let carol = store
        .insert_user("carol".to_string(), "c@x.com".to_string(), "h".to_string(), 1)
        .unwrap();
    assert_eq!(carol.id, 6);
    let next = store.create(6, "m".to_string(), "* * * * *".to_string(), 1).unwrap();
    assert_eq!(next.id, 8);
    assert_eq!(store.last_user(), Some(carol));
    assert_eq!(store.last_job(), Some(next));
}

#[test]
fn user_ids_that_do_not_ascend_are_refused() {
    assert!(Store::from_records(vec![user(2, "a", "a@x"), user(2, "b", "b@x")], vec![]).is_none());
    assert!(Store::from_records(vec![user(3, "a", "a@x"), user(2, "b", "b@x")], vec![]).is_none());
    assert!(Store::from_records(vec![user(0, "a", "a@x")], vec![]).is_none());
    assert!(Store::from_records(vec![user(-1, "a", "a@x"), user(1, "b", "b@x")], vec![]).is_none());
    assert!(Store::from_records(vec![user(1, "a", "a@x"), user(2, "b", "b@x")], vec![]).is_some());
}

#[test]
fn shared_names_and_emails_are_refused() {
    assert!(Store::from_records(vec![user(1, "a", "a@x"), user(2, "a", "b@x")], vec![]).is_none());
    assert!(Store::from_records(vec![user(1, "a", "a@x"), user(2, "b", "a@x")], vec![]).is_none());
    let three = vec![user(1, "a", "a@x"), user(2, "b", "b@x"), user(3, "a", "c@x")];
    assert!(Store::from_records(three, vec![]).is_none());
}

#[test]
fn job_ids_that_do_not_ascend_are_refused() {
    let users = || vec![user(1, "a", "a@x")];
    assert!(Store::from_records(users(), vec![job(1, 1, None), job(1, 1, None)]).is_none());
    assert!(Store::from_records(users(), vec![job(2, 1, None), job(1, 1, None)]).is_none());
    assert!(Store::from_records(users(), vec![job(0, 1, None)]).is_none());
    assert!(Store::from_records(users(), vec![job(1, 1, None), job(2, 1, None)]).is_some());
}

#[test]
fn a_job_without_its_owner_is_refused() {
    let users = || vec![user(1, "a", "a@x"), user(3, "b", "b@x")];
    assert!(Store::from_records(users(), vec![job(1, 2, None)]).is_none());
    assert!(Store::from_records(users(), vec![job(1, 1, None), job(2, 4, None)]).is_none());
    assert!(Store::from_records(Vec::new(), vec![job(1, 1, None)]).is_none());
    assert!(Store::from_records(users(), vec![job(1, 3, None), job(2, 1, None)]).is_some());
}

#[test]
fn stale_jobs_are_those_that_ran_before() {
    let users = vec![user(1, "a", "a@x")];
    let jobs = vec![job(1, 1, None), job(2, 1, Some(100)), job(3, 1, Some(200))];
    let store = Store::from_records(users, jobs.clone()).unwrap();
    assert_eq!(store.list_stale(0), vec![jobs[0].clone()]);
    assert_eq!(store.list_stale(100), vec![jobs[0].clone()]);
    assert_eq!(store.list_stale(101), vec![jobs[0].clone(), jobs[1].clone()]);
    assert_eq!(store.list_stale(200), vec![jobs[0].clone(), jobs[1].clone()]);
    assert_eq!(store.list_stale(201), jobs);
}

#[test]
fn the_due_jobs_are_among_the_stale_jobs() {
    let users = vec![user(1, "a", "a@x")];
    let jobs = vec![job(1, 1, None), job(2, 1, Some(100)), job(3, 1, Some(200))];
    let store = Store::from_records(users, jobs).unwrap();
    for as_of in [0u64, 100, 119, 120, 200, 239, 240, 10_000] {
        let stale: Vec<i32> = store.list_stale(as_of).iter().map(|j| j.id).collect();
        for due in store.list_due(as_of) {
            assert!(stale.contains(&due.id));
        }
    }
    let ids = |list: Vec<CronJob>| list.iter().map(|j| j.id).collect::<Vec<i32>>();
    assert_eq!(ids(store.list_due(119)), vec![1]);
    assert_eq!(ids(store.list_due(120)), vec![1, 2]);
    assert_eq!(ids(store.list_due(239)), vec![1, 2]);
    assert_eq!(ids(store.list_due(240)), vec![1, 2, 3]);
}
