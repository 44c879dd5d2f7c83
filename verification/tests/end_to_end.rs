use cron_reminders::auth::{login, signup, verify_token, Authenticator};
use cron_reminders::cron::{create_cron_job, get_user_cron_jobs, schedule_job};
use cron_reminders::engine::{execution_line, sweep, JobState, ScheduleEngine};
use cron_reminders::errors::{AuthError, StoreError};
use cron_reminders::models::{LoginUser, NewCronJob, NewUser};
use cron_reminders::store::Store;
use cron_reminders::token::TokenAuthority;

fn quick_auth() -> Authenticator {
    let authority = TokenAuthority::new(b"a signing secret".to_vec()).unwrap();
    Authenticator::new(authority, 4).unwrap()
}

#[test]
fn signup_login_create_and_list() {
    let auth = quick_auth();
    let mut store = Store::new();
    let alice = signup(
        &mut store,
        &auth,
        NewUser {
            username: "alice".to_string(),
            email: "a@x.com".to_string(),
            password: "pw1".to_string(),
        },
    )
    .unwrap();
    let token = login(
        &store,
        &auth,
        LoginUser { username: "alice".to_string(), password: "pw1".to_string() },
    )
    .unwrap();
    let owner = verify_token(&auth, &token).unwrap();
    assert_eq!(owner, alice.id);

    let first = create_cron_job(
        &mut store,
        owner,
        NewCronJob { message: "stretch".to_string(), schedule: "*/5 * * * *".to_string() },
    )
    .unwrap();
    assert_eq!(get_user_cron_jobs(&store, owner), vec![first.clone()]);

    let second = store.create(owner, "drink".to_string(), "* * * * *".to_string(), first.created_at + 1).unwrap();
    let listed = get_user_cron_jobs(&store, owner);
    assert_eq!(listed, vec![second, first]);
    assert!(listed.iter().all(|job| job.last_run.is_none()));
}

#[test]
fn one_job_after_a_first_create() {
    let auth = quick_auth();
    let mut store = Store::new();
    let owner = auth
        .register(
            &mut store,
            NewUser {
                username: "alice".to_string(),
                email: "a@x.com".to_string(),
                password: "pw1".to_string(),
            },
            0,
        )
        .unwrap()
        .id;
    store.create(owner, "msg".to_string(), "* * * * *".to_string(), 1).unwrap();
    let listed = store.list_by_owner(owner);
    assert_eq!(listed.len(), 1);
    assert_eq!(listed[0].last_run, None);
    assert_eq!(listed[0].message, "msg");
}

#[test]
fn a_malformed_schedule_persists_nothing() {
    let auth = quick_auth();
    let mut store = Store::new();
    let owner = auth
        .register(
            &mut store,
            NewUser {
                username: "alice".to_string(),
                email: "a@x.com".to_string(),
                password: "pw1".to_string(),
            },
            0,
        )
        .unwrap()
        .id;
    assert_eq!(
        store.create(owner, "msg".to_string(), "not a cron expr".to_string(), 1),
        Err(StoreError::InvalidSchedule)
    );
    assert!(store.list_by_owner(owner).is_empty());
}

#[test]
fn a_wrong_password_gives_no_token() {
    let auth = quick_auth();
    let mut store = Store::new();
    signup(
        &mut store,
        &auth,
        NewUser {
            username: "alice".to_string(),
            email: "a@x.com".to_string(),
            password: "pw1".to_string(),
        },
    )
    .unwrap();
    let refused = login(
        &store,
        &auth,
        LoginUser { username: "alice".to_string(), password: "pw2".to_string() },
    );
    assert_eq!(refused, Err(AuthError::InvalidCredentials));
}

#[test]
fn the_poller_and_the_timers_agree_on_one_job() {
    let auth = quick_auth();
    let mut store = Store::new();
    let mut engine = ScheduleEngine::new();
    let owner = auth
        .register(
            &mut store,
            NewUser {
                username: "alice".to_string(),
                email: "a@x.com".to_string(),
                password: "pw1".to_string(),
            },
            0,
        )
        .unwrap()
        .id;
    let job = store.create(owner, "stretch".to_string(), "*/5 * * * *".to_string(), 0).unwrap();
    schedule_job(&mut engine, job.clone()).unwrap();
    assert_eq!(engine.state(job.id), Some(JobState::Armed));

    let mut lines: Vec<String> = Vec::new();
    for now in [0u64, 100, 200, 300, 400, 600] {
        for due in sweep(&mut store, now) {
            if engine.tick(due.id) {
                lines.push(execution_line(&due));
                assert_eq!(engine.complete(due.id, false), None);
            }
        }
    }
    assert_eq!(lines, vec!["Executing cron job: stretch".to_string(); 3]);
    assert_eq!(store.list_by_owner(owner)[0].last_run, Some(600));
    assert_eq!(engine.state(job.id), Some(JobState::Armed));
}
