//! The reply to each request.
//!
//! A request arrives as plain values: the session token from the cookie, if
//! there is one, and the form. The reply is a plain value too: a redirect, the
//! dashboard with its jobs, or a failure with a status and a message. Reading
//! requests and writing replies is the caller's work.
use vstd::prelude::*;
use vstd::string::*;
use crate::auth::{authentication, registered, Authenticator};
use crate::engine::{next_state, state_of, Event, ScheduleEngine};
use crate::errors::{AuthError, StoreError};
use crate::models::{CronJob, JobRecord, LoginUser, NewCronJob, NewUser};
use crate::schedule::valid_schedule;
use crate::store::{
    email_taken, job_records, newest_first, next_job_id, owner_jobs, user_named, user_with_id,
    Store,
};
use crate::token::{token_claims, verification, TOKEN_VALIDITY_SECS};

verus! {

/// The status of a reply to a request that is malformed or cannot be met.
pub const BAD_REQUEST: u16 = 400;

/// The status of a reply to a request without a valid session.
pub const UNAUTHORIZED: u16 = 401;

/// The status of a reply to a request on which the service itself failed.
pub const INTERNAL_SERVER_ERROR: u16 = 500;

/// The cookie that carries the session token.
#[derive(Debug, PartialEq, Eq)]
pub struct SessionCookie {
    pub name: String,
    pub value: String,
    pub path: String,
    pub http_only: bool,
    /// For how many seconds the cookie is to be kept; `None` for the session.
    pub max_age: Option<u64>,
}

/// What a [`SessionCookie`] is in contracts.
pub struct CookieRecord {
    pub name: Seq<char>,
    pub value: Seq<char>,
    pub path: Seq<char>,
    pub http_only: bool,
    pub max_age: Option<u64>,
}

impl View for SessionCookie {
    type V = CookieRecord;

    open spec fn view(&self) -> CookieRecord {
        CookieRecord {
            name: self.name@,
            value: self.value@,
            path: self.path@,
            http_only: self.http_only,
            max_age: self.max_age,
        }
    }
}

/// The reply to a request.
#[derive(Debug, PartialEq, Eq)]
pub enum Reply {
    /// Send the client to `location`, and set `cookie` where there is one.
    Redirect { location: String, cookie: Option<SessionCookie> },
    /// Show the dashboard with these jobs.
    Dashboard { cron_jobs: Vec<CronJob> },
    /// Turn the request down.
    Failure { status: u16, error: String },
}

/// What a [`Reply`] is in contracts.
pub enum ReplyRecord {
    Redirect { location: Seq<char>, cookie: Option<CookieRecord> },
    Dashboard { cron_jobs: Seq<JobRecord> },
    Failure { status: u16, error: Seq<char> },
}

impl View for Reply {
    type V = ReplyRecord;

    open spec fn view(&self) -> ReplyRecord {
        match self {
            Reply::Redirect { location, cookie } => ReplyRecord::Redirect {
                location: location@,
                cookie: match cookie {
                    Some(c) => Some(c@),
                    None => None,
                },
            },
            Reply::Dashboard { cron_jobs } => ReplyRecord::Dashboard {
                cron_jobs: job_records(cron_jobs@),
            },
            Reply::Failure { status, error } => ReplyRecord::Failure {
                status: *status,
                error: error@,
            },
        }
    }
}

/// The cookie that carries `token`: named `token`, for every path, kept from
/// scripts, for the session.
pub open spec fn session_cookie(token: Seq<char>) -> CookieRecord {
    CookieRecord { name: "token"@, value: token, path: "/"@, http_only: true, max_age: None }
}

/// The cookie that clears the session: empty, and to be dropped at once.
pub open spec fn cleared_cookie() -> CookieRecord {
    CookieRecord {
        name: "token"@,
        value: Seq::<char>::empty(),
        path: "/"@,
        http_only: true,
        max_age: Some(0u64),
    }
}

/// What the client is told of a failed sign-up or log-in. An unknown user
/// and a wrong password read the same.
pub open spec fn auth_error_text(error: AuthError) -> Seq<char> {
    match error {
        AuthError::InvalidCredentials => "Invalid credentials"@,
        AuthError::NotFound => "Invalid credentials"@,
        AuthError::Conflict => "Username or email already taken"@,
        AuthError::Invalid => "Unauthorized"@,
        AuthError::Expired => "Unauthorized"@,
        AuthError::Storage => "Failed to create user"@,
    }
}

/// What the client is told of a job that was not created.
pub open spec fn store_error_text(error: StoreError) -> Seq<char> {
    match error {
        StoreError::InvalidSchedule => "Invalid schedule"@,
        StoreError::OwnerNotFound => "Owner not found"@,
        StoreError::NotFound => "Job not found"@,
        StoreError::Storage => "Failed to create cron job"@,
    }
}

/// What the client is told of a failed sign-up or log-in.
pub fn describe_auth_error(error: AuthError) -> (text: String)
    ensures
        text@ == auth_error_text(error),
{
    match error {
        AuthError::InvalidCredentials => String::from_str("Invalid credentials"),
        AuthError::NotFound => String::from_str("Invalid credentials"),
        AuthError::Conflict => String::from_str("Username or email already taken"),
        AuthError::Invalid => String::from_str("Unauthorized"),
        AuthError::Expired => String::from_str("Unauthorized"),
        AuthError::Storage => String::from_str("Failed to create user"),
    }
}

/// What the client is told of a job that was not created.
pub fn describe_store_error(error: StoreError) -> (text: String)
    ensures
        text@ == store_error_text(error),
{
    match error {
        StoreError::InvalidSchedule => String::from_str("Invalid schedule"),
        StoreError::OwnerNotFound => String::from_str("Owner not found"),
        StoreError::NotFound => String::from_str("Job not found"),
        StoreError::Storage => String::from_str("Failed to create cron job"),
    }
}

/// The text of the token that a request carries.
pub open spec fn token_text(token: Option<&str>) -> Option<Seq<char>> {
    match token {
        Some(text) => Some(text@),
        None => None,
    }
}

/// The user of a request that carries `token` at the time `now`: the one
/// that the token stands for, and none where the token is missing, invalid
/// or expired.
pub open spec fn session(token: Option<Seq<char>>, secret: Seq<u8>, now: u64) -> Option<i32> {
    match token {
        None => None,
        Some(text) => match verification(token_claims(text, secret), now) {
            Ok(user_id) => Some(user_id),
            Err(_) => None,
        },
    }
}

/// The user of a request that carries `token` at the time `now`.
pub fn session_user(auth: &Authenticator, token: Option<&str>, now: u64) -> (user: Option<i32>)
    ensures
        user == session(token_text(token), auth.secret(), now),
{
    match token {
        None => None,
        Some(text) => match auth.authority().verify_at(text, now) {
            Ok(user_id) => Some(user_id),
            Err(_) => None,
        },
    }
}

/// A redirect to `location` that leaves the cookie alone.
pub open spec fn redirect_to(location: Seq<char>) -> ReplyRecord {
    ReplyRecord::Redirect { location, cookie: None }
}

/// The dashboard: the jobs of the session's user, newest first. Without a
/// session the client is sent to the log-in page.
pub fn dashboard(store: &Store, auth: &Authenticator, token: Option<&str>, now: u64) -> (reply: Reply)
    ensures
        match session(token_text(token), auth.secret(), now) {
            None => reply@ == redirect_to("/login"@),
            Some(user_id) => reply@ matches ReplyRecord::Dashboard { cron_jobs }
                && cron_jobs.to_multiset() == owner_jobs(store@.jobs, user_id).to_multiset()
                && newest_first(cron_jobs),
        },
{
    match session_user(auth, token, now) {
        Some(user_id) => Reply::Dashboard { cron_jobs: store.list_by_owner(user_id) },
        None => Reply::Redirect { location: String::from_str("/login"), cookie: None },
    }
}

/// The reply to a sign-up with the given outcome: on to the log-in page, or
/// a bad request that says why.
pub open spec fn signup_reply(error: Option<AuthError>) -> ReplyRecord {
    match error {
        None => redirect_to("/login"@),
        Some(e) => ReplyRecord::Failure {
            status: BAD_REQUEST,
            error: "Signup failed: "@ + auth_error_text(e),
        },
    }
}

/// Signs a user up at the time `now` and replies.
pub fn signup_route(store: &mut Store, auth: &Authenticator, form: NewUser, now: u64) -> (reply:
    Reply)
    ensures
        final(store)@.jobs == old(store)@.jobs,
        if user_named(old(store)@.users, form.username@) is Some || email_taken(
            old(store)@.users,
            form.email@,
        ) {
            reply@ == signup_reply(Some(AuthError::Conflict)) && final(store)@ == old(store)@
        } else {
            ||| reply@ == signup_reply(Some(AuthError::Storage)) && final(store)@ == old(store)@
            ||| reply@ == signup_reply(None) && registered(
                old(store)@.users,
                final(store)@.users,
                form.username@,
                form.email@,
                form.password@,
                now,
            )
        },
{
    match auth.register(store, form, now) {
        Ok(_) => Reply::Redirect { location: String::from_str("/login"), cookie: None },
        Err(e) => Reply::Failure {
            status: BAD_REQUEST,
            error: String::from_str("Signup failed: ").concat(describe_auth_error(e).as_str()),
        },
    }
}

/// The reply to a log-in with the given outcome: on to the dashboard with
/// the session cookie, or a bad request that says why.
pub open spec fn login_reply(outcome: Result<Seq<char>, AuthError>) -> ReplyRecord {
    match outcome {
        Ok(token) => ReplyRecord::Redirect {
            location: "/dashboard"@,
            cookie: Some(session_cookie(token)),
        },
        Err(e) => ReplyRecord::Failure { status: BAD_REQUEST, error: auth_error_text(e) },
    }
}

/// Logs a user in at the time `now` and replies.
pub fn login_route(store: &Store, auth: &Authenticator, form: LoginUser, now: u64) -> (reply: Reply)
    requires
        now + TOKEN_VALIDITY_SECS <= u64::MAX,
    ensures
        reply@ == login_reply(
            authentication(store@.users, form.username@, form.password@, now, auth.secret()),
        ),
{
    match auth.authenticate(store, form, now) {
        Ok(token) => Reply::Redirect {
            location: String::from_str("/dashboard"),
            cookie: Some(
                SessionCookie {
                    name: String::from_str("token"),
                    value: token,
                    path: String::from_str("/"),
                    http_only: true,
                    max_age: None,
                },
            ),
        },
        Err(e) => Reply::Failure { status: BAD_REQUEST, error: describe_auth_error(e) },
    }
}

/// A failure with the given status and message.
pub open spec fn failure(status: u16, error: Seq<char>) -> ReplyRecord {
    ReplyRecord::Failure { status, error }
}

/// Creates a job for the session's user at the time `now`, arms it, and
/// replies. The owner of the job is the user that the token stands for,
/// whoever the client says it is.
///
/// Without a session the request is unauthorized. A job that the store does
/// not take is a bad request. Else the client is sent to the dashboard.
pub fn create_cron_job_route(
    store: &mut Store,
    engine: &mut ScheduleEngine,
    auth: &Authenticator,
    token: Option<&str>,
    form: NewCronJob,
    now: u64,
) -> (reply: Reply)
    ensures
        final(store)@.users == old(store)@.users,
        match session(token_text(token), auth.secret(), now) {
            None => reply@ == failure(UNAUTHORIZED, "Unauthorized"@),
            Some(user_id) => if !valid_schedule(form.schedule@) {
                reply@ == failure(BAD_REQUEST, store_error_text(StoreError::InvalidSchedule))
            } else if user_with_id(old(store)@.users, user_id) is None {
                reply@ == failure(BAD_REQUEST, store_error_text(StoreError::OwnerNotFound))
            } else if next_job_id(old(store)@.jobs) > i32::MAX {
                reply@ == failure(BAD_REQUEST, store_error_text(StoreError::Storage))
            } else {
                &&& reply@ == redirect_to("/dashboard"@)
                &&& final(store)@.jobs == old(store)@.jobs.push(
                    JobRecord {
                        id: next_job_id(old(store)@.jobs) as i32,
                        user_id,
                        message: form.message@,
                        schedule: form.schedule@,
                        last_run: None,
                        created_at: now,
                    },
                )
                &&& state_of(final(engine)@, next_job_id(old(store)@.jobs) as i32) == next_state(
                    state_of(old(engine)@, next_job_id(old(store)@.jobs) as i32),
                    Event::Arm,
                )
                &&& forall|other: i32|
                    other != next_job_id(old(store)@.jobs) ==> state_of(final(engine)@, other)
                        == state_of(old(engine)@, other)
            },
        },
        !(reply@ matches ReplyRecord::Redirect { .. }) ==> final(store)@ == old(store)@
            && final(engine)@ == old(engine)@,
{
    let user_id: i32 = match session_user(auth, token, now) {
        Some(user_id) => user_id,
        None => {
            return Reply::Failure {
                status: UNAUTHORIZED,
                error: String::from_str("Unauthorized"),
            };
        },
    };
    match store.create(user_id, form.message, form.schedule, now) {
        Err(e) => Reply::Failure { status: BAD_REQUEST, error: describe_store_error(e) },
        Ok(job) => match engine.arm(&job) {
            Ok(_) => Reply::Redirect { location: String::from_str("/dashboard"), cookie: None },
            // The engine reads the schedule as the store did, so it arms
            // what the store took.
            Err(_) => Reply::Failure {
                status: INTERNAL_SERVER_ERROR,
                error: String::from_str("Failed to schedule job"),
            },
        },
    }
}

/// Ends the session: the client is sent to the log-in page and told to drop
/// the cookie.
pub fn logout() -> (reply: Reply)
    ensures
        reply@ == (ReplyRecord::Redirect { location: "/login"@, cookie: Some(cleared_cookie()) }),
{
    Reply::Redirect {
        location: String::from_str("/login"),
        cookie: Some(
            SessionCookie {
                name: String::from_str("token"),
                value: String::new(),
                path: String::from_str("/"),
                http_only: true,
                max_age: Some(0),
            },
        ),
    }
}

} // verus!
