//! The records that the service keeps and the forms that it receives.
use vstd::prelude::*;

verus! {

/// A registered user. `password` holds the salted hash, never the plaintext.
#[derive(Debug, PartialEq, Eq)]
pub struct User {
    pub id: i32,
    pub username: String,
    pub email: String,
    pub password: String,
    pub created_at: u64,
}

/// What a [`User`] is in contracts.
pub struct UserRecord {
    pub id: i32,
    pub username: Seq<char>,
    pub email: Seq<char>,
    pub password: Seq<char>,
    pub created_at: u64,
}

impl View for User {
    type V = UserRecord;

    open spec fn view(&self) -> UserRecord {
        UserRecord {
            id: self.id,
            username: self.username@,
            email: self.email@,
            password: self.password@,
            created_at: self.created_at,
        }
    }
}

impl Clone for User {
    fn clone(&self) -> (r: Self)
        ensures
            r@ == self@,
    {
        User {
            id: self.id,
            username: self.username.clone(),
            email: self.email.clone(),
            password: self.password.clone(),
            created_at: self.created_at,
        }
    }
}

/// The sign-up form.
#[derive(Debug, PartialEq, Eq)]
pub struct NewUser {
    pub username: String,
    pub email: String,
    pub password: String,
}

/// The log-in form.
#[derive(Debug, PartialEq, Eq)]
pub struct LoginUser {
    pub username: String,
    pub password: String,
}

/// A stored reminder job. `last_run` is `None` until the job has run once.
#[derive(Debug, PartialEq, Eq)]
pub struct CronJob {
    pub id: i32,
    pub user_id: i32,
    pub message: String,
    pub schedule: String,
    pub last_run: Option<u64>,
    pub created_at: u64,
}

/// What a [`CronJob`] is in contracts.
pub struct JobRecord {
    pub id: i32,
    pub user_id: i32,
    pub message: Seq<char>,
    pub schedule: Seq<char>,
    pub last_run: Option<u64>,
    pub created_at: u64,
}

impl View for CronJob {
    type V = JobRecord;

    open spec fn view(&self) -> JobRecord {
        JobRecord {
            id: self.id,
            user_id: self.user_id,
            message: self.message@,
            schedule: self.schedule@,
            last_run: self.last_run,
            created_at: self.created_at,
        }
    }
}

impl Clone for CronJob {
    fn clone(&self) -> (r: Self)
        ensures
            r@ == self@,
    {
        CronJob {
            id: self.id,
            user_id: self.user_id,
            message: self.message.clone(),
            schedule: self.schedule.clone(),
            last_run: self.last_run,
            created_at: self.created_at,
        }
    }
}

/// The job form.
#[derive(Debug, PartialEq, Eq)]
pub struct NewCronJob {
    pub message: String,
    pub schedule: String,
}

} // verus!
