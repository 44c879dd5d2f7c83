//! Reminder jobs on cron schedules, behind session tokens.
//!
//! The crate holds the two authorities of a reminder service and the rules
//! that tie them together:
//!
//! * [`models`] and [`errors`] are the records and the typed failures;
//! * [`token`] issues and verifies signed session tokens;
//! * [`password`] hashes passwords and holds them against hashes;
//! * [`auth`] registers users and exchanges credentials for tokens;
//! * [`schedule`] reads cron expressions and finds their next occurrence;
//! * [`store`] keeps users and jobs, selects the jobs that are due and stamps
//!   the ones that ran;
//! * [`cron`] creates, lists and arms jobs;
//! * [`engine`] tracks the state of every timer and runs the sweep;
//! * [`routes`] decides the reply to each request;
//! * [`clock`] reads the time;
//! * [`laws`] states what holds across these.
//!
//! Every operation that depends on the time comes in two forms: one takes the
//! time as an argument and says exactly what it returns, the other reads the
//! clock and hands over.
//!
//! A job is due when it never ran, or when an occurrence of its schedule lies
//! after its last run and not after the time of the selection. Of the two
//! ways to drive the jobs, timers that fire on every occurrence and a poller
//! that sweeps the store, the engine serves both; a deployment runs one.
//!
//! Every timestamp is a whole number of seconds since the Unix epoch.
pub mod models;
pub mod errors;
pub mod clock;
pub mod token;
pub mod password;
pub mod schedule;
pub mod store;
pub mod auth;
pub mod engine;
pub mod cron;
pub mod routes;
pub mod laws;
