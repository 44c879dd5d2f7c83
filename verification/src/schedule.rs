//! Cron expressions.
//!
//! An expression is a line of fields that blanks separate. The scheduler of
//! the `tokio_cron_scheduler` crate reads expressions that start with a
//! seconds field. The service also takes the classic form of five fields,
//! `minute hour day-of-month month day-of-week`: such an expression fires at
//! second 0 of every minute it names, and is handed to the scheduler with
//! that seconds field put in front.
use vstd::prelude::*;
use vstd::std_specs::iter::IteratorSpec;
use vstd::string::*;

verus! {

/// What `tokio_cron_scheduler::Job::new_async` answers for the expression
/// `expr`: whether it makes a job of it.
pub uninterp spec fn scheduler_accepts(expr: Seq<char>) -> bool;

/// The first time after `after` at which the scheduler's recurrence rule for
/// `expr` fires, in UTC; `None` where the scheduler refuses `expr` or finds no
/// such time.
pub uninterp spec fn scheduler_next_tick(expr: Seq<char>, after: i64) -> Option<i64>;

/// The error type of the `tokio_cron_scheduler` crate.
#[verifier::external_type_specification]
#[verifier::external_body]
pub struct ExJobSchedulerError(tokio_cron_scheduler::JobSchedulerError);

/// Asks `tokio_cron_scheduler::Job::new_async` for a job on `expr` whose
/// action does nothing, and drops the job.
///
/// Trusted: whether the call succeeds is a function of the expression, named
/// [`scheduler_accepts`].
#[verifier::external_body]
fn scheduler_parse(expr: &str) -> (r: Result<(), tokio_cron_scheduler::JobSchedulerError>)
    ensures
        r is Ok <==> scheduler_accepts(expr@),
{
    tokio_cron_scheduler::Job::new_async(expr, |_, _| Box::pin(std::future::ready(()))).map(|_| ())
}

/// Asks the recurrence rule that `tokio_cron_scheduler::Job::new_async` reads
/// from `expr` for its next occurrence after the time `after`, with
/// `find_next_occurrence` on the job's schedule.
///
/// Trusted: the answer is a function of the expression and the time, named
/// [`scheduler_next_tick`], and a time that comes back is later than `after`:
/// the search starts at the following second.
#[verifier::external_body]
fn scheduler_next(expr: &str, after: i64) -> (r: Option<i64>)
    ensures
        r == scheduler_next_tick(expr@, after),
        r matches Some(tick) ==> tick > after,
{
    let mut job =
        tokio_cron_scheduler::Job::new_async(expr, |_, _| Box::pin(std::future::ready(()))).ok()?;
    let rule = job.job_data().ok()?.schedule()?;
    let start = chrono::DateTime::from_timestamp(after, 0)?;
    rule.find_next_occurrence(&start, false).ok().map(|tick| tick.timestamp())
}

/// Whether `c` separates fields.
pub open spec fn is_blank(c: char) -> bool {
    c == ' ' || c == '\t' || c == '\n' || c == '\r'
}

/// Whether a field starts at position `i` of `expr`.
pub open spec fn field_starts(expr: Seq<char>, i: int) -> bool {
    &&& 0 <= i < expr.len()
    &&& !is_blank(expr[i])
    &&& (i == 0 || is_blank(expr[i - 1]))
}

/// The number of fields of `expr`.
pub open spec fn field_count(expr: Seq<char>) -> nat
    decreases expr.len(),
{
    if expr.len() == 0 {
        0
    } else if field_starts(expr, expr.len() - 1) {
        field_count(expr.drop_last()) + 1
    } else {
        field_count(expr.drop_last())
    }
}

/// The number of fields of the classic form.
pub const CLASSIC_FIELDS: usize = 5;

/// The seconds field that the classic form stands for, with its blank.
pub open spec fn seconds_prefix() -> Seq<char> {
    seq!['0', ' ']
}

/// `expr` as the scheduler takes it: the classic form gets its seconds field.
pub open spec fn scheduler_form(expr: Seq<char>) -> Seq<char> {
    if field_count(expr) == CLASSIC_FIELDS {
        seconds_prefix() + expr
    } else {
        expr
    }
}

/// Whether `expr` is a cron expression.
pub open spec fn valid_schedule(expr: Seq<char>) -> bool {
    scheduler_accepts(scheduler_form(expr))
}

/// The tick `tick` as an occurrence after the time `after`: a tick that is
/// not later than `after` is none.
pub open spec fn later_tick(tick: Option<i64>, after: u64) -> Option<u64> {
    match tick {
        Some(at) => if at > after {
            Some(at as u64)
        } else {
            None
        },
        None => None,
    }
}

/// The first occurrence of `expr` after the time `after`.
pub open spec fn next_occurrence(expr: Seq<char>, after: u64) -> Option<u64> {
    if after > i64::MAX {
        None
    } else {
        later_tick(scheduler_next_tick(scheduler_form(expr), after as i64), after)
    }
}

/// Counts the fields of `expr`, in one pass over its characters.
pub fn count_fields(expr: &str) -> (count: usize)
    ensures
        count == field_count(expr@),
{
    broadcast use vstd::string::group_string_axioms;

    let len: usize = expr.unicode_len();
    let mut chars = expr.chars();
    let mut count: usize = 0;
    let mut after_blank: bool = true;
    let ghost mut i: int = 0;
    loop
        invariant
            len == expr@.len(),
            0 <= i <= len,
            chars.remaining() == expr@.skip(i),
            count == field_count(expr@.take(i)),
            count <= i,
            after_blank == (i == 0 || is_blank(expr@[i - 1])),
        ensures
            count == field_count(expr@),
        decreases len - i,
    {
        match chars.next() {
            None => {
                assert(expr@.skip(i).len() == 0);
                assert(expr@.take(i) =~= expr@);
                break ;
            },
            Some(c) => {
                let blank: bool = c == ' ' || c == '\t' || c == '\n' || c == '\r';
                proof {
                    assert(expr@.skip(i)[0] == expr@[i]);
                    let head = expr@.take(i + 1);
                    assert(head.drop_last() =~= expr@.take(i));
                    assert(head[i] == c);
                    if i > 0 {
                        assert(head[i - 1] == expr@[i - 1]);
                    }
                    assert(expr@.skip(i).drop_first() =~= expr@.skip(i + 1));
                    i = i + 1;
                }
                if !blank && after_blank {
                    count = count + 1;
                }
                after_blank = blank;
            },
        }
    }
    count
}

/// `expr` as the scheduler takes it.
pub fn to_scheduler_form(expr: &str) -> (form: String)
    ensures
        form@ == scheduler_form(expr@),
{
    if count_fields(expr) == CLASSIC_FIELDS {
        proof {
            reveal_strlit("0 ");
            assert("0 "@ =~= seconds_prefix());
        }
        String::from_str("0 ").concat(expr)
    } else {
        String::from_str(expr)
    }
}

/// Whether `expr` is a cron expression.
pub fn is_valid_schedule(expr: &str) -> (valid: bool)
    ensures
        valid == valid_schedule(expr@),
{
    let form = to_scheduler_form(expr);
    match scheduler_parse(form.as_str()) {
        Ok(_) => true,
        Err(_) => false,
    }
}

/// The tick `tick` as an occurrence after the time `after`.
pub fn tick_after(tick: Option<i64>, after: u64) -> (next: Option<u64>)
    ensures
        next == later_tick(tick, after),
        next matches Some(at) ==> at > after,
{
    match tick {
        Some(at) => {
            if at >= 0 && at as u64 > after {
                Some(at as u64)
            } else {
                None
            }
        },
        None => None,
    }
}

/// The first occurrence of `expr` after the time `after`.
pub fn next_run(expr: &str, after: u64) -> (next: Option<u64>)
    ensures
        next == next_occurrence(expr@, after),
        next matches Some(tick) ==> tick > after,
{
    if after > 0x7fff_ffff_ffff_ffff {
        return None;
    }
    let form = to_scheduler_form(expr);
    tick_after(scheduler_next(form.as_str(), after as i64), after)
}

} // verus!
