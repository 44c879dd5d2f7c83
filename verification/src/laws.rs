//! What holds across the functions of the crate.
use vstd::prelude::*;
use vstd::seq_lib::*;
use crate::auth::{authentication, registered};
use crate::errors::AuthError;
use crate::models::{JobRecord, UserRecord};
use crate::password::password_matches;
use crate::schedule::next_occurrence;
use crate::store::{
    due_jobs, job_due, job_stale, marked, newer, newest_first, owner_jobs, stale_jobs, stamped,
    user_named,
};
use crate::engine::swept;
use crate::token::{
    issued, signature_start, signature_tampered, signed_token, token_claims, verification,
    TOKEN_VALIDITY_SECS,
};

verus! {

/// A token verifies as the user it was issued for at every time before its
/// expiry.
pub proof fn law_issued_token_verifies(
    token: Seq<char>,
    secret: Seq<u8>,
    user_id: i32,
    issued_at: u64,
    now: u64,
)
    requires
        issued(token, secret, user_id, issued_at),
        issued_at + TOKEN_VALIDITY_SECS <= u64::MAX,
        now < issued_at + TOKEN_VALIDITY_SECS,
    ensures
        verification(token_claims(token, secret), now) == Ok::<i32, AuthError>(user_id),
{
}

/// A token that carries a user id is refused as expired at its expiry and
/// at every time after it.
pub proof fn law_expired_token_is_refused(token: Seq<char>, secret: Seq<u8>, now: u64)
    requires
        token_claims(token, secret) matches Some((sub, exp)) && i32::MIN <= sub <= i32::MAX && exp
            <= now,
    ensures
        verification(token_claims(token, secret), now) == Err::<i32, AuthError>(AuthError::Expired),
{
}

/// An issued token verifies until its expiry and never after: the window is
/// exactly [`TOKEN_VALIDITY_SECS`] long.
pub proof fn law_token_window(
    token: Seq<char>,
    secret: Seq<u8>,
    user_id: i32,
    issued_at: u64,
    now: u64,
)
    requires
        issued(token, secret, user_id, issued_at),
        issued_at + TOKEN_VALIDITY_SECS <= u64::MAX,
    ensures
        verification(token_claims(token, secret), now) == (if now < issued_at
            + TOKEN_VALIDITY_SECS {
            Ok::<i32, AuthError>(user_id)
        } else {
            Err::<i32, AuthError>(AuthError::Expired)
        }),
{
}

/// A token whose signature was tampered with is refused as invalid, at every
/// time.
pub proof fn law_tampered_token_is_invalid(
    token: Seq<char>,
    forged: Seq<char>,
    secret: Seq<u8>,
    user_id: i32,
    issued_at: u64,
    now: u64,
)
    requires
        issued(token, secret, user_id, issued_at),
        signature_tampered(token, forged),
    ensures
        verification(token_claims(forged, secret), now) == Err::<i32, AuthError>(AuthError::Invalid),
{
}

/// A token in which one character of the signature was replaced by another
/// is refused as invalid, at every time.
pub proof fn law_flipped_signature_is_invalid(
    token: Seq<char>,
    at: int,
    flipped: char,
    secret: Seq<u8>,
    user_id: i32,
    issued_at: u64,
    now: u64,
)
    requires
        issued(token, secret, user_id, issued_at),
        signature_start(token) <= at < token.len(),
        flipped != token[at],
    ensures
        verification(token_claims(token.update(at, flipped), secret), now) == Err::<i32, AuthError>(
            AuthError::Invalid,
        ),
{
    let forged = token.update(at, flipped);
    lemma_signature_start_bounds(token);
    assert(forged[at] != token[at]);
    assert(forged.subrange(0, signature_start(token)) =~= token.subrange(
        0,
        signature_start(token),
    ));
}

/// The signature starts inside the token or at its end.
pub proof fn lemma_signature_start_bounds(token: Seq<char>)
    ensures
        0 <= signature_start(token) <= token.len(),
    decreases token.len(),
{
    if token.len() > 0 && token.last() != '.' {
        lemma_signature_start_bounds(token.drop_last());
    }
}

/// A user who registered logs in with the same name and password, at any
/// time, whoever registered before.
pub proof fn law_registered_user_logs_in(
    before: Seq<UserRecord>,
    after: Seq<UserRecord>,
    name: Seq<char>,
    email: Seq<char>,
    password: Seq<char>,
    registered_at: u64,
    now: u64,
    secret: Seq<u8>,
)
    requires
        registered(before, after, name, email, password, registered_at),
    ensures
        authentication(after, name, password, now, secret) == Ok::<Seq<char>, AuthError>(
            signed_token(after.last().id, (now + TOKEN_VALIDITY_SECS) as u64, secret),
        ),
{
}

/// The token that a log-in yields verifies as the user who logged in, until
/// it expires.
pub proof fn law_login_token_verifies(
    users: Seq<UserRecord>,
    name: Seq<char>,
    password: Seq<char>,
    token: Seq<char>,
    secret: Seq<u8>,
    issued_at: u64,
    now: u64,
)
    requires
        authentication(users, name, password, issued_at, secret) == Ok::<Seq<char>, AuthError>(
            token,
        ),
        issued(token, secret, user_named(users, name).unwrap().id, issued_at),
        issued_at + TOKEN_VALIDITY_SECS <= u64::MAX,
        now < issued_at + TOKEN_VALIDITY_SECS,
    ensures
        user_named(users, name) is Some,
        verification(token_claims(token, secret), now) == Ok::<i32, AuthError>(
            user_named(users, name).unwrap().id,
        ),
{
}

/// A log-in with a password that does not match the stored hash of a known
/// user fails with `InvalidCredentials`, at every time.
pub proof fn law_wrong_password_is_refused(
    users: Seq<UserRecord>,
    name: Seq<char>,
    password: Seq<char>,
    now: u64,
    secret: Seq<u8>,
)
    requires
        user_named(users, name) matches Some(user) && !password_matches(password, user.password),
    ensures
        authentication(users, name, password, now, secret) == Err::<Seq<char>, AuthError>(
            AuthError::InvalidCredentials,
        ),
{
}

/// A job that came in last is the last of its owner's jobs, and changes the
/// jobs of no other owner.
pub proof fn law_created_job_is_listed(jobs: Seq<JobRecord>, job: JobRecord, owner: i32)
    ensures
        owner_jobs(jobs.push(job), owner) == (if job.user_id == owner {
            owner_jobs(jobs, owner).push(job)
        } else {
            owner_jobs(jobs, owner)
        }),
{
    jobs.lemma_filter_push(job, |j: JobRecord| j.user_id == owner);
}

/// A job that is due stays due as time goes on, until it is marked.
pub proof fn law_due_job_stays_due(job: JobRecord, as_of: u64, later: u64)
    requires
        job_due(job, as_of),
        as_of <= later,
    ensures
        job_due(job, later),
{
}

/// Two sweeps of one store select the same jobs where no job was marked in
/// between: what is due depends on the jobs and the time alone, and every
/// job that was selected first is selected again later.
pub proof fn law_due_selection_repeats(jobs: Seq<JobRecord>, as_of: u64, later: u64, k: int)
    requires
        as_of <= later,
        0 <= k < due_jobs(jobs, as_of).len(),
    ensures
        due_jobs(jobs, later).contains(due_jobs(jobs, as_of)[k]),
{
    let first = |j: JobRecord| job_due(j, as_of);
    let second = |j: JobRecord| job_due(j, later);
    let job = jobs.filter(first)[k];
    #[allow(deprecated)]
    jobs.filter_lemma(first);
    #[allow(deprecated)]
    jobs.filter_lemma(second);
    assert(jobs.filter(first).contains(job));
    jobs.lemma_filter_contains_rev(first, job);
    let n = choose|n: int| 0 <= n < jobs.len() && jobs[n] == job;
    assert(second(jobs[n]));
}

/// A job that ran at `ran_at` is not due again before the next occurrence of
/// its schedule, and is due from that occurrence on.
pub proof fn law_marked_job_waits(job: JobRecord, ran_at: u64, as_of: u64)
    requires
        job.last_run matches Some(ran) ==> ran <= ran_at,
    ensures
        job_due(stamped(job, ran_at), as_of) <==> (next_occurrence(job.schedule, ran_at) matches Some(
            tick,
        ) && tick <= as_of),
        as_of <= ran_at ==> !job_due(stamped(job, ran_at), as_of),
{
}

/// After the job `id` ran at `ran_at`, a selection at `as_of` holds no job
/// of that id unless an occurrence of its schedule lies after its last run
/// and not after `as_of`.
pub proof fn law_marked_job_is_excluded(
    jobs: Seq<JobRecord>,
    id: i32,
    ran_at: u64,
    as_of: u64,
    k: int,
)
    requires
        0 <= k < due_jobs(marked(jobs, id, ran_at), as_of).len(),
        due_jobs(marked(jobs, id, ran_at), as_of)[k].id == id,
    ensures
        ({
            let job = due_jobs(marked(jobs, id, ran_at), as_of)[k];
            &&& job.last_run matches Some(ran)
            &&& ran >= ran_at
            &&& next_occurrence(job.schedule, ran) matches Some(tick)
            &&& ran < tick <= as_of
        }),
{
    let after = marked(jobs, id, ran_at);
    let pred = |j: JobRecord| job_due(j, as_of);
    let job = after.filter(pred)[k];
    #[allow(deprecated)]
    after.filter_lemma(pred);
    assert(after.filter(pred).contains(job));
    after.lemma_filter_contains_rev(pred, job);
    let n = choose|n: int| 0 <= n < after.len() && after[n] == job;
    assert(after[n] == stamped(jobs[n], ran_at));
}

/// A sweep leaves nothing due: a second sweep at the same time, or a second
/// claimant of the same jobs, finds every job stamped and runs none.
pub proof fn law_sweep_leaves_nothing_due(jobs: Seq<JobRecord>, now: u64)
    ensures
        due_jobs(swept(jobs, now), now).len() == 0,
{
    let after = swept(jobs, now);
    let pred = |job: JobRecord| job_due(job, now);
    assert forall|k: int| 0 <= k < after.len() implies !pred(#[trigger] after[k]) by {
        if job_due(jobs[k], now) {
            assert(after[k] == stamped(jobs[k], now));
        } else {
            assert(after[k] == jobs[k]);
        }
    }
    if after.filter(pred).len() > 0 {
        #[allow(deprecated)]
        after.filter_lemma(pred);
        let job = after.filter(pred)[0];
        assert(after.filter(pred).contains(job));
        after.lemma_filter_contains_rev(pred, job);
        let n = choose|n: int| 0 <= n < after.len() && after[n] == job;
        assert(pred(after[n]));
    }
}

/// Every job that a selection by schedule holds is held by the selection of
/// the stale jobs at the same time.
pub proof fn law_due_jobs_are_among_stale(jobs: Seq<JobRecord>, as_of: u64, k: int)
    requires
        0 <= k < due_jobs(jobs, as_of).len(),
    ensures
        stale_jobs(jobs, as_of).contains(due_jobs(jobs, as_of)[k]),
{
    let due = |j: JobRecord| job_due(j, as_of);
    let stale = |j: JobRecord| job_stale(j, as_of);
    let job = jobs.filter(due)[k];
    #[allow(deprecated)]
    jobs.filter_lemma(due);
    #[allow(deprecated)]
    jobs.filter_lemma(stale);
    assert(jobs.filter(due).contains(job));
    jobs.lemma_filter_contains_rev(due, job);
    let n = choose|n: int| 0 <= n < jobs.len() && jobs[n] == job;
    assert(stale(jobs[n]));
}

/// Marking a run twice is marking it once, and a stamp never moves back.
pub proof fn law_mark_run_is_idempotent(jobs: Seq<JobRecord>, id: i32, ran_at: u64, again: u64)
    ensures
        marked(marked(jobs, id, ran_at), id, ran_at) == marked(jobs, id, ran_at),
        again >= ran_at ==> marked(marked(jobs, id, ran_at), id, again) == marked(jobs, id, again),
        forall|k: int|
            0 <= k < jobs.len() ==> match (#[trigger] jobs[k]).last_run {
                Some(ran) => marked(jobs, id, ran_at)[k].last_run matches Some(stamp) && stamp
                    >= ran,
                None => true,
            },
{
    assert(marked(marked(jobs, id, ran_at), id, ran_at) =~= marked(jobs, id, ran_at));
    if again >= ran_at {
        assert(marked(marked(jobs, id, ran_at), id, again) =~= marked(jobs, id, again));
    }
}

/// Every job that is due is stale: it never ran, or it ran before the time
/// of the selection.
pub proof fn law_due_job_is_stale(job: JobRecord, as_of: u64)
    requires
        job_due(job, as_of),
    ensures
        job_stale(job, as_of),
{
}

/// Of two different jobs exactly one is newer than the other, where they
/// differ in their id.
pub proof fn law_newer_is_total(a: JobRecord, b: JobRecord)
    requires
        a.id != b.id,
    ensures
        newer(a, b) != newer(b, a),
{
}

/// There is one way to list given jobs newest first: two lists of the same
/// jobs that both run from the newest to the oldest are the same list.
pub proof fn law_newest_first_is_unique(a: Seq<JobRecord>, b: Seq<JobRecord>)
    requires
        a.to_multiset() == b.to_multiset(),
        newest_first(a),
        newest_first(b),
    ensures
        a == b,
    decreases a.len(),
{
    broadcast use vstd::multiset::group_multiset_axioms;
    broadcast use group_to_multiset_ensures;

    assert(a.len() == b.len()) by {
        to_multiset_len(a);
        to_multiset_len(b);
    }
    if a.len() == 0 {
        assert(a =~= b);
    } else {
        assert(b.to_multiset().contains(a[0]));
        assert(a.to_multiset().contains(b[0]));
        let i = choose|i: int| 0 <= i < b.len() && b[i] == a[0];
        let j = choose|j: int| 0 <= j < a.len() && a[j] == b[0];
        if i > 0 {
            assert(newer(b[0], b[i]));
            if j > 0 {
                assert(newer(a[0], a[j]));
            }
            assert(false);
        }
        assert(a[0] == b[0]);
        assert(a.drop_first().to_multiset() =~= a.to_multiset().remove(a[0])) by {
            to_multiset_remove(a, 0);
            assert(a.remove(0) =~= a.drop_first());
        }
        assert(b.drop_first().to_multiset() =~= b.to_multiset().remove(b[0])) by {
            to_multiset_remove(b, 0);
            assert(b.remove(0) =~= b.drop_first());
        }
        assert forall|x: int, y: int| 0 <= x < y < a.drop_first().len() implies newer(
            #[trigger] a.drop_first()[x],
            #[trigger] a.drop_first()[y],
        ) by {
            assert(newer(a[x + 1], a[y + 1]));
        }
        assert forall|x: int, y: int| 0 <= x < y < b.drop_first().len() implies newer(
            #[trigger] b.drop_first()[x],
            #[trigger] b.drop_first()[y],
        ) by {
            assert(newer(b[x + 1], b[y + 1]));
        }
        law_newest_first_is_unique(a.drop_first(), b.drop_first());
        assert(a =~= seq![a[0]] + a.drop_first());
        assert(b =~= seq![b[0]] + b.drop_first());
    }
}

} // verus!
