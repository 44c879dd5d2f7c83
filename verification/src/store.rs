//! The store: every user and every job of the service, and the rules that
//! hold of them at all times.
use vstd::prelude::*;
use vstd::seq_lib::*;
use crate::errors::{AuthError, StoreError};
use crate::models::{CronJob, JobRecord, User, UserRecord};
use crate::schedule::{is_valid_schedule, next_occurrence, next_run, valid_schedule};

verus! {

/// What a [`Store`] holds, in the order in which the records came in.
pub struct StoreState {
    pub users: Seq<UserRecord>,
    pub jobs: Seq<JobRecord>,
}

/// The records of a list of users.
pub open spec fn user_records(users: Seq<User>) -> Seq<UserRecord> {
    users.map_values(|u: User| u@)
}

/// The records of a list of jobs.
pub open spec fn job_records(jobs: Seq<CronJob>) -> Seq<JobRecord> {
    jobs.map_values(|j: CronJob| j@)
}

/// The user called `name`, if there is one.
pub open spec fn user_named(users: Seq<UserRecord>, name: Seq<char>) -> Option<UserRecord>
    decreases users.len(),
{
    if users.len() == 0 {
        None
    } else if users.last().username == name {
        Some(users.last())
    } else {
        user_named(users.drop_last(), name)
    }
}

/// The user with the id `id`, if there is one.
pub open spec fn user_with_id(users: Seq<UserRecord>, id: i32) -> Option<UserRecord>
    decreases users.len(),
{
    if users.len() == 0 {
        None
    } else if users.last().id == id {
        Some(users.last())
    } else {
        user_with_id(users.drop_last(), id)
    }
}

/// Whether some user has the email `email`.
pub open spec fn email_taken(users: Seq<UserRecord>, email: Seq<char>) -> bool {
    exists|i: int| 0 <= i < users.len() && (#[trigger] users[i]).email == email
}

/// The id that the next user gets: one more than the last one given out.
pub open spec fn next_user_id(users: Seq<UserRecord>) -> int {
    if users.len() == 0 {
        1
    } else {
        users.last().id + 1
    }
}

/// The id that the next job gets: one more than the last one given out.
pub open spec fn next_job_id(jobs: Seq<JobRecord>) -> int {
    if jobs.len() == 0 {
        1
    } else {
        jobs.last().id + 1
    }
}

/// User ids are positive and grow with every user: no two users share one.
pub open spec fn user_ids_ascend(users: Seq<UserRecord>) -> bool {
    &&& forall|i: int| 0 <= i < users.len() ==> (#[trigger] users[i]).id >= 1
    &&& forall|i: int, j: int|
        0 <= i < j < users.len() ==> (#[trigger] users[i]).id < (#[trigger] users[j]).id
}

/// No two users share a name, and no two share an email.
pub open spec fn users_distinct(users: Seq<UserRecord>) -> bool {
    forall|i: int, j: int|
        0 <= i < j < users.len() ==> (#[trigger] users[i]).username != (#[trigger] users[j]).username
            && users[i].email != users[j].email
}

/// Job ids are positive and grow with every job: no two jobs share one.
pub open spec fn job_ids_ascend(jobs: Seq<JobRecord>) -> bool {
    &&& forall|i: int| 0 <= i < jobs.len() ==> (#[trigger] jobs[i]).id >= 1
    &&& forall|i: int, j: int|
        0 <= i < j < jobs.len() ==> (#[trigger] jobs[i]).id < (#[trigger] jobs[j]).id
}

/// Every job belongs to a user of the store.
pub open spec fn owners_known(state: StoreState) -> bool {
    forall|k: int|
        0 <= k < state.jobs.len() ==> user_with_id(
            state.users,
            (#[trigger] state.jobs[k]).user_id,
        ) is Some
}

/// The jobs of `owner`, in the order in which they came in.
pub open spec fn owner_jobs(jobs: Seq<JobRecord>, owner: i32) -> Seq<JobRecord> {
    jobs.filter(|job: JobRecord| job.user_id == owner)
}

/// Whether `a` comes before `b` in a list of jobs: the one made later does,
/// and of two made in the same second the one that came in later.
pub open spec fn newer(a: JobRecord, b: JobRecord) -> bool {
    a.created_at > b.created_at || (a.created_at == b.created_at && a.id > b.id)
}

/// Whether `list` runs from the newest job to the oldest.
pub open spec fn newest_first(list: Seq<JobRecord>) -> bool {
    forall|i: int, j: int| 0 <= i < j < list.len() ==> newer(#[trigger] list[i], #[trigger] list[j])
}

/// Whether the time `as_of` has reached the occurrence `next`; no occurrence
/// is never reached.
pub open spec fn reached(next: Option<u64>, as_of: u64) -> bool {
    match next {
        Some(tick) => tick <= as_of,
        None => false,
    }
}

/// Whether `job` is due at the time `as_of`: it never ran, or its schedule
/// has an occurrence after its last run that `as_of` has reached.
pub open spec fn job_due(job: JobRecord, as_of: u64) -> bool {
    match job.last_run {
        None => true,
        Some(ran) => reached(next_occurrence(job.schedule, ran), as_of),
    }
}

/// The jobs that are due at `as_of`, in the order in which they came in.
pub open spec fn due_jobs(jobs: Seq<JobRecord>, as_of: u64) -> Seq<JobRecord> {
    jobs.filter(|job: JobRecord| job_due(job, as_of))
}

/// Whether `job` never ran, or ran before `as_of`. Every due job is stale;
/// a stale job is due once its schedule says so.
pub open spec fn job_stale(job: JobRecord, as_of: u64) -> bool {
    match job.last_run {
        None => true,
        Some(ran) => ran < as_of,
    }
}

/// The jobs that are stale at `as_of`, in the order in which they came in.
pub open spec fn stale_jobs(jobs: Seq<JobRecord>, as_of: u64) -> Seq<JobRecord> {
    jobs.filter(|job: JobRecord| job_stale(job, as_of))
}

/// The job with the id `id`, if there is one.
pub open spec fn job_with_id(jobs: Seq<JobRecord>, id: i32) -> Option<JobRecord>
    decreases jobs.len(),
{
    if jobs.len() == 0 {
        None
    } else if jobs.last().id == id {
        Some(jobs.last())
    } else {
        job_with_id(jobs.drop_last(), id)
    }
}

/// Jobs after the last match do not change which job is found by id.
pub proof fn lemma_job_with_id_skips(jobs: Seq<JobRecord>, id: i32, from: int)
    requires
        0 <= from <= jobs.len(),
        forall|k: int| from <= k < jobs.len() ==> (#[trigger] jobs[k]).id != id,
    ensures
        job_with_id(jobs, id) == job_with_id(jobs.take(from), id),
    decreases jobs.len() - from,
{
    if from == jobs.len() {
        assert(jobs.take(from) =~= jobs);
    } else {
        let shorter = jobs.drop_last();
        assert(shorter.take(from) =~= jobs.take(from));
        lemma_job_with_id_skips(shorter, id, from);
    }
}

/// Whether some job has the id `id`.
pub open spec fn has_job(jobs: Seq<JobRecord>, id: i32) -> bool {
    exists|k: int| 0 <= k < jobs.len() && (#[trigger] jobs[k]).id == id
}

/// `job` after a run at `at`: the later of its last run and `at` is kept.
pub open spec fn stamped(job: JobRecord, at: u64) -> JobRecord {
    match job.last_run {
        Some(ran) if ran > at => job,
        _ => JobRecord { last_run: Some(at), ..job },
    }
}

/// `jobs` after the job `id` ran at `at`.
pub open spec fn marked(jobs: Seq<JobRecord>, id: i32, at: u64) -> Seq<JobRecord> {
    jobs.map_values(
        |job: JobRecord|
            if job.id == id {
                stamped(job, at)
            } else {
                job
            },
    )
}

/// What holds of every store.
pub open spec fn consistent(state: StoreState) -> bool {
    &&& user_ids_ascend(state.users)
    &&& users_distinct(state.users)
    &&& job_ids_ascend(state.jobs)
    &&& owners_known(state)
}

/// Users after the last match do not change who is found by name.
pub proof fn lemma_user_named_skips(users: Seq<UserRecord>, name: Seq<char>, from: int)
    requires
        0 <= from <= users.len(),
        forall|k: int| from <= k < users.len() ==> (#[trigger] users[k]).username != name,
    ensures
        user_named(users, name) == user_named(users.take(from), name),
    decreases users.len() - from,
{
    if from == users.len() {
        assert(users.take(from) =~= users);
    } else {
        let shorter = users.drop_last();
        assert(shorter.take(from) =~= users.take(from));
        lemma_user_named_skips(shorter, name, from);
    }
}

/// Users after the last match do not change who is found by id.
pub proof fn lemma_user_with_id_skips(users: Seq<UserRecord>, id: i32, from: int)
    requires
        0 <= from <= users.len(),
        forall|k: int| from <= k < users.len() ==> (#[trigger] users[k]).id != id,
    ensures
        user_with_id(users, id) == user_with_id(users.take(from), id),
    decreases users.len() - from,
{
    if from == users.len() {
        assert(users.take(from) =~= users);
    } else {
        let shorter = users.drop_last();
        assert(shorter.take(from) =~= users.take(from));
        lemma_user_with_id_skips(shorter, id, from);
    }
}

/// A user that is found by id is one of the users, and has that id.
pub proof fn lemma_user_with_id_is_member(users: Seq<UserRecord>, id: i32)
    ensures
        user_with_id(users, id) matches Some(user) ==> user.id == id && users.contains(user),
        user_with_id(users, id) is None ==> forall|k: int|
            0 <= k < users.len() ==> (#[trigger] users[k]).id != id,
    decreases users.len(),
{
    if users.len() > 0 && users.last().id != id {
        lemma_user_with_id_is_member(users.drop_last(), id);
        if user_with_id(users, id) is Some {
            let user = user_with_id(users, id).unwrap();
            let k = choose|k: int| 0 <= k < users.drop_last().len() && users.drop_last()[k] == user;
            assert(users[k] == user);
        } else {
            assert forall|k: int| 0 <= k < users.len() implies (#[trigger] users[k]).id != id by {
                if k < users.len() - 1 {
                    assert(users.drop_last()[k] == users[k]);
                }
            }
        }
    } else if users.len() > 0 {
        assert(users[users.len() - 1] == users.last());
    }
}

/// A user that is found by name is one of the users, and has that name.
pub proof fn lemma_user_named_is_member(users: Seq<UserRecord>, name: Seq<char>)
    ensures
        user_named(users, name) matches Some(user) ==> user.username == name && users.contains(
            user,
        ),
        user_named(users, name) is None ==> forall|k: int|
            0 <= k < users.len() ==> (#[trigger] users[k]).username != name,
    decreases users.len(),
{
    if users.len() > 0 && users.last().username != name {
        lemma_user_named_is_member(users.drop_last(), name);
        if user_named(users, name) is Some {
            let user = user_named(users, name).unwrap();
            let k = choose|k: int| 0 <= k < users.drop_last().len() && users.drop_last()[k] == user;
            assert(users[k] == user);
        } else {
            assert forall|k: int| 0 <= k < users.len() implies (#[trigger] users[k]).username
                != name by {
                if k < users.len() - 1 {
                    assert(users.drop_last()[k] == users[k]);
                }
            }
        }
    } else if users.len() > 0 {
        assert(users[users.len() - 1] == users.last());
    }
}

/// Whether the ids of `users` are positive and ascend.
fn check_user_ids(users: &Vec<User>) -> (ok: bool)
    ensures
        ok == user_ids_ascend(user_records(users@)),
{
    let ghost records = user_records(users@);
    let mut i: usize = 0;
    while i < users.len()
        invariant
            i <= users@.len(),
            records == user_records(users@),
            user_ids_ascend(records.take(i as int)),
        decreases users@.len() - i,
    {
        if users[i].id < 1 {
            assert(records[i as int].id < 1);
            return false;
        }
        if i > 0 && users[i - 1].id >= users[i].id {
            assert(records[i - 1].id >= records[i as int].id);
            return false;
        }
        proof {
            let head = records.take(i as int);
            let grown = records.take(i + 1);
            assert forall|a: int, b: int| 0 <= a < b < grown.len() implies (#[trigger] grown[a]).id
                < (#[trigger] grown[b]).id by {
                if b < i {
                    assert(grown[a] == head[a] && grown[b] == head[b]);
                } else if a < i - 1 {
                    assert(grown[a] == head[a] && head[i - 1] == records[i - 1]);
                    assert(head[a].id < head[i - 1].id);
                }
            }
            assert forall|a: int| 0 <= a < grown.len() implies (#[trigger] grown[a]).id >= 1 by {
                if a < i {
                    assert(grown[a] == head[a]);
                }
            }
        }
        i = i + 1;
    }
    assert(records.take(i as int) =~= records);
    true
}

/// Whether the ids of `jobs` are positive and ascend.
fn check_job_ids(jobs: &Vec<CronJob>) -> (ok: bool)
    ensures
        ok == job_ids_ascend(job_records(jobs@)),
{
    let ghost records = job_records(jobs@);
    let mut i: usize = 0;
    while i < jobs.len()
        invariant
            i <= jobs@.len(),
            records == job_records(jobs@),
            job_ids_ascend(records.take(i as int)),
        decreases jobs@.len() - i,
    {
        if jobs[i].id < 1 {
            assert(records[i as int].id < 1);
            return false;
        }
        if i > 0 && jobs[i - 1].id >= jobs[i].id {
            assert(records[i - 1].id >= records[i as int].id);
            return false;
        }
        proof {
            let head = records.take(i as int);
            let grown = records.take(i + 1);
            assert forall|a: int, b: int| 0 <= a < b < grown.len() implies (#[trigger] grown[a]).id
                < (#[trigger] grown[b]).id by {
                if b < i {
                    assert(grown[a] == head[a] && grown[b] == head[b]);
                } else if a < i - 1 {
                    assert(grown[a] == head[a] && head[i - 1] == records[i - 1]);
                    assert(head[a].id < head[i - 1].id);
                }
            }
            assert forall|a: int| 0 <= a < grown.len() implies (#[trigger] grown[a]).id >= 1 by {
                if a < i {
                    assert(grown[a] == head[a]);
                }
            }
        }
        i = i + 1;
    }
    assert(records.take(i as int) =~= records);
    true
}

/// Whether no two of `users` share a name or an email.
fn check_users_distinct(users: &Vec<User>) -> (ok: bool)
    ensures
        ok == users_distinct(user_records(users@)),
{
    let ghost records = user_records(users@);
    let mut j: usize = 0;
    while j < users.len()
        invariant
            j <= users@.len(),
            records == user_records(users@),
            forall|a: int, b: int|
                0 <= a < b < j ==> (#[trigger] records[a]).username != (#[trigger] records[b]).username
                    && records[a].email != records[b].email,
        decreases users@.len() - j,
    {
        let mut i: usize = 0;
        while i < j
            invariant
                i <= j < users@.len(),
                records == user_records(users@),
                forall|a: int|
                    0 <= a < i ==> (#[trigger] records[a]).username != records[j as int].username
                        && records[a].email != records[j as int].email,
            decreases j - i,
        {
            if users[i].username == users[j].username || users[i].email == users[j].email {
                assert(records[i as int].username == records[j as int].username
                    || records[i as int].email == records[j as int].email);
                return false;
            }
            i = i + 1;
        }
        j = j + 1;
    }
    true
}

/// Whether every one of `jobs` belongs to one of `users`.
fn check_owners(users: &Vec<User>, jobs: &Vec<CronJob>) -> (ok: bool)
    ensures
        ok == owners_known(
            StoreState { users: user_records(users@), jobs: job_records(jobs@) },
        ),
{
    let ghost state = StoreState { users: user_records(users@), jobs: job_records(jobs@) };
    let mut k: usize = 0;
    while k < jobs.len()
        invariant
            k <= jobs@.len(),
            state == (StoreState { users: user_records(users@), jobs: job_records(jobs@) }),
            forall|m: int|
                0 <= m < k ==> user_with_id(state.users, (#[trigger] state.jobs[m]).user_id) is Some,
        decreases jobs@.len() - k,
    {
        let owner: i32 = jobs[k].user_id;
        let mut i: usize = 0;
        while i < users.len() && users[i].id != owner
            invariant
                i <= users@.len(),
                state.users == user_records(users@),
                forall|a: int| 0 <= a < i ==> (#[trigger] state.users[a]).id != owner,
            decreases users@.len() - i,
        {
            i = i + 1;
        }
        proof {
            lemma_user_with_id_is_member(state.users, owner);
            assert(state.jobs[k as int].user_id == owner);
        }
        if i == users.len() {
            return false;
        }
        assert(state.users[i as int].id == owner);
        k = k + 1;
    }
    true
}

/// The users and the jobs of the service.
pub struct Store {
    users: Vec<User>,
    jobs: Vec<CronJob>,
}

impl View for Store {
    type V = StoreState;

    closed spec fn view(&self) -> StoreState {
        StoreState { users: user_records(self.users@), jobs: job_records(self.jobs@) }
    }
}

impl Store {
    /// Every store is consistent.
    #[verifier::type_invariant]
    pub open spec fn wf(&self) -> bool {
        consistent(self@)
    }

    /// A store without users and without jobs.
    pub fn new() -> (store: Store)
        ensures
            store@.users.len() == 0,
            store@.jobs.len() == 0,
    {
        Store { users: Vec::new(), jobs: Vec::new() }
    }

    /// A store of the given users and jobs, as they were kept elsewhere.
    /// Records that break a rule of the store are refused.
    pub fn from_records(users: Vec<User>, jobs: Vec<CronJob>) -> (r: Option<Store>)
        ensures
            r is Some <==> consistent(
                StoreState { users: user_records(users@), jobs: job_records(jobs@) },
            ),
            r matches Some(store) ==> store@ == (StoreState {
                users: user_records(users@),
                jobs: job_records(jobs@),
            }),
    {
        if check_user_ids(&users) && check_users_distinct(&users) && check_job_ids(&jobs)
            && check_owners(&users, &jobs) {
            Some(Store { users, jobs })
        } else {
            None
        }
    }

    /// The user that came in last.
    pub fn last_user(&self) -> (last: Option<User>)
        ensures
            match last {
                Some(user) => self@.users.len() > 0 && user@ == self@.users.last(),
                None => self@.users.len() == 0,
            },
    {
        let count: usize = self.users.len();
        if count == 0 {
            None
        } else {
            Some(self.users[count - 1].clone())
        }
    }

    /// The job that came in last.
    pub fn last_job(&self) -> (last: Option<CronJob>)
        ensures
            match last {
                Some(job) => self@.jobs.len() > 0 && job@ == self@.jobs.last(),
                None => self@.jobs.len() == 0,
            },
    {
        let count: usize = self.jobs.len();
        if count == 0 {
            None
        } else {
            Some(self.jobs[count - 1].clone())
        }
    }

    /// Empties the store and hands out what it held.
    fn take_apart(&mut self) -> (parts: (Vec<User>, Vec<CronJob>))
        ensures
            parts.0@ == old(self).users@,
            parts.1@ == old(self).jobs@,
            final(self).users@.len() == 0,
            final(self).jobs@.len() == 0,
    {
        let mut taken = Store::new();
        core::mem::swap(self, &mut taken);
        (taken.users, taken.jobs)
    }

    /// The user called `name`.
    pub fn find_user(&self, name: &String) -> (found: Option<User>)
        ensures
            found is Some <==> user_named(self@.users, name@) is Some,
            found matches Some(user) ==> Some(user@) == user_named(self@.users, name@),
    {
        let mut i: usize = self.users.len();
        while i > 0
            invariant
                i <= self.users@.len(),
                forall|k: int|
                    i <= k < self.users@.len() ==> (#[trigger] user_records(
                        self.users@,
                    )[k]).username != name@,
            decreases i,
        {
            i = i - 1;
            if self.users[i].username == *name {
                proof {
                    let users = user_records(self.users@);
                    assert(users[i as int].username == name@);
                    lemma_user_named_skips(users, name@, i + 1);
                    assert(users.take(i + 1).last() == users[i as int]);
                }
                return Some(self.users[i].clone());
            }
        }
        proof {
            let users = user_records(self.users@);
            lemma_user_named_skips(users, name@, 0);
            assert(users.take(0).len() == 0);
        }
        None
    }

    /// The user with the id `user_id`.
    pub fn user_by_id(&self, user_id: i32) -> (found: Option<User>)
        ensures
            found is Some <==> user_with_id(self@.users, user_id) is Some,
            found matches Some(user) ==> Some(user@) == user_with_id(self@.users, user_id),
    {
        let mut i: usize = self.users.len();
        while i > 0
            invariant
                i <= self.users@.len(),
                forall|k: int|
                    i <= k < self.users@.len() ==> (#[trigger] user_records(self.users@)[k]).id
                        != user_id,
            decreases i,
        {
            i = i - 1;
            if self.users[i].id == user_id {
                proof {
                    let users = user_records(self.users@);
                    assert(users[i as int].id == user_id);
                    lemma_user_with_id_skips(users, user_id, i + 1);
                    assert(users.take(i + 1).last() == users[i as int]);
                }
                return Some(self.users[i].clone());
            }
        }
        proof {
            let users = user_records(self.users@);
            lemma_user_with_id_skips(users, user_id, 0);
            assert(users.take(0).len() == 0);
        }
        None
    }

    /// Whether some user has the email `email`.
    pub fn has_email(&self, email: &String) -> (taken: bool)
        ensures
            taken == email_taken(self@.users, email@),
    {
        let mut i: usize = 0;
        while i < self.users.len()
            invariant
                i <= self.users@.len(),
                forall|k: int|
                    0 <= k < i ==> (#[trigger] user_records(self.users@)[k]).email != email@,
            decreases self.users@.len() - i,
        {
            if self.users[i].email == *email {
                assert(user_records(self.users@)[i as int].email == email@);
                return true;
            }
            i = i + 1;
        }
        false
    }

    /// Keeps a new user with the given name, email and password hash, made
    /// at `now`, and hands out the record.
    ///
    /// `Conflict` where the name or the email is taken, `Storage` where no
    /// id is left. The store is then unchanged.
    pub fn insert_user(&mut self, username: String, email: String, password: String, now: u64) -> (r:
        Result<User, AuthError>)
        ensures
            final(self)@.jobs == old(self)@.jobs,
            r is Err ==> final(self)@ == old(self)@,
            user_named(old(self)@.users, username@) is Some || email_taken(old(self)@.users, email@)
                ==> r == Err::<User, AuthError>(AuthError::Conflict),
            user_named(old(self)@.users, username@) is None && !email_taken(
                old(self)@.users,
                email@,
            ) && next_user_id(old(self)@.users) > i32::MAX ==> r == Err::<User, AuthError>(
                AuthError::Storage,
            ),
            user_named(old(self)@.users, username@) is None && !email_taken(
                old(self)@.users,
                email@,
            ) && next_user_id(old(self)@.users) <= i32::MAX ==> r is Ok,
            r matches Ok(user) ==> user@ == (UserRecord {
                id: next_user_id(old(self)@.users) as i32,
                username: username@,
                email: email@,
                password: password@,
                created_at: now,
            }) && final(self)@.users == old(self)@.users.push(user@),
    {
        proof {
            use_type_invariant(&*self);
        }
        if self.find_user(&username).is_some() || self.has_email(&email) {
            return Err(AuthError::Conflict);
        }
        let count: usize = self.users.len();
        let id: i32 = if count == 0 {
            1
        } else {
            let last: i32 = self.users[count - 1].id;
            assert(user_records(self.users@).last().id == last);
            if last == i32::MAX {
                return Err(AuthError::Storage);
            }
            last + 1
        };
        let user = User { id, username, email, password, created_at: now };
        let kept = user.clone();
        let (mut users, jobs) = self.take_apart();
        users.push(user);
        proof {
            let before = old(self)@.users;
            let after = user_records(users@);
            assert(after =~= before.push(kept@));
            lemma_user_named_is_member(before, kept@.username);
            assert forall|i: int, j: int| 0 <= i < j < after.len() implies (#[trigger] after[i]).id
                < (#[trigger] after[j]).id && after[i].username != after[j].username
                && after[i].email != after[j].email by {
                if j < before.len() {
                    assert(after[i] == before[i] && after[j] == before[j]);
                } else {
                    assert(after[i] == before[i]);
                    if before.len() > 0 {
                        assert(before[i].id <= before[before.len() - 1].id);
                    }
                }
            }
            assert forall|k: int| 0 <= k < old(self)@.jobs.len() implies user_with_id(
                after,
                (#[trigger] old(self)@.jobs[k]).user_id,
            ) is Some by {
                let owner = old(self)@.jobs[k].user_id;
                assert(after.drop_last() =~= before);
                assert(user_with_id(before, owner) is Some);
            }
        }
        *self = Store { users, jobs };
        Ok(kept)
    }

    /// The job with the id `job_id`.
    pub fn find_job(&self, job_id: i32) -> (found: Option<CronJob>)
        ensures
            found is Some <==> job_with_id(self@.jobs, job_id) is Some,
            found matches Some(job) ==> Some(job@) == job_with_id(self@.jobs, job_id),
    {
        let mut i: usize = self.jobs.len();
        while i > 0
            invariant
                i <= self.jobs@.len(),
                forall|k: int|
                    i <= k < self.jobs@.len() ==> (#[trigger] job_records(self.jobs@)[k]).id != job_id,
            decreases i,
        {
            i = i - 1;
            if self.jobs[i].id == job_id {
                proof {
                    let jobs = job_records(self.jobs@);
                    assert(jobs[i as int].id == job_id);
                    lemma_job_with_id_skips(jobs, job_id, i + 1);
                    assert(jobs.take(i + 1).last() == jobs[i as int]);
                }
                return Some(self.jobs[i].clone());
            }
        }
        proof {
            let jobs = job_records(self.jobs@);
            lemma_job_with_id_skips(jobs, job_id, 0);
            assert(jobs.take(0).len() == 0);
        }
        None
    }

    /// Whether the time `as_of` has reached the occurrence `next`.
    pub fn has_reached(next: Option<u64>, as_of: u64) -> (due: bool)
        ensures
            due == reached(next, as_of),
    {
        match next {
            Some(tick) => tick <= as_of,
            None => false,
        }
    }

    /// Whether `job` is due at `as_of`.
    pub fn is_due(job: &CronJob, as_of: u64) -> (due: bool)
        ensures
            due == job_due(job@, as_of),
    {
        match job.last_run {
            None => true,
            Some(ran) => Self::has_reached(next_run(job.schedule.as_str(), ran), as_of),
        }
    }

    /// Keeps a new job of `owner_id` with the given message and schedule,
    /// made at `now`, and hands out the record. The job has not run yet. The
    /// schedule is taken as it is: [`Store::create`] reads it first.
    ///
    /// `OwnerNotFound` where `owner_id` is no user of the store, else
    /// `Storage` where no id is left. The store is then unchanged.
    pub fn insert_job(&mut self, owner_id: i32, message: String, schedule: String, now: u64) -> (r:
        Result<CronJob, StoreError>)
        ensures
            final(self)@.users == old(self)@.users,
            r is Err ==> final(self)@ == old(self)@,
            r is Err ==> r == Err::<CronJob, StoreError>(
                if user_with_id(old(self)@.users, owner_id) is None {
                    StoreError::OwnerNotFound
                } else {
                    StoreError::Storage
                },
            ),
            r is Ok <==> user_with_id(old(self)@.users, owner_id) is Some && next_job_id(
                old(self)@.jobs,
            ) <= i32::MAX,
            r matches Ok(job) ==> job@ == (JobRecord {
                id: next_job_id(old(self)@.jobs) as i32,
                user_id: owner_id,
                message: message@,
                schedule: schedule@,
                last_run: None,
                created_at: now,
            }) && final(self)@.jobs == old(self)@.jobs.push(job@),
    {
        proof {
            use_type_invariant(&*self);
        }
        if self.user_by_id(owner_id).is_none() {
            return Err(StoreError::OwnerNotFound);
        }
        let count: usize = self.jobs.len();
        let id: i32 = if count == 0 {
            1
        } else {
            let last: i32 = self.jobs[count - 1].id;
            assert(job_records(self.jobs@).last().id == last);
            if last == i32::MAX {
                return Err(StoreError::Storage);
            }
            last + 1
        };
        let job = CronJob { id, user_id: owner_id, message, schedule, last_run: None, created_at: now };
        let kept = job.clone();
        let (users, mut jobs) = self.take_apart();
        jobs.push(job);
        proof {
            let before = old(self)@.jobs;
            let after = job_records(jobs@);
            assert(after =~= before.push(kept@));
            assert forall|i: int, j: int| 0 <= i < j < after.len() implies (#[trigger] after[i]).id
                < (#[trigger] after[j]).id by {
                if j < before.len() {
                    assert(after[i] == before[i] && after[j] == before[j]);
                } else {
                    assert(after[i] == before[i]);
                    if before.len() > 0 {
                        assert(before[i].id <= before[before.len() - 1].id);
                    }
                }
            }
            assert forall|k: int| 0 <= k < after.len() implies user_with_id(
                old(self)@.users,
                (#[trigger] after[k]).user_id,
            ) is Some by {
                if k < before.len() {
                    assert(after[k] == before[k]);
                }
            }
        }
        *self = Store { users, jobs };
        Ok(kept)
    }

    /// Creates a job of `owner_id` at the time `now`: reads the schedule
    /// and, where it is a cron expression, keeps the job. The job has not
    /// run yet.
    ///
    /// `InvalidSchedule` where the schedule is no cron expression, else
    /// `OwnerNotFound` where `owner_id` is no user of the store, else
    /// `Storage` where no id is left. The store is then unchanged.
    pub fn create(&mut self, owner_id: i32, message: String, schedule: String, now: u64) -> (r:
        Result<CronJob, StoreError>)
        ensures
            final(self)@.users == old(self)@.users,
            r is Err ==> final(self)@ == old(self)@,
            r is Err ==> r == Err::<CronJob, StoreError>(
                if !valid_schedule(schedule@) {
                    StoreError::InvalidSchedule
                } else if user_with_id(old(self)@.users, owner_id) is None {
                    StoreError::OwnerNotFound
                } else {
                    StoreError::Storage
                },
            ),
            r is Ok <==> valid_schedule(schedule@) && user_with_id(old(self)@.users, owner_id)
                is Some && next_job_id(old(self)@.jobs) <= i32::MAX,
            r matches Ok(job) ==> job@ == (JobRecord {
                id: next_job_id(old(self)@.jobs) as i32,
                user_id: owner_id,
                message: message@,
                schedule: schedule@,
                last_run: None,
                created_at: now,
            }) && final(self)@.jobs == old(self)@.jobs.push(job@),
    {
        if !is_valid_schedule(schedule.as_str()) {
            return Err(StoreError::InvalidSchedule);
        }
        self.insert_job(owner_id, message, schedule, now)
    }

    /// The jobs of `owner_id`, newest first.
    pub fn list_by_owner(&self, owner_id: i32) -> (list: Vec<CronJob>)
        ensures
            job_records(list@).to_multiset() == owner_jobs(self@.jobs, owner_id).to_multiset(),
            newest_first(job_records(list@)),
    {
        proof {
            use_type_invariant(self);
        }
        let ghost all = job_records(self.jobs@);
        let mut list: Vec<CronJob> = Vec::new();
        let mut i: usize = 0;
        proof {
            assert(all.take(0) =~= Seq::<JobRecord>::empty());
            reveal(Seq::filter);
            assert(job_records(list@) =~= owner_jobs(all.take(0), owner_id));
        }
        while i < self.jobs.len()
            invariant
                i <= self.jobs@.len(),
                all == job_records(self.jobs@),
                job_ids_ascend(all),
                job_records(list@).to_multiset() == owner_jobs(all.take(i as int), owner_id).to_multiset(),
                newest_first(job_records(list@)),
                forall|k: int, m: int|
                    0 <= k < list@.len() && i <= m < all.len() ==> (#[trigger] job_records(
                        list@,
                    )[k]).id < (#[trigger] all[m]).id,
            decreases self.jobs@.len() - i,
        {
            let ghost head = all.take(i as int);
            let ghost job = all[i as int];
            proof {
                assert(all.take(i + 1) =~= head.push(job));
                head.lemma_filter_push(job, |job: JobRecord| job.user_id == owner_id);
            }
            if self.jobs[i].user_id == owner_id {
                let ghost sorted = job_records(list@);
                let mut at: usize = 0;
                while at < list.len() && Self::comes_before(&list[at], &self.jobs[i])
                    invariant
                        at <= list@.len(),
                        sorted == job_records(list@),
                        job == self.jobs@[i as int]@,
                        i < self.jobs@.len(),
                        forall|k: int| 0 <= k < at ==> newer(#[trigger] sorted[k], job),
                    decreases list@.len() - at,
                {
                    at = at + 1;
                }
                let copy = self.jobs[i].clone();
                list.insert(at, copy);
                proof {
                    let grown = job_records(list@);
                    assert(grown =~= sorted.insert(at as int, job));
                    to_multiset_insert(sorted, at as int, job);
                    to_multiset_build(owner_jobs(head, owner_id), job);
                    assert forall|a: int, b: int| 0 <= a < b < grown.len() implies newer(
                        #[trigger] grown[a],
                        #[trigger] grown[b],
                    ) by {
                        if b < at {
                            assert(grown[a] == sorted[a] && grown[b] == sorted[b]);
                        } else if b == at {
                            assert(grown[a] == sorted[a]);
                        } else if a < at {
                            assert(grown[a] == sorted[a] && grown[b] == sorted[b - 1]);
                        } else if a == at {
                            assert(grown[b] == sorted[b - 1]);
                            assert(sorted[at as int].id < all[i as int].id);
                            assert(sorted[b - 1].id < all[i as int].id);
                            if b - 1 > at {
                                assert(newer(sorted[at as int], sorted[b - 1]));
                            }
                        } else {
                            assert(grown[a] == sorted[a - 1] && grown[b] == sorted[b - 1]);
                        }
                    }
                    assert forall|k: int, m: int|
                        0 <= k < grown.len() && i + 1 <= m < all.len() implies (#[trigger] grown[k]).id
                        < (#[trigger] all[m]).id by {
                        if k < at {
                            assert(grown[k] == sorted[k]);
                        } else if k == at {
                            assert(grown[k] == all[i as int]);
                        } else {
                            assert(grown[k] == sorted[k - 1]);
                        }
                    }
                }
            }
            i = i + 1;
        }
        proof {
            assert(all.take(i as int) =~= all);
        }
        list
    }

    /// Whether `a` comes before `b` in a list of jobs.
    fn comes_before(a: &CronJob, b: &CronJob) -> (before: bool)
        ensures
            before == newer(a@, b@),
    {
        a.created_at > b.created_at || (a.created_at == b.created_at && a.id > b.id)
    }

    /// The jobs that are due at `as_of`, in the order in which they came in.
    pub fn list_due(&self, as_of: u64) -> (list: Vec<CronJob>)
        ensures
            job_records(list@) == due_jobs(self@.jobs, as_of),
    {
        let ghost all = job_records(self.jobs@);
        let mut list: Vec<CronJob> = Vec::new();
        let mut i: usize = 0;
        proof {
            assert(all.take(0) =~= Seq::<JobRecord>::empty());
            reveal(Seq::filter);
            assert(job_records(list@) =~= due_jobs(all.take(0), as_of));
        }
        while i < self.jobs.len()
            invariant
                i <= self.jobs@.len(),
                all == job_records(self.jobs@),
                job_records(list@) == due_jobs(all.take(i as int), as_of),
            decreases self.jobs@.len() - i,
        {
            let ghost head = all.take(i as int);
            let ghost job = all[i as int];
            let ghost before = job_records(list@);
            proof {
                assert(all.take(i + 1) =~= head.push(job));
                head.lemma_filter_push(job, |job: JobRecord| job_due(job, as_of));
            }
            if Self::is_due(&self.jobs[i], as_of) {
                let copy = self.jobs[i].clone();
                list.push(copy);
                assert(job_records(list@) =~= before.push(job));
            }
            i = i + 1;
        }
        proof {
            assert(all.take(i as int) =~= all);
        }
        list
    }

    /// The jobs that never ran or last ran before `as_of`, whatever their
    /// schedules say, in the order in which they came in. The due jobs are
    /// among them.
    pub fn list_stale(&self, as_of: u64) -> (list: Vec<CronJob>)
        ensures
            job_records(list@) == stale_jobs(self@.jobs, as_of),
    {
        let ghost all = job_records(self.jobs@);
        let mut list: Vec<CronJob> = Vec::new();
        let mut i: usize = 0;
        proof {
            assert(all.take(0) =~= Seq::<JobRecord>::empty());
            reveal(Seq::filter);
            assert(job_records(list@) =~= stale_jobs(all.take(0), as_of));
        }
        while i < self.jobs.len()
            invariant
                i <= self.jobs@.len(),
                all == job_records(self.jobs@),
                job_records(list@) == stale_jobs(all.take(i as int), as_of),
            decreases self.jobs@.len() - i,
        {
            let ghost head = all.take(i as int);
            let ghost job = all[i as int];
            let ghost before = job_records(list@);
            proof {
                assert(all.take(i + 1) =~= head.push(job));
                head.lemma_filter_push(job, |job: JobRecord| job_stale(job, as_of));
            }
            let stale: bool = match self.jobs[i].last_run {
                None => true,
                Some(ran) => ran < as_of,
            };
            if stale {
                let copy = self.jobs[i].clone();
                list.push(copy);
                assert(job_records(list@) =~= before.push(job));
            }
            i = i + 1;
        }
        proof {
            assert(all.take(i as int) =~= all);
        }
        list
    }

    /// Every job, in the order in which the jobs came in.
    pub fn all_jobs(&self) -> (list: Vec<CronJob>)
        ensures
            job_records(list@) == self@.jobs,
    {
        let mut list: Vec<CronJob> = Vec::new();
        let mut i: usize = 0;
        while i < self.jobs.len()
            invariant
                i <= self.jobs@.len(),
                job_records(list@) == job_records(self.jobs@).take(i as int),
            decreases self.jobs@.len() - i,
        {
            let ghost before = job_records(list@);
            let copy = self.jobs[i].clone();
            list.push(copy);
            proof {
                let all = job_records(self.jobs@);
                assert(job_records(list@) =~= before.push(all[i as int]));
                assert(all.take(i + 1) =~= all.take(i as int).push(all[i as int]));
            }
            i = i + 1;
        }
        proof {
            let all = job_records(self.jobs@);
            assert(all.take(i as int) =~= all);
        }
        list
    }

    /// Records that the job `job_id` ran at `run_timestamp`. A stamp never
    /// moves back: where the job already ran later, nothing changes.
    ///
    /// `NotFound` where no job has that id.
    pub fn mark_run(&mut self, job_id: i32, run_timestamp: u64) -> (r: Result<(), StoreError>)
        ensures
            final(self)@.users == old(self)@.users,
            has_job(old(self)@.jobs, job_id) ==> r is Ok && final(self)@.jobs == marked(
                old(self)@.jobs,
                job_id,
                run_timestamp,
            ),
            !has_job(old(self)@.jobs, job_id) ==> r == Err::<(), StoreError>(StoreError::NotFound)
                && final(self)@ == old(self)@,
    {
        proof {
            use_type_invariant(&*self);
        }
        let mut i: usize = 0;
        while i < self.jobs.len() && self.jobs[i].id != job_id
            invariant
                i <= self.jobs@.len(),
                forall|k: int| 0 <= k < i ==> (#[trigger] job_records(self.jobs@)[k]).id != job_id,
            decreases self.jobs@.len() - i,
        {
            i = i + 1;
        }
        if i == self.jobs.len() {
            return Err(StoreError::NotFound);
        }
        let mut job = self.jobs[i].clone();
        let later: bool = match job.last_run {
            Some(ran) => ran > run_timestamp,
            None => false,
        };
        if !later {
            job.last_run = Some(run_timestamp);
        }
        let (users, mut jobs) = self.take_apart();
        jobs.set(i, job);
        proof {
            let before = old(self)@.jobs;
            let after = job_records(jobs@);
            assert(before[i as int].id == job_id);
            assert(after =~= marked(before, job_id, run_timestamp)) by {
                assert forall|k: int| 0 <= k < before.len() implies after[k] == marked(
                    before,
                    job_id,
                    run_timestamp,
                )[k] by {
                    if k != i {
                        assert(before[k].id != before[i as int].id);
                    }
                }
            }
            assert forall|k: int| 0 <= k < after.len() implies (#[trigger] after[k]).id
                == before[k].id && after[k].user_id == before[k].user_id by {}
        }
        *self = Store { users, jobs };
        Ok(())
    }
}

} // verus!
