//! The authenticator: registers users and exchanges credentials for tokens.
use vstd::prelude::*;
use crate::clock::unix_time;
use crate::errors::AuthError;
use crate::models::{LoginUser, NewUser, User, UserRecord};
use crate::password::{check_password, hash_password, password_matches, DEFAULT_COST, MAX_COST, MIN_COST};
use crate::store::{email_taken, next_user_id, user_named, user_with_id, Store};
use crate::token::{
    issued, signed_token, token_claims, verification, TokenAuthority, TOKEN_VALIDITY_SECS,
};

verus! {

/// The password of the decoy credential, which belongs to no user.
pub const DECOY_PASSWORD: &'static str = "";

/// What logging in with `name` and `password` at the time `now` gives, with
/// the users `users` and tokens signed under `secret`: the token of the user
/// of that name, if the password matches the stored hash.
pub open spec fn authentication(
    users: Seq<UserRecord>,
    name: Seq<char>,
    password: Seq<char>,
    now: u64,
    secret: Seq<u8>,
) -> Result<Seq<char>, AuthError> {
    match user_named(users, name) {
        None => Err(AuthError::NotFound),
        Some(user) => if password_matches(password, user.password) {
            Ok(signed_token(user.id, (now + TOKEN_VALIDITY_SECS) as u64, secret))
        } else {
            Err(AuthError::InvalidCredentials)
        },
    }
}

/// Whether `after` is `before` with one more user, registered at `now` under
/// `name` and `email` with a hash of `password`.
pub open spec fn registered(
    before: Seq<UserRecord>,
    after: Seq<UserRecord>,
    name: Seq<char>,
    email: Seq<char>,
    password: Seq<char>,
    now: u64,
) -> bool {
    &&& after.len() == before.len() + 1
    &&& after == before.push(after.last())
    &&& after.last().id == next_user_id(before)
    &&& after.last().username == name
    &&& after.last().email == email
    &&& after.last().created_at == now
    &&& password_matches(password, after.last().password)
}

/// Hashes passwords at one cost and signs tokens under one secret.
pub struct Authenticator {
    authority: TokenAuthority,
    cost: u32,
    decoy: Option<String>,
}

impl Authenticator {
    /// The secret that tokens are signed under.
    pub closed spec fn secret(&self) -> Seq<u8> {
        self.authority.secret()
    }

    /// The cost that passwords are hashed at.
    pub closed spec fn cost(&self) -> u32 {
        self.cost
    }

    #[verifier::type_invariant]
    spec fn cost_allowed(&self) -> bool {
        MIN_COST <= self.cost <= MAX_COST
    }

    /// An authenticator that hashes at `cost` and signs with `authority`.
    /// A cost that the hash does not take is refused.
    pub fn new(authority: TokenAuthority, cost: u32) -> (r: Option<Authenticator>)
        ensures
            r is Some <==> MIN_COST <= cost <= MAX_COST,
            r matches Some(auth) ==> auth.cost() == cost && auth.secret() == authority.secret(),
    {
        if cost < MIN_COST || cost > MAX_COST {
            return None;
        }
        // Held against the password when the user is unknown, so that both
        // failures take one hash comparison.
        let decoy = hash_password(DECOY_PASSWORD, cost);
        Some(Authenticator { authority, cost, decoy })
    }

    /// An authenticator that hashes at [`DEFAULT_COST`].
    pub fn with_default_cost(authority: TokenAuthority) -> (auth: Authenticator)
        ensures
            auth.cost() == DEFAULT_COST,
            auth.secret() == authority.secret(),
    {
        let decoy = hash_password(DECOY_PASSWORD, DEFAULT_COST);
        Authenticator { authority, cost: DEFAULT_COST, decoy }
    }

    /// The token authority.
    pub fn authority(&self) -> (authority: &TokenAuthority)
        ensures
            authority.secret() == self.secret(),
    {
        &self.authority
    }

    /// Registers a user at the time `now`: hashes the password and keeps the
    /// user with the hash in place of the password.
    ///
    /// `Conflict` where the name or the email is taken; `Storage` where the
    /// password could not be hashed or no id is left. The store is then
    /// unchanged.
    pub fn register(&self, store: &mut Store, new_user: NewUser, now: u64) -> (r: Result<
        User,
        AuthError,
    >)
        ensures
            final(store)@.jobs == old(store)@.jobs,
            r is Err ==> final(store)@ == old(store)@,
            user_named(old(store)@.users, new_user.username@) is Some || email_taken(
                old(store)@.users,
                new_user.email@,
            ) <==> r == Err::<User, AuthError>(AuthError::Conflict),
            r is Err ==> r == Err::<User, AuthError>(AuthError::Conflict) || r == Err::<
                User,
                AuthError,
            >(AuthError::Storage),
            next_user_id(old(store)@.users) > i32::MAX ==> r is Err,
            r matches Ok(user) ==> final(store)@.users.last() == user@ && registered(
                old(store)@.users,
                final(store)@.users,
                new_user.username@,
                new_user.email@,
                new_user.password@,
                now,
            ),
    {
        proof {
            use_type_invariant(self);
        }
        if store.find_user(&new_user.username).is_some() || store.has_email(&new_user.email) {
            return Err(AuthError::Conflict);
        }
        match hash_password(new_user.password.as_str(), self.cost) {
            None => Err(AuthError::Storage),
            Some(hash) => store.insert_user(new_user.username, new_user.email, hash, now),
        }
    }

    /// Logs a user in at the time `now`: looks the user up by name, holds
    /// the password against the stored hash, and issues a token on a match.
    ///
    /// `NotFound` where no user has that name, `InvalidCredentials` where the
    /// password does not match. Before either answer one hash comparison
    /// has been made.
    pub fn authenticate(&self, store: &Store, login_user: LoginUser, now: u64) -> (r: Result<
        String,
        AuthError,
    >)
        requires
            now + TOKEN_VALIDITY_SECS <= u64::MAX,
        ensures
            match r {
                Ok(token) => authentication(
                    store@.users,
                    login_user.username@,
                    login_user.password@,
                    now,
                    self.secret(),
                ) == Ok::<Seq<char>, AuthError>(token@),
                Err(e) => authentication(
                    store@.users,
                    login_user.username@,
                    login_user.password@,
                    now,
                    self.secret(),
                ) == Err::<Seq<char>, AuthError>(e),
            },
            r matches Ok(token) ==> user_named(store@.users, login_user.username@) matches Some(
                user,
            ) && issued(token@, self.secret(), user.id, now),
    {
        match store.find_user(&login_user.username) {
            None => {
                match &self.decoy {
                    Some(hash) => {
                        let _ = check_password(login_user.password.as_str(), hash.as_str());
                    },
                    None => {},
                }
                Err(AuthError::NotFound)
            },
            Some(user) => {
                let matched = check_password(login_user.password.as_str(), user.password.as_str());
                self.grant(user.id, matched, now)
            },
        }
    }

    /// The answer to a log-in of the user `user_id` at the time `now`, where
    /// `matched` says whether the password matched the stored hash: the
    /// token of that user on a match, `InvalidCredentials` else.
    pub fn grant(&self, user_id: i32, matched: bool, now: u64) -> (r: Result<String, AuthError>)
        requires
            now + TOKEN_VALIDITY_SECS <= u64::MAX,
        ensures
            r is Ok <==> matched,
            r matches Ok(token) ==> issued(token@, self.secret(), user_id, now),
            r is Err ==> r == Err::<String, AuthError>(AuthError::InvalidCredentials),
    {
        if matched {
            Ok(self.authority.issue_at(user_id, now))
        } else {
            Err(AuthError::InvalidCredentials)
        }
    }
}

/// Registers a user now, with the clock's time as the time of creation.
///
/// `Conflict` where the name or the email is taken; `Storage` where the
/// password could not be hashed or no id is left. The store is then unchanged.
pub fn signup(store: &mut Store, auth: &Authenticator, new_user: NewUser) -> (r: Result<
    User,
    AuthError,
>)
    ensures
        final(store)@.jobs == old(store)@.jobs,
        r is Err ==> final(store)@ == old(store)@,
        user_named(old(store)@.users, new_user.username@) is Some || email_taken(
            old(store)@.users,
            new_user.email@,
        ) <==> r == Err::<User, AuthError>(AuthError::Conflict),
        r is Err ==> r == Err::<User, AuthError>(AuthError::Conflict) || r == Err::<
            User,
            AuthError,
        >(AuthError::Storage),
        r matches Ok(user) ==> final(store)@.users.last() == user@ && exists|now: u64| #[trigger]
            registered(
                old(store)@.users,
                final(store)@.users,
                new_user.username@,
                new_user.email@,
                new_user.password@,
                now,
            ),
{
    let now: u64 = unix_time();
    auth.register(store, new_user, now)
}

/// Logs a user in now.
///
/// `NotFound` where no user has that name, `InvalidCredentials` where the
/// password does not match; else the token of that user, issued at the
/// clock's time.
pub fn login(store: &Store, auth: &Authenticator, login_user: LoginUser) -> (r: Result<
    String,
    AuthError,
>)
    ensures
        match r {
            Ok(token) => user_named(store@.users, login_user.username@) matches Some(user)
                && password_matches(login_user.password@, user.password) && exists|now: u64|
                now <= i64::MAX && #[trigger] issued(token@, auth.secret(), user.id, now),
            Err(e) => forall|now: u64| #[trigger]
                authentication(
                    store@.users,
                    login_user.username@,
                    login_user.password@,
                    now,
                    auth.secret(),
                ) == Err::<Seq<char>, AuthError>(e),
        },
{
    let now: u64 = unix_time();
    auth.authenticate(store, login_user, now)
}

/// The user that `token` stands for now.
///
/// `Invalid` where the token does not decode under the secret or names no
/// user id; else the user id, or `Expired` where the clock has reached the
/// expiry.
pub fn verify_token(auth: &Authenticator, token: &str) -> (r: Result<i32, AuthError>)
    ensures
        exists|now: u64| r == #[trigger] verification(token_claims(token@, auth.secret()), now),
{
    auth.authority().verify(token)
}

/// The user with the id `user_id`; `NotFound` where there is none.
pub fn get_user(store: &Store, user_id: i32) -> (r: Result<User, AuthError>)
    ensures
        match r {
            Ok(user) => user_with_id(store@.users, user_id) == Some(user@),
            Err(e) => e == AuthError::NotFound && user_with_id(store@.users, user_id) is None,
        },
{
    match store.user_by_id(user_id) {
        Some(user) => Ok(user),
        None => Err(AuthError::NotFound),
    }
}

} // verus!
