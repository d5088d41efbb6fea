//! Registration, login and the check of a bearer token, over the user table.

use crate::errors::{ApiError, ErrorKind};
use crate::models::{user_view_of, User, UserView, UserWithVideos};
use crate::password::{
    argon2_phc, argon2_verdict, hash_password, is_hash_under, is_hashable, verify_password,
};
use crate::token::{
    claims_at, decode_token, expiry_always_fits, is_clock_reading, is_issue_of, issue_token, issue_token_at,
    issued_at, token_claims, token_of, JwtClaims,
};
use crate::users::{is_taken, user_named, user_with_id, valid_users, UserStore};
use crate::videos::{videos_of, VideoStore};
use vstd::prelude::*;

verus! {

/// The credentials of a registration or a login.
#[derive(Clone, Debug, PartialEq, Eq)]
pub struct UserInfo {
    pub username: String,
    pub password: String,
}

/// The failure of a request that carries no bearer token.
pub open spec fn is_not_logged_in(e: ApiError) -> bool {
    e.kind == ErrorKind::Unauthorized && e.message@ == "You are not logged in"@
}

/// The failure of a request whose token is not accepted.
pub open spec fn is_invalid_token(e: ApiError) -> bool {
    e.kind == ErrorKind::Unauthorized && e.message@ == "Invalid token"@
}

/// The failure of a login, the same whether the user is unknown or the
/// password wrong.
pub open spec fn is_forbidden(e: ApiError) -> bool {
    e.kind == ErrorKind::Forbidden && e.message@ == "Forbidden"@
}

/// The token in the text of an `Authorization` header: what follows the
/// prefix `Bearer `, where the text starts with it.
pub open spec fn bearer_of(header: Seq<char>) -> Option<Seq<char>> {
    if header.len() >= 7 && header.subrange(0, 7) == seq!['B', 'e', 'a', 'r', 'e', 'r', ' '] {
        Some(header.subrange(7, header.len() as int))
    } else {
        None
    }
}

/// The token that a request carries, if any.
pub open spec fn bearer_of_request(authorization: Option<&str>) -> Option<Seq<char>> {
    match authorization {
        Some(header) => bearer_of(header@),
        None => None,
    }
}

/// Why credentials are refused for a registration, given whether their
/// username is taken: an empty username, then a taken one, then an empty
/// password. A taken username is a conflict whatever the password.
pub open spec fn credentials_refusal(username: Seq<char>, password: Seq<char>, taken: bool) -> Option<
    ErrorKind,
> {
    if username.len() == 0 {
        Some(ErrorKind::InvalidInput)
    } else if taken {
        Some(ErrorKind::Conflict)
    } else if password.len() == 0 {
        Some(ErrorKind::InvalidInput)
    } else {
        None
    }
}

/// Why a registration is refused before anything is hashed: the credentials
/// are refused, or no id is left. `None` where it is not refused.
pub open spec fn registration_refusal(
    rows: Seq<UserView>,
    next_id: int,
    username: Seq<char>,
    password: Seq<char>,
) -> Option<ErrorKind> {
    match credentials_refusal(username, password, is_taken(rows, username)) {
        Some(kind) => Some(kind),
        None => if next_id >= i32::MAX {
            Some(ErrorKind::InternalError)
        } else {
            None
        },
    }
}

/// The hash that a registration stored, where it stored one.
pub open spec fn stored_hash(res: Result<User, ApiError>) -> Option<Seq<char>> {
    match res {
        Ok(user) => Some(user@.password),
        Err(_) => None,
    }
}

/// Whom a token admits under a secret: the user that its claims name.
pub open spec fn admitted_by(rows: Seq<UserView>, token: Seq<char>, secret: Seq<char>) -> Option<UserView> {
    admitted(rows, token_claims(token, secret))
}

/// What a login with these credentials comes to.
pub enum LoginOutcome {
    /// The user exists and the password matches its hash.
    Granted(UserView),
    /// The user is unknown or the password does not match.
    Refused,
    /// The stored hash is not a hash string.
    Broken,
}

/// The outcome of a login once the user has been looked up.
pub open spec fn outcome_for(found: Option<UserView>, password: Seq<char>) -> LoginOutcome {
    match found {
        None => LoginOutcome::Refused,
        Some(user) => match argon2_verdict(password, user.password) {
            Some(true) => LoginOutcome::Granted(user),
            Some(false) => LoginOutcome::Refused,
            None => LoginOutcome::Broken,
        },
    }
}

/// The outcome of a login against a table.
pub open spec fn login_outcome(rows: Seq<UserView>, username: Seq<char>, password: Seq<char>) -> LoginOutcome {
    outcome_for(user_named(rows, username), password)
}

/// Whom a token's claims admit: the user that they name, if it still exists.
pub open spec fn admitted(rows: Seq<UserView>, claims: Option<JwtClaims>) -> Option<UserView> {
    match claims {
        Some(c) => user_with_id(rows, c.user_id as int),
        None => None,
    }
}

/// Takes the token out of the text of an `Authorization` header. A request
/// without the header, or whose header does not start with `Bearer `, is not
/// logged in.
pub fn bearer_token<'a>(authorization: Option<&'a str>) -> (res: Result<&'a str, ApiError>)
    ensures
        match bearer_of_request(authorization) {
            Some(token) => res matches Ok(t) && t@ == token,
            None => res matches Err(e) && is_not_logged_in(e),
        },
{
    let header = match authorization {
        Some(header) => header,
        None => {
            return Err(ApiError::new(ErrorKind::Unauthorized, "You are not logged in"));
        },
    };
    let prefix = "Bearer ";
    proof {
        reveal_strlit("Bearer ");
    }
    let length = header.unicode_len();
    if length < 7 {
        return Err(ApiError::new(ErrorKind::Unauthorized, "You are not logged in"));
    }
    let mut i: usize = 0;
    while i < 7
        invariant
            i <= 7 <= length == header@.len(),
            authorization == Some(header),
            prefix@ == seq!['B', 'e', 'a', 'r', 'e', 'r', ' '],
            forall|j: int| 0 <= j < i ==> header@[j] == prefix@[j],
        decreases 7 - i,
    {
        if header.get_char(i) != prefix.get_char(i) {
            return Err(ApiError::new(ErrorKind::Unauthorized, "You are not logged in"));
        }
        i += 1;
    }
    proof {
        assert(header@.subrange(0, 7) =~= prefix@);
    }
    Ok(header.substring_char(7, length))
}

/// Checks the credentials of a registration, given whether their username
/// is taken: an empty username is `InvalidInput`, a taken one `Conflict`, and
/// an empty password `InvalidInput`, in that order.
pub fn check_registration(info: &UserInfo, taken: bool) -> (res: Result<(), ApiError>)
    ensures
        match credentials_refusal(info.username@, info.password@, taken) {
            Some(kind) => res matches Err(e) && e.kind == kind,
            None => res is Ok,
        },
{
    if info.username.as_str().unicode_len() == 0 {
        return Err(ApiError::new(ErrorKind::InvalidInput, "Username must not be empty"));
    }
    if taken {
        return Err(username_taken());
    }
    if info.password.as_str().unicode_len() == 0 {
        return Err(ApiError::new(ErrorKind::InvalidInput, "Password must not be empty"));
    }
    Ok(())
}

/// The failure of a registration under a username that is taken.
pub fn username_taken() -> (e: ApiError)
    ensures
        e.kind == ErrorKind::Conflict,
        e.message@ == "Username already exists"@,
{
    ApiError::new(ErrorKind::Conflict, "Username already exists")
}

/// The failure of a request whose token is not accepted.
pub fn invalid_token() -> (e: ApiError)
    ensures
        is_invalid_token(e),
{
    ApiError::new(ErrorKind::Unauthorized, "Invalid token")
}

/// Registers a user. An empty username is refused as `InvalidInput`, a
/// taken one as `Conflict` and an empty password as `InvalidInput`, in that
/// order and before anything is hashed; a refused registration leaves the
/// table as it was. Otherwise the password is hashed under a fresh salt and
/// the user stored with the hash under the next id. That succeeds for every
/// password that the hasher takes; where the hasher makes no hash, the
/// registration fails as `InternalError`.
pub fn register(store: &mut UserStore, info: UserInfo) -> (res: Result<User, ApiError>)
    requires
        old(store).wf(),
    ensures
        final(store).wf(),
        match registration_refusal(old(store).rows(), old(store).next_id(), info.username@, info.password@) {
            Some(kind) => res matches Err(e) && e.kind == kind,
            None => {
                &&& res matches Err(e) ==> e.kind == ErrorKind::InternalError
                &&& exists|salt: Seq<char>| #[trigger] argon2_phc(info.password@, salt) == stored_hash(res)
                &&& is_hashable(info.password@) ==> res is Ok
            },
        },
        match res {
            Ok(user) => {
                &&& user@.id == old(store).next_id()
                &&& user@.username == info.username@
                &&& argon2_verdict(info.password@, user@.password) == Some(true)
                &&& final(store).rows() == old(store).rows().push(user@)
                &&& final(store).next_id() == old(store).next_id() + 1
            },
            Err(_) => final(store).rows() == old(store).rows() && final(store).next_id() == old(
                store,
            ).next_id(),
        },
{
    let taken = store.contains_username(info.username.as_str());
    match check_registration(&info, taken) {
        Ok(_) => {},
        Err(e) => {
            return Err(e);
        },
    }
    if store.is_full() {
        return Err(ApiError::new(ErrorKind::InternalError, "No user id is left"));
    }
    let hashed = hash_password(info.password.as_str());
    let ghost salt = choose|salt: Seq<char>| is_hash_under(info.password@, salt, hashed);
    let res = match hashed {
        Ok(hash) => store.insert(info.username, hash),
        Err(e) => Err(e),
    };
    assert(argon2_phc(info.password@, salt) == stored_hash(res));
    res
}

/// Decides a login once the user is found and the password checked: the user
/// where the password matches, the login failure where it does not, and the
/// failure of the check where the check itself failed.
pub fn admit_user(user: User, check: Result<bool, ApiError>) -> (res: Result<User, ApiError>)
    ensures
        match check {
            Ok(true) => res == Ok::<User, ApiError>(user),
            Ok(false) => res matches Err(e) && is_forbidden(e),
            Err(failure) => res == Err::<User, ApiError>(failure),
        },
{
    match check {
        Ok(true) => Ok(user),
        Ok(false) => Err(ApiError::new(ErrorKind::Forbidden, "Forbidden")),
        Err(failure) => Err(failure),
    }
}

/// Checks a password against the user that was found under the username, if
/// one was. An unknown user and a wrong password give the same failure.
pub fn authenticate_found(found: Option<User>, password: &str) -> (res: Result<User, ApiError>)
    ensures
        match outcome_for(user_view_of(found), password@) {
            LoginOutcome::Granted(user) => res matches Ok(granted) && granted@ == user,
            LoginOutcome::Refused => res matches Err(e) && is_forbidden(e),
            LoginOutcome::Broken => res matches Err(e) && e.kind == ErrorKind::InternalError,
        },
{
    match found {
        Some(user) => {
            let check = verify_password(password, user.password.as_str());
            admit_user(user, check)
        },
        None => Err(ApiError::new(ErrorKind::Forbidden, "Forbidden")),
    }
}

/// Finds the user of these credentials and checks the password against the
/// stored hash.
pub fn authenticate(store: &UserStore, username: &str, password: &str) -> (res: Result<User, ApiError>)
    requires
        store.wf(),
    ensures
        match login_outcome(store.rows(), username@, password@) {
            LoginOutcome::Granted(user) => res matches Ok(found) && found@ == user,
            LoginOutcome::Refused => res matches Err(e) && is_forbidden(e),
            LoginOutcome::Broken => res matches Err(e) && e.kind == ErrorKind::InternalError,
        },
{
    authenticate_found(store.find_by_username(username), password)
}

/// Logs a user in at a given time: where the credentials are granted, the
/// outcome is that of issuing a token to that user's id at `now`, valid for
/// seven days. A granted login succeeds wherever that expiry can be written.
pub fn login_at(store: &UserStore, info: &UserInfo, now: i64, secret: &str) -> (res: Result<String, ApiError>)
    requires
        store.wf(),
    ensures
        match login_outcome(store.rows(), info.username@, info.password@) {
            LoginOutcome::Granted(user) => {
                &&& res is Ok <==> claims_at(user.id as i32, now as int) is Some
                &&& is_issue_of(res, issued_at(user.id as i32, now as int, secret@))
            },
            LoginOutcome::Refused => res matches Err(e) && is_forbidden(e),
            LoginOutcome::Broken => res matches Err(e) && e.kind == ErrorKind::InternalError,
        },
{
    match authenticate(store, info.username.as_str(), info.password.as_str()) {
        Ok(user) => issue_token_at(user.id, now, secret),
        Err(e) => Err(e),
    }
}

/// Logs a user in now: where the credentials are granted, the outcome is
/// that of issuing a token to that user's id at some moment, the one that
/// the clock gave, and the login succeeds wherever a `usize` is wide enough
/// for the expiry of every such moment.
pub fn login(store: &UserStore, info: &UserInfo, secret: &str) -> (res: Result<String, ApiError>)
    requires
        store.wf(),
    ensures
        match login_outcome(store.rows(), info.username@, info.password@) {
            LoginOutcome::Granted(user) => {
                &&& expiry_always_fits() ==> res is Ok
                &&& exists|now: i64|
                    is_clock_reading(now) && is_issue_of(
                        res,
                        #[trigger] issued_at(user.id as i32, now as int, secret@),
                    )
            },
            LoginOutcome::Refused => res matches Err(e) && is_forbidden(e),
            LoginOutcome::Broken => res matches Err(e) && e.kind == ErrorKind::InternalError,
        },
{
    match authenticate(store, info.username.as_str(), info.password.as_str()) {
        Ok(user) => {
            let res = issue_token(user.id, secret);
            proof {
                let now = choose|now: i64|
                    is_clock_reading(now) && is_issue_of(res, #[trigger] issued_at(user.id, now as int, secret@));
                assert(is_issue_of(res, issued_at(user@.id as i32, now as int, secret@)));
            }
            res
        },
        Err(e) => Err(e),
    }
}

/// Admits the user that was found under the id of a token's claims; where
/// none was found the token is invalid.
pub fn admit_found(found: Option<User>) -> (res: Result<User, ApiError>)
    ensures
        match found {
            Some(user) => res == Ok::<User, ApiError>(user),
            None => res matches Err(e) && is_invalid_token(e),
        },
{
    match found {
        Some(user) => Ok(user),
        None => Err(invalid_token()),
    }
}

/// Admits the user that a token's claims name. Without claims, or where the
/// user no longer exists, the token is invalid.
pub fn authorize(store: &UserStore, claims: Option<JwtClaims>) -> (res: Result<User, ApiError>)
    requires
        store.wf(),
    ensures
        match admitted(store.rows(), claims) {
            Some(user) => res matches Ok(found) && found@ == user,
            None => res matches Err(e) && is_invalid_token(e),
        },
{
    let found = match claims {
        Some(c) => store.find_by_id(c.user_id),
        None => None,
    };
    admit_found(found)
}

/// Checks a token and admits its user: the user that the token's claims
/// name, which for a token that was issued here is the user it was issued
/// to. Every failure, whether the token is expired, malformed or badly
/// signed or its user gone, is the same `Unauthorized` failure; a token whose
/// claims name no user of the table is never admitted.
pub fn validate_token(store: &UserStore, token: &str, secret: &str) -> (res: Result<User, ApiError>)
    requires
        store.wf(),
    ensures
        match res {
            Ok(user) => {
                &&& admitted_by(store.rows(), token@, secret@) == Some(user@)
                &&& user_with_id(store.rows(), user@.id) == Some(user@)
                &&& forall|issued: JwtClaims|
                    #[trigger] token_of(issued, secret@) == Some(token@) ==> user@.id == issued.user_id
            },
            Err(e) => is_invalid_token(e),
        },
        admitted_by(store.rows(), token@, secret@) is None ==> res is Err,
{
    authorize(store, decode_token(token, secret))
}

/// Guards a request: takes the bearer token out of the `Authorization` header
/// and admits its user, the one that the token's claims name. A request
/// without a bearer token is not logged in; one whose token is not accepted,
/// or names no user of the table, has an invalid token.
pub fn middleware(store: &UserStore, authorization: Option<&str>, secret: &str) -> (res: Result<
    User,
    ApiError,
>)
    requires
        store.wf(),
    ensures
        match res {
            Ok(user) => {
                &&& bearer_of_request(authorization) matches Some(token) && admitted_by(
                    store.rows(),
                    token,
                    secret@,
                ) == Some(user@)
                &&& user_with_id(store.rows(), user@.id) == Some(user@)
                &&& forall|issued: JwtClaims|
                    #[trigger] token_of(issued, secret@) == bearer_of_request(authorization) ==> user@.id
                        == issued.user_id
            },
            Err(e) => if bearer_of_request(authorization) is None {
                is_not_logged_in(e)
            } else {
                is_invalid_token(e)
            },
        },
{
    match bearer_token(authorization) {
        Ok(token) => validate_token(store, token, secret),
        Err(e) => Err(e),
    }
}

/// The profile of the logged-in user: the user with the videos they
/// published, in the order of publication.
pub fn me(user: User, videos: &VideoStore) -> (profile: UserWithVideos)
    ensures
        profile@.user == user@,
        profile@.videos == videos_of(videos.rows(), user.id as int),
{
    let published = videos.by_author(user.id);
    UserWithVideos { user, videos: published }
}

/// A user that registers can log in: once a registration that was not refused
/// has stored the hash of its password, a login with the same credentials is
/// granted, to the user that was stored.
pub proof fn lemma_register_then_login(
    rows: Seq<UserView>,
    next_id: int,
    username: Seq<char>,
    password: Seq<char>,
    hash: Seq<char>,
)
    requires
        valid_users(rows, next_id),
        registration_refusal(rows, next_id, username, password) is None,
        argon2_verdict(password, hash) == Some(true),
    ensures
        ({
            let user = UserView { id: next_id, username, password: hash };
            &&& valid_users(rows.push(user), next_id + 1)
            &&& login_outcome(rows.push(user), username, password) == LoginOutcome::Granted(user)
        }),
{
    let user = UserView { id: next_id, username, password: hash };
    let after = rows.push(user);
    assert forall|i: int, j: int| 0 <= i < j < after.len() implies (#[trigger] after[i]).username != (
    #[trigger] after[j]).username by {}
    crate::users::lemma_user_named(after, next_id + 1, rows.len() as int);
}

/// A taken username stays taken by one user: a registration under it with
/// any password is refused as a conflict, whatever else may be wrong.
pub proof fn lemma_duplicate_is_refused(
    rows: Seq<UserView>,
    next_id: int,
    username: Seq<char>,
    password: Seq<char>,
)
    requires
        valid_users(rows, next_id),
        is_taken(rows, username),
    ensures
        registration_refusal(rows, next_id, username, password) == Some(ErrorKind::Conflict),
{
}

} // verus!
