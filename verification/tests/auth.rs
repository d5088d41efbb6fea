use video_backend::auth::{
    admit_user, authenticate, authorize, bearer_token, check_registration, login, login_at, me, middleware,
    register, validate_token, UserInfo,
};
use video_backend::errors::{ApiError, ErrorKind};
use video_backend::models::{NewVideo, User};
use video_backend::password::{hash_password, hash_password_with_salt, verify_password};
use video_backend::token::{
    claims_for, claims_from_fields, decode_token, issue_token, issue_token_at, sign, JwtClaims,
    TOKEN_LIFETIME_SECONDS,
};
use video_backend::users::UserStore;
use video_backend::videos::VideoStore;

const SECRET: &str = "a-server-secret";

fn info(username: &str, password: &str) -> UserInfo {
    UserInfo { username: username.to_string(), password: password.to_string() }
}

fn now() -> i64 {
    std::time::SystemTime::now().duration_since(std::time::UNIX_EPOCH).unwrap().as_secs() as i64
}

fn forbidden() -> ApiError {
    ApiError { kind: ErrorKind::Forbidden, message: "Forbidden".to_string() }
}

fn invalid_token() -> ApiError {
    ApiError { kind: ErrorKind::Unauthorized, message: "Invalid token".to_string() }
}

fn not_logged_in() -> ApiError {
    ApiError { kind: ErrorKind::Unauthorized, message: "You are not logged in".to_string() }
}

#[test]
fn hash_is_a_phc_string_and_not_the_password() {
    let hash = hash_password("pw123").unwrap();
    assert_ne!(hash, "pw123");
    assert!(hash.starts_with("$argon2id$v=19$"));
    assert!(!hash.contains("pw123"));
}

#[test]
fn equal_passwords_get_different_hashes() {
    let a = hash_password("pw123").unwrap();
    let b = hash_password("pw123").unwrap();
    assert_ne!(a, b);
}

#[test]
fn hash_depends_on_password_and_salt_alone() {
    let a = hash_password_with_salt("pw123", "c29tZXNhbHRzb21lc2FsdA").unwrap();
    let b = hash_password_with_salt("pw123", "c29tZXNhbHRzb21lc2FsdA").unwrap();
    let c = hash_password_with_salt("pw123", "b3RoZXJzYWx0b3RoZXJzYQ").unwrap();
    assert_eq!(a, b);
    assert_ne!(a, c);
    assert!(a.contains("$c29tZXNhbHRzb21lc2FsdA$"));
}

#[test]
fn a_bad_salt_is_an_internal_error() {
    let e = hash_password_with_salt("pw123", "not a salt!").unwrap_err();
    assert_eq!(e.kind, ErrorKind::InternalError);
}

#[test]
fn verify_accepts_the_password_and_no_other() {
    let hash = hash_password("pw123").unwrap();
    assert_eq!(verify_password("pw123", &hash), Ok(true));
    assert_eq!(verify_password("pw124", &hash), Ok(false));
    assert_eq!(verify_password("", &hash), Ok(false));
}

#[test]
fn verify_against_what_is_no_hash_is_an_internal_error() {
    let e = verify_password("pw123", "pw123").unwrap_err();
    assert_eq!(e.kind, ErrorKind::InternalError);
    let e = verify_password("pw123", "").unwrap_err();
    assert_eq!(e.kind, ErrorKind::InternalError);
}

#[test]
fn claims_expire_seven_days_after_issue() {
    assert_eq!(TOKEN_LIFETIME_SECONDS, 7 * 24 * 60 * 60);
    assert_eq!(claims_for(5, 1_700_000_000), Some(JwtClaims { user_id: 5, exp: 1_700_604_800 }));
    assert_eq!(claims_for(-3, 0), Some(JwtClaims { user_id: -3, exp: 604_800 }));
    assert_eq!(claims_for(1, -604_800), Some(JwtClaims { user_id: 1, exp: 0 }));
}

#[test]
fn claims_need_an_expiry_that_can_be_written() {
    assert_eq!(claims_for(1, -604_801), None);
    assert_eq!(claims_for(1, i64::MIN), None);
    assert_eq!(claims_for(1, i64::MAX), None);
    assert_eq!(claims_for(1, i64::MAX - 604_799), None);
}

#[test]
fn decoded_fields_become_claims_within_range() {
    assert_eq!(claims_from_fields(Some(7), Some(99)), Some(JwtClaims { user_id: 7, exp: 99 }));
    assert_eq!(
        claims_from_fields(Some(i32::MAX as i64), Some(0)),
        Some(JwtClaims { user_id: i32::MAX, exp: 0 })
    );
    assert_eq!(
        claims_from_fields(Some(i32::MIN as i64), Some(1)),
        Some(JwtClaims { user_id: i32::MIN, exp: 1 })
    );
    assert_eq!(claims_from_fields(Some(i32::MAX as i64 + 1), Some(0)), None);
    assert_eq!(claims_from_fields(Some(i32::MIN as i64 - 1), Some(0)), None);
    assert_eq!(claims_from_fields(None, Some(0)), None);
    assert_eq!(claims_from_fields(Some(1), None), None);
    assert_eq!(claims_from_fields(None, None), None);
}

#[test]
fn a_token_has_three_parts_and_decodes_to_its_claims() {
    let issued = now();
    let token = issue_token_at(42, issued, SECRET).unwrap();
    assert_eq!(token.split('.').count(), 3);
    assert_ne!(token, SECRET);
    let claims = decode_token(&token, SECRET).unwrap();
    assert_eq!(claims, JwtClaims { user_id: 42, exp: (issued + 604_800) as usize });
}

#[test]
fn signing_depends_on_claims_and_secret_alone() {
    let claims = JwtClaims { user_id: 1, exp: 2_000_000_000 };
    let a = sign(&claims, SECRET).unwrap();
    let b = sign(&claims, SECRET).unwrap();
    let c = sign(&claims, "another-secret").unwrap();
    let d = sign(&JwtClaims { user_id: 2, exp: 2_000_000_000 }, SECRET).unwrap();
    assert_eq!(a, b);
    assert_ne!(a, c);
    assert_ne!(a, d);
}

#[test]
fn a_token_under_another_secret_is_not_accepted() {
    let token = issue_token(42, SECRET).unwrap();
    assert_eq!(decode_token(&token, "another-secret"), None);
}

#[test]
fn an_expired_token_is_not_accepted() {
    let token = issue_token_at(42, now() - 604_800 - 3600, SECRET).unwrap();
    assert_eq!(decode_token(&token, SECRET), None);
}

#[test]
fn a_malformed_token_is_not_accepted() {
    assert_eq!(decode_token("", SECRET), None);
    assert_eq!(decode_token("abc", SECRET), None);
    assert_eq!(decode_token("a.b.c", SECRET), None);
}

#[test]
fn a_tampered_token_is_not_accepted() {
    let token = issue_token(42, SECRET).unwrap();
    let other = issue_token(43, SECRET).unwrap();
    let mut parts: Vec<&str> = token.split('.').collect();
    let other_parts: Vec<&str> = other.split('.').collect();
    parts[1] = other_parts[1];
    assert_eq!(decode_token(&parts.join("."), SECRET), None);
}

#[test]
fn token_issue_fails_where_the_expiry_cannot_be_written() {
    let e = issue_token_at(1, i64::MAX, SECRET).unwrap_err();
    assert_eq!(e.kind, ErrorKind::InternalError);
    let e = issue_token_at(1, -1_000_000, SECRET).unwrap_err();
    assert_eq!(e.kind, ErrorKind::InternalError);
}

#[test]
fn bearer_token_is_what_follows_the_prefix() {
    assert_eq!(bearer_token(Some("Bearer abc.def.ghi")), Ok("abc.def.ghi"));
    assert_eq!(bearer_token(Some("Bearer ")), Ok(""));
    assert_eq!(bearer_token(Some("Bearer  spaced")), Ok(" spaced"));
    assert_eq!(bearer_token(Some("Bearer Bearer x")), Ok("Bearer x"));
    assert_eq!(bearer_token(Some("Bearer tökén")), Ok("tökén"));
}

#[test]
fn without_the_prefix_the_request_is_not_logged_in() {
    assert_eq!(bearer_token(None), Err(not_logged_in()));
    assert_eq!(bearer_token(Some("")), Err(not_logged_in()));
    assert_eq!(bearer_token(Some("Bearer")), Err(not_logged_in()));
    assert_eq!(bearer_token(Some("bearer abc")), Err(not_logged_in()));
    assert_eq!(bearer_token(Some("Basic abc")), Err(not_logged_in()));
    assert_eq!(bearer_token(Some(" Bearer abc")), Err(not_logged_in()));
    assert_eq!(bearer_token(Some("Bearér abc")), Err(not_logged_in()));
}

#[test]
fn register_stores_the_user_with_a_hash() {
    let mut users = UserStore::new();
    let alice = register(&mut users, info("alice", "pw123")).unwrap();
    assert_eq!(alice.id, 1);
    assert_eq!(alice.username, "alice");
    assert_ne!(alice.password, "pw123");
    assert_eq!(verify_password("pw123", &alice.password), Ok(true));
    assert_eq!(users.len(), 1);
    assert_eq!(users.find_by_username("alice"), Some(alice.clone()));
    assert_eq!(users.find_by_id(1), Some(alice));
    let bob = register(&mut users, info("bob", "hunter2")).unwrap();
    assert_eq!(bob.id, 2);
    assert_eq!(users.len(), 2);
}

#[test]
fn register_refuses_a_taken_username() {
    let mut users = UserStore::new();
    let alice = register(&mut users, info("alice", "pw123")).unwrap();
    let e = register(&mut users, info("alice", "other")).unwrap_err();
    assert_eq!(e.kind, ErrorKind::Conflict);
    let e = register(&mut users, info("alice", "pw123")).unwrap_err();
    assert_eq!(e.kind, ErrorKind::Conflict);
    assert_eq!(users.len(), 1);
    assert_eq!(users.find_by_username("alice"), Some(alice));
    let bob = register(&mut users, info("bob", "pw")).unwrap();
    assert_eq!(bob.id, 2);
}

#[test]
fn register_refuses_empty_credentials() {
    let mut users = UserStore::new();
    assert_eq!(register(&mut users, info("", "pw123")).unwrap_err().kind, ErrorKind::InvalidInput);
    assert_eq!(register(&mut users, info("alice", "")).unwrap_err().kind, ErrorKind::InvalidInput);
    assert_eq!(register(&mut users, info("", "")).unwrap_err().kind, ErrorKind::InvalidInput);
    assert_eq!(users.len(), 0);
    register(&mut users, info("alice", "pw123")).unwrap();
    assert_eq!(register(&mut users, info("bob", "")).unwrap_err().kind, ErrorKind::InvalidInput);
    assert_eq!(users.len(), 1);
}

#[test]
fn a_taken_username_is_a_conflict_whatever_the_password() {
    let mut users = UserStore::new();
    let alice = register(&mut users, info("alice", "pw123")).unwrap();
    for password in ["", "pw123", "other", " "] {
        let e = register(&mut users, info("alice", password)).unwrap_err();
        assert_eq!(e.kind, ErrorKind::Conflict);
        assert_eq!(e.message, "Username already exists");
    }
    assert_eq!(users.len(), 1);
    assert_eq!(users.find_by_username("alice"), Some(alice));
}

#[test]
fn check_registration_tests_in_order() {
    assert_eq!(check_registration(&info("alice", "pw"), false), Ok(()));
    assert_eq!(check_registration(&info("", "pw"), false).unwrap_err().kind, ErrorKind::InvalidInput);
    assert_eq!(check_registration(&info("", ""), true).unwrap_err().kind, ErrorKind::InvalidInput);
    assert_eq!(check_registration(&info("alice", "pw"), true).unwrap_err().kind, ErrorKind::Conflict);
    assert_eq!(check_registration(&info("alice", ""), true).unwrap_err().kind, ErrorKind::Conflict);
    assert_eq!(check_registration(&info("alice", ""), false).unwrap_err().kind, ErrorKind::InvalidInput);
}

#[test]
fn a_token_issued_here_admits_the_user_it_was_issued_to() {
    let mut users = UserStore::new();
    register(&mut users, info("bob", "hunter2")).unwrap();
    let alice = register(&mut users, info("alice", "pw123")).unwrap();
    let carol = register(&mut users, info("carol", "pw789")).unwrap();
    let for_alice = format!("Bearer {}", login(&users, &info("alice", "pw123"), SECRET).unwrap());
    let for_carol = format!("Bearer {}", login(&users, &info("carol", "pw789"), SECRET).unwrap());
    assert_eq!(middleware(&users, Some(&for_alice), SECRET), Ok(alice));
    assert_eq!(middleware(&users, Some(&for_carol), SECRET), Ok(carol));
    let for_nobody = format!("Bearer {}", issue_token(4, SECRET).unwrap());
    assert_eq!(middleware(&users, Some(&for_nobody), SECRET), Err(invalid_token()));
}

#[test]
fn usernames_are_compared_exactly() {
    let mut users = UserStore::new();
    register(&mut users, info("alice", "pw")).unwrap();
    assert_eq!(register(&mut users, info("Alice", "pw")).unwrap().id, 2);
    assert_eq!(register(&mut users, info("alice ", "pw")).unwrap().id, 3);
    assert!(users.contains_username("alice"));
    assert!(!users.contains_username("alic"));
}

#[test]
fn user_store_insert_reports_each_refusal() {
    let mut users = UserStore::new();
    assert!(!users.is_full());
    let e = users.insert("".to_string(), "h".to_string()).unwrap_err();
    assert_eq!(e.kind, ErrorKind::InvalidInput);
    let user = users.insert("alice".to_string(), "stored-hash".to_string()).unwrap();
    assert_eq!(user, User { id: 1, username: "alice".to_string(), password: "stored-hash".to_string() });
    let e = users.insert("alice".to_string(), "h".to_string()).unwrap_err();
    assert_eq!(e.kind, ErrorKind::Conflict);
    assert_eq!(users.len(), 1);
    assert_eq!(users.find_by_username("bob"), None);
    assert_eq!(users.find_by_id(2), None);
}

#[test]
fn register_then_login_gives_a_token_for_that_user() {
    let mut users = UserStore::new();
    register(&mut users, info("bob", "hunter2")).unwrap();
    let alice = register(&mut users, info("alice", "pw123")).unwrap();
    let token = login(&users, &info("alice", "pw123"), SECRET).unwrap();
    let claims = decode_token(&token, SECRET).unwrap();
    assert_eq!(claims.user_id, alice.id);
    assert_eq!(validate_token(&users, &token, SECRET), Ok(alice));
}

#[test]
fn login_at_issues_the_token_of_that_moment() {
    let mut users = UserStore::new();
    let alice = register(&mut users, info("alice", "pw123")).unwrap();
    let issued = now();
    let token = login_at(&users, &info("alice", "pw123"), issued, SECRET).unwrap();
    assert_eq!(token, issue_token_at(alice.id, issued, SECRET).unwrap());
    assert_eq!(
        decode_token(&token, SECRET),
        Some(JwtClaims { user_id: alice.id, exp: (issued + 604_800) as usize })
    );
}

#[test]
fn login_fails_the_same_way_for_unknown_user_and_wrong_password() {
    let mut users = UserStore::new();
    register(&mut users, info("alice", "pw123")).unwrap();
    assert_eq!(login(&users, &info("alice", "wrong"), SECRET), Err(forbidden()));
    assert_eq!(login(&users, &info("nobody", "pw123"), SECRET), Err(forbidden()));
    assert_eq!(login(&users, &info("", ""), SECRET), Err(forbidden()));
    assert_eq!(authenticate(&users, "alice", "wrong"), Err(forbidden()));
    assert_eq!(authenticate(&users, "nobody", "pw123"), Err(forbidden()));
}

#[test]
fn login_against_a_broken_hash_is_an_internal_error() {
    let mut users = UserStore::new();
    users.insert("alice".to_string(), "plain".to_string()).unwrap();
    let e = login(&users, &info("alice", "plain"), SECRET).unwrap_err();
    assert_eq!(e.kind, ErrorKind::InternalError);
}

#[test]
fn admit_user_decides_on_the_check() {
    let user = User { id: 1, username: "alice".to_string(), password: "h".to_string() };
    assert_eq!(admit_user(user.clone(), Ok(true)), Ok(user.clone()));
    assert_eq!(admit_user(user.clone(), Ok(false)), Err(forbidden()));
    let failure = ApiError { kind: ErrorKind::InternalError, message: "bad hash".to_string() };
    assert_eq!(admit_user(user, Err(failure.clone())), Err(failure));
}

#[test]
fn authorize_admits_the_user_that_the_claims_name() {
    let mut users = UserStore::new();
    let alice = register(&mut users, info("alice", "pw123")).unwrap();
    assert_eq!(authorize(&users, Some(JwtClaims { user_id: 1, exp: 0 })), Ok(alice));
    assert_eq!(authorize(&users, Some(JwtClaims { user_id: 2, exp: 0 })), Err(invalid_token()));
    assert_eq!(authorize(&users, None), Err(invalid_token()));
}

#[test]
fn a_token_of_a_user_that_does_not_exist_is_invalid() {
    let users = UserStore::new();
    let token = issue_token(1, SECRET).unwrap();
    assert_eq!(validate_token(&users, &token, SECRET), Err(invalid_token()));
}

#[test]
fn middleware_guards_a_request() {
    let mut users = UserStore::new();
    let alice = register(&mut users, info("alice", "pw123")).unwrap();
    let token = login(&users, &info("alice", "pw123"), SECRET).unwrap();
    let header = format!("Bearer {}", token);
    assert_eq!(middleware(&users, Some(&header), SECRET), Ok(alice));
    assert_eq!(middleware(&users, None, SECRET), Err(not_logged_in()));
    assert_eq!(middleware(&users, Some(&token), SECRET), Err(not_logged_in()));
    assert_eq!(middleware(&users, Some("Bearer garbage"), SECRET), Err(invalid_token()));
    assert_eq!(middleware(&users, Some(&header), "another-secret"), Err(invalid_token()));
}

#[test]
fn me_lists_the_videos_of_the_user() {
    let mut users = UserStore::new();
    let alice = register(&mut users, info("alice", "pw123")).unwrap();
    let bob = register(&mut users, info("bob", "pw456")).unwrap();
    let mut videos = VideoStore::new();
    let new_video = |title: &str, author_id: i32| NewVideo {
        title: title.to_string(),
        description: String::new(),
        bucket: "k".to_string(),
        duration_seconds: 1,
        author_id,
    };
    let first = videos.insert(&users, new_video("first", alice.id), 10).unwrap();
    videos.insert(&users, new_video("bobs", bob.id), 11).unwrap();
    let third = videos.insert(&users, new_video("third", alice.id), 12).unwrap();
    let profile = me(alice.clone(), &videos);
    assert_eq!(profile.user, alice);
    assert_eq!(profile.videos, vec![first, third]);
    let empty = me(User { id: 99, username: "x".to_string(), password: "y".to_string() }, &videos);
    assert_eq!(empty.videos, vec![]);
}

#[test]
fn registration_and_login_succeed_for_credentials_in_order() {
    let mut users = UserStore::new();
    for (i, (name, password)) in [("alice", "pw123"), ("bob", " "), ("carol", "pässword ✓")].iter().enumerate() {
        let user = register(&mut users, info(name, password)).unwrap();
        assert_eq!(user.id, i as i32 + 1);
        let token = login(&users, &info(name, password), SECRET).unwrap();
        assert_eq!(decode_token(&token, SECRET).unwrap().user_id, user.id);
    }
    assert_eq!(users.len(), 3);
}
