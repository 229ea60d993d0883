use srv::auth::{adduser, check_admin, countuser, db_adduser, db_login, login};
use srv::crypto::{hash_password, verify_password};
use srv::models::{AddUserRequest, AuthRequest};
use srv::store::Catalog;

const DAY: i64 = 86400;

fn seeded_store(now: i64) -> Catalog {
    let mut store = Catalog::new();
    let resp = db_adduser(
        &mut store,
        AddUserRequest {
            username: "root".to_string(),
            password: "hunter2".to_string(),
            token: "".to_string(),
        },
        now,
        "salt-root".to_string(),
    );
    assert!(resp.success);
    store
}

#[test]
fn bootstrap_first_user_succeeds_and_is_admin() {
    let now: i64 = 1_000_000;
    let mut store = seeded_store(now);
    assert_eq!(countuser(&store).message, 1);
    // the bootstrap user can log in and its token carries admin privilege
    let auth = db_login(
        &mut store,
        AuthRequest { username: "root".to_string(), password: "hunter2".to_string() },
        now,
        "token-1".to_string(),
    );
    assert!(auth.access);
    assert_eq!(auth.token, Some("token-1".to_string()));
    assert!(check_admin(&store, &"token-1".to_string(), now));
}

#[test]
fn second_user_without_valid_token_fails() {
    let now: i64 = 1_000_000;
    let mut store = seeded_store(now);
    let resp = db_adduser(
        &mut store,
        AddUserRequest {
            username: "mallory".to_string(),
            password: "pw".to_string(),
            token: "made-up".to_string(),
        },
        now,
        "salt-m".to_string(),
    );
    assert!(!resp.success);
    assert_eq!(resp.message, "Invalid token");
    assert_eq!(countuser(&store).message, 1);
}

#[test]
fn second_user_with_admin_token_is_not_auto_admin() {
    let now: i64 = 1_000_000;
    let mut store = seeded_store(now);
    let auth = db_login(
        &mut store,
        AuthRequest { username: "root".to_string(), password: "hunter2".to_string() },
        now,
        "token-1".to_string(),
    );
    let token = auth.token.unwrap();
    let resp = db_adduser(
        &mut store,
        AddUserRequest {
            username: "alice".to_string(),
            password: "wonder".to_string(),
            token: token.clone(),
        },
        now,
        "salt-a".to_string(),
    );
    assert!(resp.success);
    assert_eq!(countuser(&store).message, 2);
    // the new user's own session is not an admin session
    let auth2 = db_login(
        &mut store,
        AuthRequest { username: "alice".to_string(), password: "wonder".to_string() },
        now,
        "token-2".to_string(),
    );
    assert!(auth2.access);
    assert!(!check_admin(&store, &"token-2".to_string(), now));
    assert!(check_admin(&store, &token, now));
}

#[test]
fn login_with_wrong_password_or_unknown_user_fails() {
    let now: i64 = 1_000_000;
    let mut store = seeded_store(now);
    let bad = db_login(
        &mut store,
        AuthRequest { username: "root".to_string(), password: "wrong".to_string() },
        now,
        "token-x".to_string(),
    );
    assert!(!bad.access);
    assert_eq!(bad.token, None);
    let unknown = db_login(
        &mut store,
        AuthRequest { username: "nobody".to_string(), password: "hunter2".to_string() },
        now,
        "token-y".to_string(),
    );
    assert!(!unknown.access);
    assert_eq!(unknown.token, None);
}

#[test]
fn login_reuses_live_token_and_rotates_expired_one() {
    let now: i64 = 1_000_000;
    let mut store = seeded_store(now);
    let first = db_login(
        &mut store,
        AuthRequest { username: "root".to_string(), password: "hunter2".to_string() },
        now,
        "token-1".to_string(),
    );
    assert_eq!(first.token, Some("token-1".to_string()));
    // a second login within the validity window reuses the stored token
    let again = db_login(
        &mut store,
        AuthRequest { username: "root".to_string(), password: "hunter2".to_string() },
        now + 6 * DAY,
        "token-2".to_string(),
    );
    assert_eq!(again.token, Some("token-1".to_string()));
    // once expired, the fresh token replaces it
    let rotated = db_login(
        &mut store,
        AuthRequest { username: "root".to_string(), password: "hunter2".to_string() },
        now + 8 * DAY,
        "token-3".to_string(),
    );
    assert_eq!(rotated.token, Some("token-3".to_string()));
}

#[test]
fn expired_session_is_treated_as_no_session() {
    let now: i64 = 1_000_000;
    let mut store = seeded_store(now);
    let auth = db_login(
        &mut store,
        AuthRequest { username: "root".to_string(), password: "hunter2".to_string() },
        now,
        "token-1".to_string(),
    );
    let token = auth.token.unwrap();
    assert!(check_admin(&store, &token, now + 6 * DAY));
    // exactly seven days on, the session is no longer live
    assert!(!check_admin(&store, &token, now + 7 * DAY));
    assert!(!check_admin(&store, &token, now + 30 * DAY));
    // an expired session decides exactly as a missing one does
    assert_eq!(
        check_admin(&store, &token, now + 7 * DAY),
        check_admin(&Catalog::new(), &token, now + 7 * DAY),
    );
}

#[test]
fn duplicate_username_is_a_quiet_write_failure() {
    let now: i64 = 1_000_000;
    let mut store = seeded_store(now);
    let auth = db_login(
        &mut store,
        AuthRequest { username: "root".to_string(), password: "hunter2".to_string() },
        now,
        "token-1".to_string(),
    );
    let token = auth.token.unwrap();
    let resp = db_adduser(
        &mut store,
        AddUserRequest {
            username: "root".to_string(),
            password: "other".to_string(),
            token,
        },
        now,
        "salt-dup".to_string(),
    );
    // reported as success, but nothing was written
    assert!(resp.success);
    assert_eq!(countuser(&store).message, 1);
}

#[test]
fn password_hash_round_trip() {
    let stored = hash_password("hunter2", "salt-root");
    assert_eq!(stored.len(), 64);
    assert!(stored.chars().all(|c| c.is_ascii_hexdigit() && !c.is_ascii_uppercase()));
    assert!(verify_password("hunter2", "salt-root", &stored));
    assert!(!verify_password("hunter3", "salt-root", &stored));
    // the same password under another salt derives another hash
    let other = hash_password("hunter2", "salt-else");
    assert_ne!(stored, other);
    assert!(!verify_password("hunter2", "salt-else", &stored));
}

#[test]
fn clock_based_adduser_and_login_work_end_to_end() {
    let mut store = Catalog::new();
    let resp = adduser(
        &mut store,
        AddUserRequest {
            username: "root".to_string(),
            password: "hunter2".to_string(),
            token: "".to_string(),
        },
    );
    assert!(resp.success);
    let auth = login(
        &mut store,
        AuthRequest { username: "root".to_string(), password: "hunter2".to_string() },
    );
    assert!(auth.access);
    // a fresh session token is a hyphenated UUID
    let token = auth.token.unwrap();
    assert_eq!(token.len(), 36);
}
