use worktrack::auth::{
    authenticate_user, calculate_expiration, claims_accepted, create_token_for_user, create_user,
    init_token_cache, init_users_db, login_user, login_user_at, register_user, verify_token,
    verify_token_at, AuthError,
};

const SECRET: &str = "test-signing-secret";

#[test]
fn register_twice_keeps_first_password() {
    let mut db = init_users_db();
    assert_eq!(register_user(&mut db, "alice", "pw"), Ok(()));
    assert_eq!(register_user(&mut db, "alice", "pw2"), Err(AuthError::AlreadyExists));
    let user = authenticate_user(&db, "alice", "pw").unwrap();
    assert_eq!(user.password, "pw");
    assert_eq!(authenticate_user(&db, "alice", "pw2").unwrap_err(), AuthError::InvalidCredentials);
}

#[test]
fn login_twice_returns_same_token() {
    let mut db = init_users_db();
    let mut cache = init_token_cache();
    register_user(&mut db, "alice", "pw").unwrap();
    let first = login_user(&db, &mut cache, SECRET, "alice", "pw").unwrap();
    let second = login_user(&db, &mut cache, SECRET, "alice", "pw").unwrap();
    assert_eq!(first, second);
}

#[test]
fn cached_token_survives_a_later_clock() {
    let mut db = init_users_db();
    let mut cache = init_token_cache();
    register_user(&mut db, "bob", "secret").unwrap();
    let first = login_user_at(&db, &mut cache, SECRET, "bob", "secret", 1_000).unwrap();
    let later = login_user_at(&db, &mut cache, SECRET, "bob", "secret", 9_000_000).unwrap();
    assert_eq!(first, later);
}

#[test]
fn login_rejects_unknown_user_and_wrong_password() {
    let mut db = init_users_db();
    let mut cache = init_token_cache();
    register_user(&mut db, "alice", "pw").unwrap();
    assert_eq!(
        login_user(&db, &mut cache, SECRET, "carol", "pw"),
        Err(AuthError::InvalidCredentials)
    );
    assert_eq!(
        login_user(&db, &mut cache, SECRET, "alice", "PW"),
        Err(AuthError::InvalidCredentials)
    );
}

#[test]
fn failed_login_caches_nothing() {
    let mut db = init_users_db();
    let mut cache = init_token_cache();
    register_user(&mut db, "alice", "pw").unwrap();
    assert!(login_user_at(&db, &mut cache, SECRET, "alice", "bad", 100).is_err());
    let token = login_user_at(&db, &mut cache, SECRET, "alice", "pw", 100).unwrap();
    let fresh = create_token_for_user(&create_user("alice", "pw"), SECRET, 100).unwrap();
    assert_eq!(token, fresh);
}

#[test]
fn users_get_distinct_tokens() {
    let mut db = init_users_db();
    let mut cache = init_token_cache();
    register_user(&mut db, "alice", "pw").unwrap();
    register_user(&mut db, "bob", "pw").unwrap();
    let a = login_user_at(&db, &mut cache, SECRET, "alice", "pw", 100).unwrap();
    let b = login_user_at(&db, &mut cache, SECRET, "bob", "pw", 100).unwrap();
    assert_ne!(a, b);
}

#[test]
fn token_is_a_signed_jwt() {
    let user = create_user("alice", "pw");
    let token = create_token_for_user(&user, SECRET, 1_700_000_000).unwrap();
    assert_eq!(token.split('.').count(), 3);
    assert_ne!(token, "alice");
    let other_key = create_token_for_user(&user, "another-secret", 1_700_000_000).unwrap();
    assert_ne!(token, other_key);
    let later = create_token_for_user(&user, SECRET, 1_700_000_001).unwrap();
    assert_ne!(token, later);
}

#[test]
fn token_expiry_out_of_range() {
    let user = create_user("alice", "pw");
    assert_eq!(
        create_token_for_user(&user, SECRET, i64::MIN),
        Err(AuthError::ExpiryOutOfRange)
    );
    assert_eq!(
        create_token_for_user(&user, SECRET, -86_401),
        Err(AuthError::ExpiryOutOfRange)
    );
}

#[test]
fn expiration_adds_whole_days() {
    assert_eq!(calculate_expiration(0, 1), Some(86_400));
    assert_eq!(calculate_expiration(1_700_000_000, 1), Some(1_700_086_400));
    assert_eq!(calculate_expiration(100, 0), Some(100));
    assert_eq!(calculate_expiration(86_400, -1), Some(0));
    assert_eq!(calculate_expiration(86_399, -1), None);
    assert_eq!(calculate_expiration(i64::MAX, 1), Some(i64::MAX as u64 + 86_400));
    assert_eq!(calculate_expiration(i64::MAX, i64::MAX), None);
}

#[test]
fn fresh_token_verifies_until_expiry() {
    let user = create_user("alice", "pw");
    let token = create_token_for_user(&user, SECRET, 1_000).unwrap();
    assert!(verify_token_at(&token, SECRET, 1_000));
    assert!(verify_token_at(&token, SECRET, 87_399));
    assert!(!verify_token_at(&token, SECRET, 87_400));
    assert!(!verify_token_at(&token, "wrong-secret", 1_000));
    assert!(!verify_token_at("not.a.token", SECRET, 1_000));
    assert!(!verify_token_at("", SECRET, 1_000));
}

#[test]
fn token_from_login_verifies_now() {
    let mut db = init_users_db();
    let mut cache = init_token_cache();
    register_user(&mut db, "alice", "pw").unwrap();
    let token = login_user(&db, &mut cache, SECRET, "alice", "pw").unwrap();
    assert!(verify_token(&token, SECRET));
    assert!(!verify_token(&token, "wrong-secret"));
}

#[test]
fn claims_accepted_compares_expiry() {
    assert!(claims_accepted(&Some(("alice".to_string(), 10)), 9));
    assert!(!claims_accepted(&Some(("alice".to_string(), 10)), 10));
    assert!(claims_accepted(&Some(("alice".to_string(), 0)), -1));
    assert!(!claims_accepted(&None, 0));
}

#[test]
fn create_user_copies_fields() {
    let user = create_user("dana", "hunter2");
    assert_eq!(user.username, "dana");
    assert_eq!(user.password, "hunter2");
}

#[test]
fn same_inputs_give_same_token() {
    let a = create_token_for_user(&create_user("erin", "x"), SECRET, 1_234_567);
    let b = create_token_for_user(&create_user("erin", "other password"), SECRET, 1_234_567);
    assert!(a.is_ok());
    assert_eq!(a, b);
    let token = a.unwrap();
    assert!(verify_token_at(&token, SECRET, 1_234_567));
    assert!(!verify_token_at(&token, SECRET, 1_234_567 + 86_400));
}
