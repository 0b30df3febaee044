use chat_auth::errors::{Error, VerifyError};
use chat_auth::hasher::{get_new_hashed_password, verify_password};
use chat_auth::manager::{authorize, handle_login, handle_signup, verify_csrf};
use chat_auth::store::CredentialStore;
use chat_auth::token::TokenProtector;

const PEPPER: &str = "site-wide-pepper";

fn test_key() -> [u8; 32] {
    let mut key = [0u8; 32];
    let mut i = 0;
    while i < 32 {
        key[i] = (i as u8).wrapping_mul(7).wrapping_add(3);
        i += 1;
    }
    key
}

#[test]
fn hash_then_verify_roundtrip() {
    let hash = get_new_hashed_password(PEPPER, "hunter2").expect("hashing failed");
    assert!(verify_password(&hash, "hunter2", PEPPER));
}

#[test]
fn verify_rejects_wrong_password() {
    let hash = get_new_hashed_password(PEPPER, "hunter2").expect("hashing failed");
    assert!(!verify_password(&hash, "hunter3", PEPPER));
}

#[test]
fn verify_rejects_wrong_pepper() {
    let hash = get_new_hashed_password(PEPPER, "hunter2").expect("hashing failed");
    assert!(!verify_password(&hash, "hunter2", "another-pepper"));
}

#[test]
fn verify_rejects_malformed_hash() {
    assert!(!verify_password("not a phc hash string", "hunter2", PEPPER));
}

#[test]
fn verify_rejects_mutated_hash() {
    let hash = get_new_hashed_password(PEPPER, "hunter2").expect("hashing failed");
    // Flip the final character of the encoded digest to a different one.
    let mut chars: Vec<char> = hash.chars().collect();
    let last = chars.len() - 1;
    chars[last] = if chars[last] == 'A' { 'B' } else { 'A' };
    let mutated: String = chars.into_iter().collect();
    if mutated != hash {
        assert!(!verify_password(&mutated, "hunter2", PEPPER));
    }
}

#[test]
fn issued_cookie_verifies() {
    let protector = TokenProtector::new(test_key());
    let (token, cookie) = protector.get_new_token_pair(3600).expect("issuance failed");
    assert_eq!(protector.verify_cookie(&cookie), Ok(()));
    assert_eq!(protector.verify_token_pair(&token, &cookie), Ok(()));
}

#[test]
fn elapsed_ttl_is_expired() {
    let protector = TokenProtector::new(test_key());
    let (_token, cookie) = protector.get_new_token_pair(-1).expect("issuance failed");
    assert_eq!(protector.verify_cookie(&cookie), Err(VerifyError::Expired));
}

#[test]
fn mutated_cookie_is_forged() {
    let protector = TokenProtector::new(test_key());
    let (_token, cookie) = protector.get_new_token_pair(3600).expect("issuance failed");
    // Swap the first character for a different base64 character: still
    // decodable, but the authentication tag check must fail.
    let mut chars: Vec<char> = cookie.chars().collect();
    chars[0] = if chars[0] == 'A' { 'B' } else { 'A' };
    let mutated: String = chars.into_iter().collect();
    assert_ne!(mutated, cookie);
    assert_eq!(protector.verify_cookie(&mutated), Err(VerifyError::Forged));
}

#[test]
fn undecodable_cookie_is_malformed() {
    let protector = TokenProtector::new(test_key());
    assert_eq!(protector.verify_cookie("!!! not base64 !!!"), Err(VerifyError::Malformed));
}

#[test]
fn cookie_under_other_key_is_forged() {
    let protector = TokenProtector::new(test_key());
    let other = TokenProtector::new([9u8; 32]);
    let (_token, cookie) = other.get_new_token_pair(3600).expect("issuance failed");
    assert_eq!(protector.verify_cookie(&cookie), Err(VerifyError::Forged));
}

#[test]
fn mismatched_pair_is_forged() {
    let protector = TokenProtector::new(test_key());
    let (token_a, _cookie_a) = protector.get_new_token_pair(3600).expect("issuance failed");
    let (_token_b, cookie_b) = protector.get_new_token_pair(3600).expect("issuance failed");
    assert_eq!(protector.verify_token_pair(&token_a, &cookie_b), Err(VerifyError::Forged));
}

#[test]
fn signup_then_authorize() {
    let mut store = CredentialStore::new();
    let protector = TokenProtector::new(test_key());
    let sid = handle_signup(
        &mut store,
        &protector,
        PEPPER,
        Some("a"),
        Some("a@x.com"),
        Some("pw"),
        1_700_000_000,
    )
    .expect("signup failed");
    let ctx = authorize(&store, &protector, Some(&sid)).expect("authorize failed");
    let user = store.get_user_by_email("a@x.com").expect("user row missing");
    assert_eq!(ctx.user_id, user.id);
    assert_eq!(user.handle, "a");
    assert_eq!(store.sessions.len(), 1);
    assert_eq!(store.sessions[0].csrf_token, ctx.csrf_token);
}

#[test]
fn signup_with_missing_field_is_bad_request() {
    let mut store = CredentialStore::new();
    let protector = TokenProtector::new(test_key());
    let r = handle_signup(&mut store, &protector, PEPPER, Some("a"), None, Some("pw"), 0);
    assert_eq!(r, Err(Error::BadRequest));
    assert_eq!(store.users.len(), 0);
}

#[test]
fn signup_duplicate_email_is_internal_error() {
    let mut store = CredentialStore::new();
    let protector = TokenProtector::new(test_key());
    handle_signup(&mut store, &protector, PEPPER, Some("a"), Some("a@x.com"), Some("pw"), 0)
        .expect("signup failed");
    let r = handle_signup(&mut store, &protector, PEPPER, Some("b"), Some("a@x.com"), Some("qq"), 1);
    assert_eq!(r, Err(Error::InternalServerError));
    assert_eq!(store.users.len(), 1);
    assert_eq!(store.sessions.len(), 1);
}

#[test]
fn login_unknown_email_is_not_found() {
    let mut store = CredentialStore::new();
    let protector = TokenProtector::new(test_key());
    let r = handle_login(&mut store, &protector, PEPPER, Some("nobody@x.com"), Some("pw"), 0);
    assert_eq!(r, Err(Error::NotFound));
}

#[test]
fn login_wrong_password_is_not_found_too() {
    let mut store = CredentialStore::new();
    let protector = TokenProtector::new(test_key());
    handle_signup(&mut store, &protector, PEPPER, Some("a"), Some("a@x.com"), Some("pw"), 0)
        .expect("signup failed");
    // Wrong password and unknown email yield the same kind, so the login
    // path cannot be used to probe which accounts exist.
    let wrong = handle_login(&mut store, &protector, PEPPER, Some("a@x.com"), Some("xx"), 1);
    let unknown = handle_login(&mut store, &protector, PEPPER, Some("b@x.com"), Some("pw"), 1);
    assert_eq!(wrong, Err(Error::NotFound));
    assert_eq!(unknown, Err(Error::NotFound));
}

#[test]
fn login_missing_field_is_bad_request() {
    let mut store = CredentialStore::new();
    let protector = TokenProtector::new(test_key());
    let r = handle_login(&mut store, &protector, PEPPER, None, Some("pw"), 0);
    assert_eq!(r, Err(Error::BadRequest));
}

#[test]
fn second_login_leaves_one_session_and_revokes_the_old() {
    let mut store = CredentialStore::new();
    let protector = TokenProtector::new(test_key());
    let sid1 = handle_signup(
        &mut store,
        &protector,
        PEPPER,
        Some("a"),
        Some("a@x.com"),
        Some("pw"),
        10,
    )
    .expect("signup failed");
    let sid2 = handle_login(&mut store, &protector, PEPPER, Some("a@x.com"), Some("pw"), 20)
        .expect("login failed");
    assert_ne!(sid1, sid2);
    // Exactly one session row remains, the most recently issued one.
    assert_eq!(store.sessions.len(), 1);
    assert_eq!(store.sessions[0].id, sid2);
    // The old cookie still verifies cryptographically, but its session row
    // is gone, so authorization fails.
    assert_eq!(protector.verify_cookie(&sid1), Ok(()));
    assert_eq!(
        authorize(&store, &protector, Some(&sid1)).map(|c| c.user_id),
        Err(Error::Unauthorized)
    );
    assert!(authorize(&store, &protector, Some(&sid2)).is_ok());
}

#[test]
fn session_lookup_by_identifier() {
    let mut store = CredentialStore::new();
    let protector = TokenProtector::new(test_key());
    let sid = handle_signup(&mut store, &protector, PEPPER, Some("a"), Some("a@x.com"), Some("pw"), 5)
        .expect("signup failed");
    let session = store.get_session(&sid).expect("session row missing");
    assert_eq!(session.id, sid);
    assert_eq!(session.created_at, 5);
    assert!(store.get_session("no-such-session").is_none());
}

#[test]
fn user_lookup_by_session_identifier() {
    let mut store = CredentialStore::new();
    let protector = TokenProtector::new(test_key());
    let sid = handle_signup(&mut store, &protector, PEPPER, Some("a"), Some("a@x.com"), Some("pw"), 5)
        .expect("signup failed");
    let user = store.get_user_by_session(&sid).expect("user row missing");
    assert_eq!(user.email, "a@x.com");
    // The stored password hash is never exposed through a session lookup.
    assert_eq!(user.hashed_password, "");
    assert!(store.get_user_by_session("no-such-session").is_none());
}

#[test]
fn authorize_without_cookie_is_unauthorized() {
    let store = CredentialStore::new();
    let protector = TokenProtector::new(test_key());
    assert_eq!(
        authorize(&store, &protector, None).map(|c| c.user_id),
        Err(Error::Unauthorized)
    );
    assert_eq!(
        authorize(&store, &protector, Some("garbage")).map(|c| c.user_id),
        Err(Error::Unauthorized)
    );
}

#[test]
fn double_submit_check_compares_the_stored_token() {
    let mut store = CredentialStore::new();
    let protector = TokenProtector::new(test_key());
    let sid = handle_signup(&mut store, &protector, PEPPER, Some("a"), Some("a@x.com"), Some("pw"), 0)
        .expect("signup failed");
    let stored_token = store.sessions[0].csrf_token.clone();
    let ok = verify_csrf(&store, &protector, Some(&sid), Some(&stored_token))
        .expect("double-submit check failed");
    assert_eq!(ok.csrf_token, stored_token);
    assert_eq!(
        verify_csrf(&store, &protector, Some(&sid), Some("wrong token")).map(|c| c.user_id),
        Err(Error::Unauthorized)
    );
    assert_eq!(
        verify_csrf(&store, &protector, Some(&sid), None).map(|c| c.user_id),
        Err(Error::Unauthorized)
    );
}

#[test]
fn authorize_with_unpersisted_cookie_is_unauthorized() {
    let store = CredentialStore::new();
    let protector = TokenProtector::new(test_key());
    // Cryptographically valid, but no session row was ever persisted for
    // it (e.g. a stale client-cached cookie from a prior process).
    let (_token, cookie) = protector.get_new_token_pair(3600).expect("issuance failed");
    assert_eq!(
        authorize(&store, &protector, Some(&cookie)).map(|c| c.user_id),
        Err(Error::Unauthorized)
    );
}
