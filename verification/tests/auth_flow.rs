use todo_server::auth::{
    login_user, logout_user, select_user, session_guard, signup_user, Auth, DbError, Inactivate,
    LoginOutcome, LogoutOutcome, SignUp, SignupOutcome, User,
};
use todo_server::auth::is_valid_session;
use todo_server::clock::DAY_SECONDS;
use todo_server::ids::Uid;
use todo_server::token::{decode_jwt, encode_token, JwtValue};

const KEY: &str = "process-wide-signing-secret";
const EMAIL: &str = "my@email.com";
const PSWD: &str = "My cr4zy P@ssw0rd My cr4zy P@ssw0rd";

fn new_uid() -> Uid {
    Uid::parse(&uuid::Uuid::new_v4().to_string()).unwrap()
}

fn signed_up() -> User {
    match signup_user(&SignUp {
        email: EMAIL.to_string(),
        password: PSWD.to_string(),
    }) {
        SignupOutcome::NewUser(u) => u,
        other => panic!("signup failed: {:?}", other),
    }
}

fn active_user(id: Uid, expires_at: i64, is_active: bool) -> User {
    User::from_row(
        EMAIL.to_string(),
        id,
        "irrelevant-hash".to_string(),
        expires_at,
        is_active,
    )
}

#[test]
fn user_is_correctly_created() {
    let before = chrono::Utc::now().timestamp();
    let user = User::from(String::from("email"), String::from("password"));
    let after = chrono::Utc::now().timestamp();

    assert_eq!(user.email, String::from("email"));
    assert_eq!(user.password_hash(), "password");
    assert!(!user.is_active);
    let id_text = user.id.to_text();
    assert_eq!(id_text.len(), 36);
    assert!(Uid::parse(&id_text).is_some());
    assert!(user.expires_at >= before + DAY_SECONDS);
    assert!(user.expires_at <= after + DAY_SECONDS);
}

#[test]
fn signup_hashes_the_password() {
    let user = signed_up();
    assert_eq!(user.email, EMAIL);
    // The stored text is a salted hash, never the password itself.
    assert_ne!(user.password_hash(), PSWD);
    assert_eq!(user.verify(PSWD), Some(true));
    assert_eq!(user.verify("not the password 123 not the pswd"), Some(false));
    assert!(!user.is_active);
}

#[test]
fn signup_rejects_bad_shapes() {
    let bad_email = signup_user(&SignUp {
        email: "my_email.com".to_string(),
        password: PSWD.to_string(),
    });
    assert_eq!(bad_email, SignupOutcome::BadRequest);
    let bad_password = signup_user(&SignUp {
        email: EMAIL.to_string(),
        password: "short".to_string(),
    });
    assert_eq!(bad_password, SignupOutcome::BadRequest);
}

#[test]
fn signup_twice_same_email_is_not_rejected() {
    // The core runs no uniqueness check on signup: both rows come back and
    // the duplicate is only surfaced later, as a lookup conflict.
    let first = signed_up();
    let second = signed_up();
    assert_eq!(first.email, second.email);
    let looked_up = select_user(vec![first, second]);
    assert_eq!(looked_up, Err(DbError::DatabaseConflit));
}

#[test]
fn select_user_demands_exactly_one_row() {
    assert_eq!(select_user(vec![]), Err(DbError::CannotFindUser));
    let u = active_user(new_uid(), 10, true);
    match select_user(vec![u.clone()]) {
        Ok(found) => assert_eq!(found, u),
        Err(e) => panic!("unexpected error: {:?}", e),
    }
}

#[test]
fn login_returns_token_and_refreshes_status() {
    let user = signed_up();
    let now: i64 = 1_700_000_000;
    let auth = Auth {
        email: EMAIL.to_string(),
        password: Some(PSWD.to_string()),
    };
    match login_user(&auth, &Ok(user.clone()), KEY, now) {
        LoginOutcome::Token(jwt, upd) => {
            assert_eq!(upd.email, EMAIL);
            assert_eq!(upd.expires_at, now + DAY_SECONDS);
            assert!(upd.is_active);
            let decoded = decode_jwt(jwt.as_str(), KEY).unwrap();
            assert_eq!(decoded.id, user.id.to_text());
            assert_eq!(decoded.email, EMAIL);
            assert_eq!(decoded.expires_at, now + DAY_SECONDS);
        }
        other => panic!("expected a token, got {:?}", other),
    }
}

#[test]
fn login_denies_wrong_password() {
    let user = signed_up();
    let auth = Auth {
        email: EMAIL.to_string(),
        password: Some("not the password 123 not the pswd".to_string()),
    };
    assert_eq!(
        login_user(&auth, &Ok(user), KEY, 1_700_000_000),
        LoginOutcome::Denied
    );
}

#[test]
fn login_rejects_bad_shapes() {
    let user = signed_up();
    let bad_email = Auth {
        email: "my_email.com".to_string(),
        password: Some(PSWD.to_string()),
    };
    assert_eq!(
        login_user(&bad_email, &Ok(user.clone()), KEY, 0),
        LoginOutcome::BadRequest
    );
    let no_password = Auth {
        email: EMAIL.to_string(),
        password: None,
    };
    assert_eq!(
        login_user(&no_password, &Ok(user), KEY, 0),
        LoginOutcome::BadRequest
    );
}

#[test]
fn login_denies_failed_lookup() {
    let auth = Auth {
        email: EMAIL.to_string(),
        password: Some(PSWD.to_string()),
    };
    assert_eq!(
        login_user(&auth, &Err(DbError::CannotFindUser), KEY, 0),
        LoginOutcome::Denied
    );
}

#[test]
fn session_guard_accepts_and_each_flip_rejects() {
    let now: i64 = 1_700_000_000;
    let id = new_uid();
    let token = JwtValue {
        id: id.to_text(),
        email: EMAIL.to_string(),
        expires_at: now + DAY_SECONDS,
    };

    let good = active_user(id.clone(), now + 1, true);
    assert!(is_valid_session(&good, &token, now));

    let inactive = active_user(id.clone(), now + 1, false);
    assert!(!is_valid_session(&inactive, &token, now));

    let stale = active_user(id.clone(), now - 1, true);
    assert!(!is_valid_session(&stale, &token, now));

    let other_id = active_user(new_uid(), now + 1, true);
    assert!(!is_valid_session(&other_id, &token, now));

    assert!(session_guard(&Ok(good), &token, now));
    assert!(!session_guard(&Err(DbError::CannotFindUser), &token, now));
}

#[test]
fn logout_accepted() {
    let now: i64 = 1_700_000_000;
    let id = new_uid();
    let user = active_user(id.clone(), now + 100, true);
    let jwt = encode_token(&id, EMAIL, now + 100, KEY);
    let header = jwt.as_str().to_string();
    let r = logout_user(Some(&header), EMAIL, &Ok(user), KEY, now);
    assert_eq!(r, LogoutOutcome::Accepted(Inactivate::new(EMAIL.to_string())));
}

#[test]
fn logout_rejects_missing_or_bad_input() {
    let now: i64 = 1_700_000_000;
    let id = new_uid();
    let user = active_user(id.clone(), now + 100, true);
    let jwt = encode_token(&id, EMAIL, now + 100, KEY);
    let header = jwt.as_str().to_string();

    let no_header = logout_user(None, EMAIL, &Ok(user.clone()), KEY, now);
    assert_eq!(no_header, LogoutOutcome::BadRequest);

    let bad_email = logout_user(Some(&header), "my_email.com", &Ok(user.clone()), KEY, now);
    assert_eq!(bad_email, LogoutOutcome::BadRequest);

    let junk = "not a token".to_string();
    let bad_token = logout_user(Some(&junk), EMAIL, &Ok(user), KEY, now);
    assert_eq!(bad_token, LogoutOutcome::BadRequest);
}

#[test]
fn logout_unauthorized_paths() {
    let now: i64 = 1_700_000_000;
    let id = new_uid();

    let stale_jwt = encode_token(&id, EMAIL, now - 1, KEY);
    let stale_header = stale_jwt.as_str().to_string();
    let user = active_user(id.clone(), now + 100, true);
    let stale = logout_user(Some(&stale_header), EMAIL, &Ok(user.clone()), KEY, now);
    assert_eq!(stale, LogoutOutcome::Unauthorized);

    let jwt = encode_token(&id, "other@email.com", now + 100, KEY);
    let header = jwt.as_str().to_string();
    let mismatch = logout_user(Some(&header), EMAIL, &Ok(user.clone()), KEY, now);
    assert_eq!(mismatch, LogoutOutcome::Unauthorized);

    let good_jwt = encode_token(&id, EMAIL, now + 100, KEY);
    let good_header = good_jwt.as_str().to_string();
    let missing = logout_user(
        Some(&good_header),
        EMAIL,
        &Err(DbError::CannotFindUser),
        KEY,
        now,
    );
    assert_eq!(missing, LogoutOutcome::Unauthorized);

    let inactive_user = active_user(id, now + 100, false);
    let inactive = logout_user(Some(&good_header), EMAIL, &Ok(inactive_user), KEY, now);
    assert_eq!(inactive, LogoutOutcome::Unauthorized);
}
