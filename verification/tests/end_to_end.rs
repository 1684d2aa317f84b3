//! One whole session at the library level: sign up, log in, pass the
//! session guard, create and list a card, then log out.
use todo_server::auth::{
    login_user, logout_user, select_user, session_guard, signup_user, Auth, Inactivate,
    LoginOutcome, LogoutOutcome, SignUp, SignupOutcome, User,
};
use todo_server::ids::Uid;
use todo_server::model::{State, Task, TodoCard};
use todo_server::service::CardService;
use todo_server::token::decode_jwt;

const KEY: &str = "process-wide-signing-secret";
const EMAIL: &str = "my@email.com";
const PSWD: &str = "My cr4zy P@ssw0rd My cr4zy P@ssw0rd";

#[test]
fn whole_session_round_trip() {
    let now: i64 = 1_700_000_000;

    // Sign up.
    let signup = SignUp { email: EMAIL.to_string(), password: PSWD.to_string() };
    let user = match signup_user(&signup) {
        SignupOutcome::NewUser(u) => u,
        other => panic!("signup failed: {:?}", other),
    };
    let mut rows = vec![user];

    // Log in; persist the refreshed status as the store would.
    let auth = Auth { email: EMAIL.to_string(), password: Some(PSWD.to_string()) };
    let lookup = select_user(rows.clone());
    let (jwt, upd) = match login_user(&auth, &lookup, KEY, now) {
        LoginOutcome::Token(jwt, upd) => (jwt, upd),
        other => panic!("login failed: {:?}", other),
    };
    let old = &rows[0];
    rows = vec![User::from_row(
        old.email.clone(),
        old.id.clone(),
        old.password_hash().to_string(),
        upd.expires_at,
        upd.is_active,
    )];

    // The token passes the session guard against the refreshed row.
    let token = decode_jwt(jwt.as_str(), KEY).unwrap();
    let lookup = select_user(rows.clone());
    assert!(session_guard(&lookup, &token, now));

    // Create a card and read it back.
    let mut cards = CardService::new();
    let owner = Uid::parse(&token.id).unwrap();
    let card = TodoCard {
        id: None,
        title: "groceries".to_string(),
        description: "what the kitchen is missing".to_string(),
        owner: owner.clone(),
        tasks: vec![Task { is_done: false, title: "oat milk".to_string() }],
        state: State::Todo,
    };
    let id = cards.create(&card);
    let listed = cards.list();
    assert_eq!(listed.len(), 1);
    assert_eq!(listed[0].id, Some(id));
    assert_eq!(listed[0].owner, owner);
    assert_eq!(listed[0].title, "groceries");

    // Log out; the row turns inactive and the guard now rejects.
    let header = jwt.as_str().to_string();
    let lookup = select_user(rows.clone());
    match logout_user(Some(&header), EMAIL, &lookup, KEY, now) {
        LogoutOutcome::Accepted(row) => {
            assert_eq!(row, Inactivate::new(EMAIL.to_string()));
            let old = &rows[0];
            rows = vec![User::from_row(
                old.email.clone(),
                old.id.clone(),
                old.password_hash().to_string(),
                old.expires_at,
                row.is_active,
            )];
        }
        other => panic!("logout failed: {:?}", other),
    }
    let lookup = select_user(rows);
    assert!(!session_guard(&lookup, &token, now));
}
