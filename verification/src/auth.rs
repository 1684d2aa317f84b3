//! Users, credentials, and the decisions of the authentication paths.
//!
//! The storage round trips stay outside: each decision here takes the
//! stored lookup result and the clock as arguments and states exactly what
//! it returns for every value of them. Password hashing and checking go
//! through the bcrypt crate behind two trusted wrappers.
use vstd::prelude::*;

use crate::clock::{one_day_from_now, now_ts, spec_day_after};
use crate::ids::{is_canonical_uid, str_eq, Uid};
use crate::token::{
    encode_token, is_fresh, spec_decode_token, token_chars, Jwt, JwtModel, JwtValue,
};
use crate::validation::{email_valid, has_class_run, is_email_pswd_valids, PASSWORD_RUN};

verus! {

/// Why a storage operation on users failed.
#[derive(Debug, PartialEq, Eq, Structural, Clone, Copy)]
pub enum DbError {
    UserNotCreated,
    CannotFindUser,
    DatabaseConflit,
    TryAgain,
}

/// What bcrypt's `verify` returns for a password against a stored hash:
/// a function of the two texts alone, `None` standing for its error.
pub uninterp spec fn bcrypt_verify_of(pswd: Seq<char>, hash: Seq<char>) -> Option<bool>;

/// Relies on bcrypt's `verify`: whether `pswd` matches the salted hash
/// `hash`. The result depends on the two texts alone; an unreadable hash
/// yields `None`.
#[verifier::external_body]
fn bcrypt_verify(pswd: &str, hash: &str) -> (r: Option<bool>)
    ensures
        r == bcrypt_verify_of(pswd@, hash@),
{
    bcrypt::verify(pswd, hash).ok()
}

/// Relies on bcrypt's `hash` with the crate's default cost: a salted hash
/// that `verify` accepts the password against. The salt is drawn fresh, so
/// nothing else is assumed of the text.
#[verifier::external_body]
fn bcrypt_hash(pswd: &str) -> (r: Option<String>)
    ensures
        r matches Some(h) ==> bcrypt_verify_of(pswd@, h@) == Some(true),
{
    bcrypt::hash(pswd, bcrypt::DEFAULT_COST).ok()
}

/// Mathematical model of a stored user row.
#[verifier::ext_equal]
pub struct UserModel {
    pub email: Seq<char>,
    pub id: Seq<char>,
    pub password: Seq<char>,
    pub expires_at: i64,
    pub is_active: bool,
}

/// A stored user: unique email, generated identifier, hashed password,
/// session expiry and activity flag. The hash never leaves the type except
/// through [`User::password_hash`].
#[derive(Debug, PartialEq)]
pub struct User {
    pub email: String,
    pub id: Uid,
    password: String,
    pub expires_at: i64,
    pub is_active: bool,
}

impl View for User {
    type V = UserModel;

    closed spec fn view(&self) -> UserModel {
        UserModel {
            email: self.email@,
            id: self.id@,
            password: self.password@,
            expires_at: self.expires_at,
            is_active: self.is_active,
        }
    }
}

impl Clone for User {
    fn clone(&self) -> (r: Self)
        ensures
            r@ == self@,
    {
        User {
            email: self.email.clone(),
            id: self.id.clone(),
            password: self.password.clone(),
            expires_at: self.expires_at,
            is_active: self.is_active,
        }
    }
}

impl User {
    /// A user assembled from given parts: expiry one day past `now`,
    /// inactive until login.
    pub fn from_parts(email: String, password: String, id: Uid, now: i64) -> (r: User)
        ensures
            r@ == (UserModel {
                email: email@,
                id: id@,
                password: password@,
                expires_at: spec_day_after(now),
                is_active: false,
            }),
    {
        let expires_at = one_day_from_now(now);
        User { email, id, password, expires_at, is_active: false }
    }

    /// A new user: fresh identifier, expiry one day from the clock's now,
    /// inactive until login. The password is stored as handed in.
    pub fn from(email: String, password: String) -> (r: User)
        ensures
            r@.email == email@,
            r@.password == password@,
            !r@.is_active,
            is_canonical_uid(r@.id),
    {
        let id = Uid::fresh();
        let now = now_ts();
        User::from_parts(email, password, id, now)
    }

    /// A user rebuilt from a stored row.
    pub fn from_row(
        email: String,
        id: Uid,
        password: String,
        expires_at: i64,
        is_active: bool,
    ) -> (r: User)
        ensures
            r@ == (UserModel {
                email: email@,
                id: id@,
                password: password@,
                expires_at: expires_at,
                is_active: is_active,
            }),
    {
        User { email, id, password, expires_at, is_active }
    }

    /// Whether `pswd` matches this user's stored hash; `None` when the
    /// hash is unreadable.
    pub fn verify(&self, pswd: &str) -> (r: Option<bool>)
        ensures
            r == bcrypt_verify_of(pswd@, self@.password),
    {
        bcrypt_verify(pswd, self.password.as_str())
    }

    /// The user's identifier text.
    pub fn get_id(self) -> (r: String)
        ensures
            r@ == self@.id,
    {
        self.id.to_text()
    }

    /// The stored password hash.
    pub fn password_hash(&self) -> (r: &str)
        ensures
            r@ == self@.password,
    {
        self.password.as_str()
    }
}

/// A signup request body.
#[derive(Debug, PartialEq)]
pub struct SignUp {
    pub email: String,
    pub password: String,
}

impl Clone for SignUp {
    fn clone(&self) -> (r: Self)
        ensures
            r.email@ == self.email@ && r.password@ == self.password@,
    {
        SignUp { email: self.email.clone(), password: self.password.clone() }
    }
}

/// A login or logout request body; logout carries no password.
#[derive(Debug, PartialEq)]
pub struct Auth {
    pub email: String,
    pub password: Option<String>,
}

/// Mathematical model of an [`Auth`] body.
#[verifier::ext_equal]
pub struct AuthModel {
    pub email: Seq<char>,
    pub password: Option<Seq<char>>,
}

impl View for Auth {
    type V = AuthModel;

    open spec fn view(&self) -> AuthModel {
        AuthModel {
            email: self.email@,
            password: match self.password {
                Some(p) => Some(p@),
                None => None,
            },
        }
    }
}

impl Clone for Auth {
    fn clone(&self) -> (r: Self)
        ensures
            r@ == self@,
    {
        Auth {
            email: self.email.clone(),
            password: match &self.password {
                Some(p) => Some(p.clone()),
                None => None,
            },
        }
    }
}

/// Hashes a signup's password and builds the user to insert; `None` when
/// the hashing call fails.
pub fn signup_to_hash_user(signup: &SignUp) -> (r: Option<User>)
    ensures
        r matches Some(u) ==> {
            &&& u@.email == signup.email@
            &&& bcrypt_verify_of(signup.password@, u@.password) == Some(true)
            &&& !u@.is_active
            &&& is_canonical_uid(u@.id)
        },
{
    match bcrypt_hash(signup.password.as_str()) {
        Some(hash) => Some(User::from(signup.email.clone(), hash)),
        None => None,
    }
}

/// What the signup path decides before touching storage.
#[derive(Debug, PartialEq)]
pub enum SignupOutcome {
    /// The credential shapes are invalid; nothing is stored.
    BadRequest,
    /// The hashing call failed; nothing is stored.
    HashFailure,
    /// The user row to insert.
    NewUser(User),
}

/// The signup decision: reject malformed credentials, otherwise hash the
/// password and hand back the user row to insert. No uniqueness check is
/// made here; a duplicate email is the store's to resolve.
pub fn signup_user(signup: &SignUp) -> (r: SignupOutcome)
    ensures
        (r == SignupOutcome::BadRequest) <==> !(email_valid(signup.email@) && has_class_run(
            signup.password@,
            PASSWORD_RUN as int,
        )),
        r matches SignupOutcome::NewUser(u) ==> {
            &&& u@.email == signup.email@
            &&& bcrypt_verify_of(signup.password@, u@.password) == Some(true)
            &&& !u@.is_active
            &&& is_canonical_uid(u@.id)
        },
{
    if !is_email_pswd_valids(signup.email.as_str(), signup.password.as_str()) {
        return SignupOutcome::BadRequest;
    }
    match signup_to_hash_user(signup) {
        Some(u) => SignupOutcome::NewUser(u),
        None => SignupOutcome::HashFailure,
    }
}

/// The stored-lookup decision: exactly one row is a find, several are a
/// conflict, none is a miss.
pub fn select_user(users: Vec<User>) -> (r: Result<User, DbError>)
    ensures
        users@.len() == 1 ==> (r matches Ok(u) && u@ == users@[0]@),
        users@.len() > 1 ==> r == Err::<User, DbError>(DbError::DatabaseConflit),
        users@.len() == 0 ==> r == Err::<User, DbError>(DbError::CannotFindUser),
{
    let mut users = users;
    if users.len() > 1 {
        Err(DbError::DatabaseConflit)
    } else if users.len() == 0 {
        Err(DbError::CannotFindUser)
    } else {
        Ok(users.remove(0))
    }
}

/// The model of a lookup result.
pub open spec fn lookup_model(r: Result<User, DbError>) -> Result<UserModel, DbError> {
    match r {
        Ok(u) => Ok(u@),
        Err(e) => Err(e),
    }
}

/// The session conjunction: the stored user is active, its session expiry
/// is still in the future, and its identifier matches the token's.
pub open spec fn session_ok(user: UserModel, token: JwtModel, now: i64) -> bool {
    user.is_active && user.expires_at > now && user.id == token.id
}

/// Whether a decoded token is accepted against the freshly fetched user.
pub fn is_valid_session(user: &User, token: &JwtValue, now: i64) -> (r: bool)
    ensures
        r == session_ok(user@, token@, now),
{
    let active = user.is_active;
    let fresh = is_fresh(user.expires_at, now);
    let id_match = str_eq(user.id.as_str(), token.id.as_str());
    active && fresh && id_match
}

/// The guard decision over a lookup result: a missing or ambiguous user
/// rejects, a found user is held to the session conjunction.
pub fn session_guard(lookup: &Result<User, DbError>, token: &JwtValue, now: i64) -> (r: bool)
    ensures
        r == (lookup_model(*lookup) matches Ok(u) && session_ok(u, token@, now)),
{
    match lookup {
        Ok(u) => is_valid_session(u, token, now),
        Err(_) => false,
    }
}

/// The session guard accepts exactly the conjunction of the three
/// conditions, and flipping any one of them rejects.
pub proof fn lemma_session_guard(user: UserModel, token: JwtModel, now: i64)
    ensures
        session_ok(user, token, now) <==> (user.is_active && user.expires_at > now && user.id
            == token.id),
        !user.is_active ==> !session_ok(user, token, now),
        user.expires_at <= now ==> !session_ok(user, token, now),
        user.id != token.id ==> !session_ok(user, token, now),
{
}

/// The status row a successful login persists: expiry refreshed to one day
/// past `now`, the session active.
#[derive(Debug, PartialEq)]
pub struct UpdateUserStatus {
    pub email: String,
    pub expires_at: i64,
    pub is_active: bool,
}

/// Mathematical model of an [`UpdateUserStatus`] row.
#[verifier::ext_equal]
pub struct UpdModel {
    pub email: Seq<char>,
    pub expires_at: i64,
    pub is_active: bool,
}

impl View for UpdateUserStatus {
    type V = UpdModel;

    open spec fn view(&self) -> UpdModel {
        UpdModel { email: self.email@, expires_at: self.expires_at, is_active: self.is_active }
    }
}

impl Clone for UpdateUserStatus {
    fn clone(&self) -> (r: Self)
        ensures
            r@ == self@,
    {
        UpdateUserStatus {
            email: self.email.clone(),
            expires_at: self.expires_at,
            is_active: self.is_active,
        }
    }
}

/// The status row a validated logout persists: inactive, expiry untouched.
#[derive(Debug, PartialEq)]
pub struct Inactivate {
    pub email: String,
    pub is_active: bool,
}

impl Inactivate {
    pub fn new(email: String) -> (r: Self)
        ensures
            r.email@ == email@,
            !r.is_active,
    {
        Inactivate { email, is_active: false }
    }
}

impl Clone for Inactivate {
    fn clone(&self) -> (r: Self)
        ensures
            r.email@ == self.email@ && r.is_active == self.is_active,
    {
        Inactivate { email: self.email.clone(), is_active: self.is_active }
    }
}

/// What the login path answers.
#[derive(Debug, PartialEq)]
pub enum LoginOutcome {
    /// The credential shapes are invalid.
    BadRequest,
    /// Lookup failed or the password does not match; no detail leaks.
    Denied,
    /// The signed token to answer with and the status row to persist.
    Token(Jwt, UpdateUserStatus),
}

/// Mathematical model of a login outcome.
#[verifier::ext_equal]
pub enum LoginModel {
    BadRequest,
    Denied,
    Token(Seq<char>, UpdModel),
}

impl View for LoginOutcome {
    type V = LoginModel;

    open spec fn view(&self) -> LoginModel {
        match self {
            LoginOutcome::BadRequest => LoginModel::BadRequest,
            LoginOutcome::Denied => LoginModel::Denied,
            LoginOutcome::Token(jwt, upd) => LoginModel::Token(jwt@, upd@),
        }
    }
}

/// The login decision over its inputs: malformed or missing credentials
/// are rejected outright; a failed lookup or a wrong password is denied
/// without detail; a verified password is answered with a token carrying
/// the refreshed expiry, and the refreshed status row to persist.
pub open spec fn spec_login(
    auth: AuthModel,
    lookup: Result<UserModel, DbError>,
    key: Seq<char>,
    now: i64,
) -> LoginModel {
    if !(email_valid(auth.email) && (auth.password matches Some(p) && has_class_run(
        p,
        PASSWORD_RUN as int,
    ))) {
        LoginModel::BadRequest
    } else {
        match lookup {
            Err(_) => LoginModel::Denied,
            Ok(u) => if bcrypt_verify_of(auth.password->0, u.password) == Some(true) {
                LoginModel::Token(
                    token_chars(u.id, u.email, spec_day_after(now), key),
                    UpdModel { email: u.email, expires_at: spec_day_after(now), is_active: true },
                )
            } else {
                LoginModel::Denied
            },
        }
    }
}

/// The login decision. Storage stays outside: the caller fetches the user
/// by the request's email and persists the returned status row.
pub fn login_user(auth: &Auth, lookup: &Result<User, DbError>, key: &str, now: i64) -> (r:
    LoginOutcome)
    requires
        now >= 0,
    ensures
        r@ == spec_login(auth@, lookup_model(*lookup), key@, now),
{
    let pswd = match &auth.password {
        Some(p) => p,
        None => {
            return LoginOutcome::BadRequest;
        },
    };
    if !is_email_pswd_valids(auth.email.as_str(), pswd.as_str()) {
        return LoginOutcome::BadRequest;
    }
    match lookup {
        Err(_) => LoginOutcome::Denied,
        Ok(u) => {
            match u.verify(pswd.as_str()) {
                Some(true) => {
                    let expires_at = one_day_from_now(now);
                    let jwt = encode_token(&u.id, u.email.as_str(), expires_at, key);
                    let upd = UpdateUserStatus {
                        email: u.email.clone(),
                        expires_at,
                        is_active: true,
                    };
                    LoginOutcome::Token(jwt, upd)
                },
                _ => LoginOutcome::Denied,
            }
        },
    }
}

/// What the logout path answers.
#[derive(Debug, PartialEq)]
pub enum LogoutOutcome {
    /// Malformed email, missing header, or an unverifiable token.
    BadRequest,
    /// A well-formed token whose session is stale, mismatched or unknown.
    Unauthorized,
    /// The status row a validated logout persists.
    Accepted(Inactivate),
}

/// Mathematical model of a logout outcome; acceptance carries the email
/// to inactivate.
#[verifier::ext_equal]
pub enum LogoutModel {
    BadRequest,
    Unauthorized,
    Accepted(Seq<char>),
}

impl View for LogoutOutcome {
    type V = LogoutModel;

    open spec fn view(&self) -> LogoutModel {
        match self {
            LogoutOutcome::BadRequest => LogoutModel::BadRequest,
            LogoutOutcome::Unauthorized => LogoutModel::Unauthorized,
            LogoutOutcome::Accepted(i) => LogoutModel::Accepted(i.email@),
        }
    }
}

/// The logout decision over its inputs: a malformed email, a missing
/// header or an unverifiable token is a bad request; a stale token, a
/// failed lookup, an email mismatch or a failing session conjunction is
/// unauthorized; otherwise the user's email is to be inactivated.
pub open spec fn spec_logout(
    header: Option<Seq<char>>,
    email: Seq<char>,
    lookup: Result<UserModel, DbError>,
    key: Seq<char>,
    now: i64,
) -> LogoutModel {
    if !email_valid(email) {
        LogoutModel::BadRequest
    } else {
        match header {
            None => LogoutModel::BadRequest,
            Some(raw) => match spec_decode_token(raw, key) {
                None => LogoutModel::BadRequest,
                Some(tok) => if !(tok.expires_at > now) {
                    LogoutModel::Unauthorized
                } else {
                    match lookup {
                        Err(_) => LogoutModel::Unauthorized,
                        Ok(u) => if tok.email == email && session_ok(u, tok, now) {
                            LogoutModel::Accepted(email)
                        } else {
                            LogoutModel::Unauthorized
                        },
                    }
                },
            },
        }
    }
}

/// The model of an optional header value.
pub open spec fn header_model(h: Option<&String>) -> Option<Seq<char>> {
    match h {
        Some(s) => Some(s@),
        None => None,
    }
}

/// The logout decision. Storage stays outside: the caller fetches the user
/// by the request's email and persists the returned inactivation row.
pub fn logout_user(
    header: Option<&String>,
    email: &str,
    lookup: &Result<User, DbError>,
    key: &str,
    now: i64,
) -> (r: LogoutOutcome)
    ensures
        r@ == spec_logout(header_model(header), email@, lookup_model(*lookup), key@, now),
{
    if !crate::validation::is_valid_email(email) {
        return LogoutOutcome::BadRequest;
    }
    let raw = match header {
        Some(s) => s,
        None => {
            return LogoutOutcome::BadRequest;
        },
    };
    let tok = match crate::token::decode_jwt(raw.as_str(), key) {
        Ok(t) => t,
        Err(_) => {
            return LogoutOutcome::BadRequest;
        },
    };
    if !is_fresh(tok.expires_at, now) {
        return LogoutOutcome::Unauthorized;
    }
    match lookup {
        Err(_) => LogoutOutcome::Unauthorized,
        Ok(u) => {
            let email_match = str_eq(tok.email.as_str(), email);
            let session = is_valid_session(u, &tok, now);
            if email_match && session {
                LogoutOutcome::Accepted(Inactivate::new(email.to_owned()))
            } else {
                LogoutOutcome::Unauthorized
            }
        },
    }
}

} // verus!
