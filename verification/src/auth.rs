//! Users, credentials and the rules of authentication: who may log in with
//! which credentials, what a new account looks like, and who may enter the
//! admin pages.

use crate::text::{starts_with, str_eq};
use vstd::prelude::*;
use vstd::string::*;
use vstd::utf8::*;

verus! {

/// Whether `password` verifies against the password hash `hash`, as
/// password-auth's `verify_password` decides it.
pub uninterp spec fn password_matches(password: Seq<char>, hash: Seq<char>) -> bool;

/// Calls uuid's `Uuid::now_v7` and returns the id as a number. The id depends
/// on the time and on chance, so nothing is claimed of it.
#[verifier::external_body]
fn new_user_id() -> (r: u128) {
    uuid::Uuid::now_v7().as_u128()
}

/// Whether a password can be hashed: Argon2 (password-auth's default
/// algorithm) takes passwords of at most `u32::MAX` bytes, and
/// `generate_hash` panics on longer ones.
pub open spec fn hashable_password(password: Seq<char>) -> bool {
    encode_utf8(password).len() <= u32::MAX
}

/// Calls password-auth's `generate_hash`. The hash carries a random salt, so
/// only this is claimed, as the crate documents and tests it: the password
/// verifies against its hash. The call also panics when the operating
/// system's random source fails; that depends on no input and is not ruled
/// out here.
#[verifier::external_body]
fn hash_password(password: &str) -> (r: String)
    requires
        hashable_password(password@),
    ensures
        password_matches(password@, r@),
{
    password_auth::generate_hash(password)
}

/// Calls password-auth's `verify_password`. Claimed: the call succeeds exactly
/// when the password matches the hash, a fact of the two strings alone.
#[verifier::external_body]
fn verify_password(password: &str, hash: &str) -> (r: bool)
    ensures
        r == password_matches(password@, hash@),
{
    password_auth::verify_password(password, hash).is_ok()
}

/// The group a user belongs to.
#[derive(Clone, Debug)]
pub enum UserGroup {
    Default,
    Admin,
    Custom(String),
}

impl PartialEq for UserGroup {
    fn eq(&self, other: &Self) -> (r: bool) {
        match (self, other) {
            (UserGroup::Default, UserGroup::Default) => true,
            (UserGroup::Admin, UserGroup::Admin) => true,
            (UserGroup::Custom(a), UserGroup::Custom(b)) => str_eq(a.as_str(), b.as_str()),
            _ => false,
        }
    }
}

impl vstd::std_specs::cmp::PartialEqSpecImpl for UserGroup {
    open spec fn obeys_eq_spec() -> bool {
        true
    }

    open spec fn eq_spec(&self, other: &Self) -> bool {
        match (self, other) {
            (UserGroup::Default, UserGroup::Default) => true,
            (UserGroup::Admin, UserGroup::Admin) => true,
            (UserGroup::Custom(a), UserGroup::Custom(b)) => a@ == b@,
            _ => false,
        }
    }
}

/// An account: its id, permissions and group, and the ways to recognise it.
#[derive(Clone, Debug)]
pub struct User {
    pub id: u128,
    pub permissions: Vec<String>,
    pub group: UserGroup,
    pub username: Option<String>,
    pub email: Option<String>,
    pub password_hash: Option<String>,
}

/// The ways to log in.
#[derive(Clone, Debug)]
pub enum Credentials {
    UsernamePassword { username: String, password: String },
    EmailPassword { email: String, password: String },
    GoogleOpenID { code: String, nonce: String },
}

/// Why authentication failed.
#[derive(Clone, Debug)]
pub enum AuthError {
    UserNotFound(String),
    DbError(String),
}

/// A stored session: its id and its encoded record.
#[derive(Clone, Debug)]
pub struct SessionRow {
    pub id: i128,
    pub record: Vec<u8>,
}

/// The sixteen big-endian bytes of `x`.
pub open spec fn be_bytes_u128(x: u128) -> Seq<u8> {
    seq![
        (x >> 120u128) as u8, (x >> 112u128) as u8, (x >> 104u128) as u8, (x >> 96u128) as u8,
        (x >> 88u128) as u8, (x >> 80u128) as u8, (x >> 72u128) as u8, (x >> 64u128) as u8,
        (x >> 56u128) as u8, (x >> 48u128) as u8, (x >> 40u128) as u8, (x >> 32u128) as u8,
        (x >> 24u128) as u8, (x >> 16u128) as u8, (x >> 8u128) as u8, x as u8,
    ]
}

/// The bytes that tie a session to the account: the password hash if there
/// is one, else the email, else the username, else the id.
pub open spec fn session_hash_bytes(user: User) -> Seq<u8> {
    match user.password_hash {
        Some(h) => encode_utf8(h@),
        None => match user.email {
            Some(e) => encode_utf8(e@),
            None => match user.username {
                Some(u) => encode_utf8(u@),
                None => be_bytes_u128(user.id),
            },
        },
    }
}

/// The account a password login yields: the account itself when it has a
/// password hash that the password matches, otherwise none.
pub open spec fn password_login(user: Option<User>, password: Seq<char>) -> Option<User> {
    match user {
        Some(u) => match u.password_hash {
            Some(h) => if password_matches(password, h@) { Some(u) } else { None },
            None => None,
        },
        None => None,
    }
}

/// Whether one of the strings holds the text `p`.
pub open spec fn contains_text(s: Seq<String>, p: Seq<char>) -> bool {
    exists|i: int| 0 <= i < s.len() && s[i]@ == p
}

/// The permissions of a user, as a set of strings.
pub open spec fn permission_set(user: User) -> Set<Seq<char>> {
    Set::new(|p: Seq<char>| contains_text(user.permissions@, p))
}

impl User {
    /// A new account of the default group, known by its email.
    pub fn from_email(email: String) -> (u: Self)
        ensures
            u.permissions@.len() == 0,
            u.group == UserGroup::Default,
            u.username is None,
            u.email == Some(email),
            u.password_hash is None,
    {
        Self {
            id: new_user_id(),
            permissions: Vec::new(),
            group: UserGroup::Default,
            username: None,
            email: Some(email),
            password_hash: None,
        }
    }

    /// A new account of the default group, known by its username, with a
    /// fresh hash of its password.
    pub fn from_username_password(username: String, password: String) -> (u: Self)
        requires
            hashable_password(password@),
        ensures
            u.permissions@.len() == 0,
            u.group == UserGroup::Default,
            u.username == Some(username),
            u.email is None,
            u.password_hash matches Some(h) && password_matches(password@, h@),
    {
        let hash = hash_password(password.as_str());
        Self {
            id: new_user_id(),
            permissions: Vec::new(),
            group: UserGroup::Default,
            username: Some(username),
            email: None,
            password_hash: Some(hash),
        }
    }

    /// A new account of the default group, known by its email, with a fresh
    /// hash of its password.
    pub fn from_email_password(email: String, password: String) -> (u: Self)
        requires
            hashable_password(password@),
        ensures
            u.permissions@.len() == 0,
            u.group == UserGroup::Default,
            u.username is None,
            u.email == Some(email),
            u.password_hash matches Some(h) && password_matches(password@, h@),
    {
        let hash = hash_password(password.as_str());
        Self {
            id: new_user_id(),
            permissions: Vec::new(),
            group: UserGroup::Default,
            username: None,
            email: Some(email),
            password_hash: Some(hash),
        }
    }

    pub fn is_admin(&self) -> (r: bool)
        ensures
            r == (self.group is Admin),
    {
        match self.group {
            UserGroup::Admin => true,
            _ => false,
        }
    }

    pub fn id(&self) -> (r: u128)
        ensures
            r == self.id,
    {
        self.id
    }

    pub fn session_auth_hash(&self) -> (r: Vec<u8>)
        ensures
            r@ == session_hash_bytes(*self),
    {
        match &self.password_hash {
            Some(h) => h.as_str().as_bytes_vec(),
            None => match &self.email {
                Some(e) => e.as_str().as_bytes_vec(),
                None => match &self.username {
                    Some(u) => u.as_str().as_bytes_vec(),
                    None => {
                        let x = self.id;
                        let v = vec![
                            (x >> 120u128) as u8, (x >> 112u128) as u8, (x >> 104u128) as u8,
                            (x >> 96u128) as u8, (x >> 88u128) as u8, (x >> 80u128) as u8,
                            (x >> 72u128) as u8, (x >> 64u128) as u8, (x >> 56u128) as u8,
                            (x >> 48u128) as u8, (x >> 40u128) as u8, (x >> 32u128) as u8,
                            (x >> 24u128) as u8, (x >> 16u128) as u8, (x >> 8u128) as u8,
                            x as u8,
                        ];
                        assert(v@ =~= be_bytes_u128(x));
                        v
                    },
                },
            },
        }
    }

    /// Whether the user holds permission `perm`.
    pub fn has_perm(&self, perm: &str) -> (r: bool)
        ensures
            r == permission_set(*self).contains(perm@),
    {
        let mut i: usize = 0;
        while i < self.permissions.len()
            invariant
                i <= self.permissions@.len(),
                forall|k: int| 0 <= k < i ==> self.permissions@[k]@ != perm@,
            decreases self.permissions.len() - i,
        {
            if str_eq(self.permissions[i].as_str(), perm) {
                assert(permission_set(*self).contains(perm@));
                return true;
            }
            i = i + 1;
        }
        false
    }

    /// The user's permissions, each once.
    pub fn get_all_permissions(&self) -> (r: Vec<String>)
        ensures
            forall|i: int, j: int| 0 <= i < j < r@.len() ==> r@[i]@ != r@[j]@,
            forall|p: Seq<char>| #[trigger] contains_text(r@, p) <==> permission_set(*self).contains(p),
    {
        let mut out: Vec<String> = Vec::new();
        let mut i: usize = 0;
        while i < self.permissions.len()
            invariant
                i <= self.permissions@.len(),
                forall|a: int, b: int| 0 <= a < b < out@.len() ==> out@[a]@ != out@[b]@,
                forall|p: Seq<char>|
                    #[trigger] contains_text(out@, p) <==> contains_text(self.permissions@.take(i as int), p),
            decreases self.permissions.len() - i,
        {
            let p = &self.permissions[i];
            let mut seen = false;
            let mut j: usize = 0;
            while j < out.len()
                invariant
                    j <= out@.len(),
                    !seen ==> forall|k: int| 0 <= k < j ==> out@[k]@ != p@,
                    seen ==> contains_text(out@, p@),
                decreases out.len() - j,
            {
                if str_eq(out[j].as_str(), p.as_str()) {
                    seen = true;
                    assert(out@[j as int]@ == p@);
                }
                j = j + 1;
            }
            let ghost before = out@;
            let ghost taken = self.permissions@.take(i as int);
            let ghost next = self.permissions@.take(i + 1);
            if !seen {
                out.push(p.clone());
            }
            proof {
                assert forall|q: Seq<char>| #[trigger] contains_text(out@, q) <==> contains_text(next, q) by {
                    if contains_text(next, q) {
                        let k = choose|k: int| 0 <= k < next.len() && next[k]@ == q;
                        if k < i {
                            assert(taken[k] == next[k]);
                            assert(contains_text(taken, q));
                            assert(contains_text(before, q));
                            let m = choose|m: int| 0 <= m < before.len() && before[m]@ == q;
                            assert(out@[m] == before[m]);
                        } else if !seen {
                            assert(out@[before.len() as int]@ == q);
                        }
                    }
                    if contains_text(out@, q) {
                        let k = choose|k: int| 0 <= k < out@.len() && out@[k]@ == q;
                        if k < before.len() {
                            assert(before[k] == out@[k]);
                            assert(contains_text(before, q));
                            let m = choose|m: int| 0 <= m < taken.len() && taken[m]@ == q;
                            assert(next[m] == taken[m]);
                        } else {
                            assert(next[i as int]@ == q);
                        }
                    }
                }
            }
            i = i + 1;
        }
        assert(self.permissions@.take(i as int) =~= self.permissions@);
        out
    }
}

impl AuthError {
    /// The error's message.
    pub fn message(&self) -> (r: String)
        ensures
            r@ == (match self {
                AuthError::UserNotFound(s) => "User not found: "@ + s@,
                AuthError::DbError(s) => "Failed to load: "@ + s@,
            }),
    {
        match self {
            AuthError::UserNotFound(s) => {
                let mut m = String::from_str("User not found: ");
                m.append(s.as_str());
                m
            },
            AuthError::DbError(s) => {
                let mut m = String::from_str("Failed to load: ");
                m.append(s.as_str());
                m
            },
        }
    }
}

/// Logs in with a password: the stored account (if any) is accepted when it
/// has a password hash that the password matches.
pub fn authenticate_with_password(user: Option<User>, password: &str) -> (r: Option<User>)
    ensures
        r == password_login(user, password@),
{
    match user {
        Some(u) => {
            let ok = match &u.password_hash {
                Some(h) => verify_password(password, h.as_str()),
                None => false,
            };
            if ok {
                Some(u)
            } else {
                None
            }
        },
        None => None,
    }
}

/// The account a Google login yields for `email`: the stored account if there
/// is one, else a new account for the email, which must then be saved (the
/// flag).
pub fn resolve_google_user(existing: Option<User>, email: String) -> (r: (User, bool))
    ensures
        existing matches Some(u) ==> r == (u, false),
        existing is None ==> r.1 && r.0.email == Some(email) && r.0.group == UserGroup::Default
            && r.0.username is None && r.0.password_hash is None && r.0.permissions@.len() == 0,
{
    match existing {
        Some(u) => (u, false),
        None => (User::from_email(email), true),
    }
}

/// The error of a failed account lookup: its message after
/// `User load error: `.
fn load_error(e: String) -> (r: AuthError)
    ensures
        r matches AuthError::DbError(m) && m@ == "User load error: "@ + e@,
{
    let mut m = String::from_str("User load error: ");
    m.append(e.as_str());
    AuthError::DbError(m)
}

/// Logs in with a password once the account was looked up: a failed lookup
/// is a load error; otherwise the account is accepted when it has a password
/// hash that the password matches.
pub fn password_login_result(loaded: Result<Option<User>, String>, password: &str) -> (r: Result<
    Option<User>,
    AuthError,
>)
    ensures
        match loaded {
            Err(e) => r matches Err(AuthError::DbError(m)) && m@ == "User load error: "@ + e@,
            Ok(u) => r == Ok::<Option<User>, AuthError>(password_login(u, password@)),
        },
{
    match loaded {
        Err(e) => Err(load_error(e)),
        Ok(u) => Ok(authenticate_with_password(u, password)),
    }
}

/// What a Google login learns at each of its steps.
#[derive(Debug)]
pub enum GoogleEvent {
    /// The login begins; Google authentication may be switched off.
    Start { enabled: bool },
    /// The provider answered the code with this email, or failed.
    EmailFetched(Option<String>),
    /// The lookup of the account of `email` came back.
    UserLoaded { email: String, loaded: Result<Option<User>, String> },
    /// Saving a new account came back.
    UserSaved { user: User, saved: Result<(), String> },
}

/// What a Google login does next.
#[derive(Debug)]
pub enum GoogleAction {
    /// Ask the provider for the email of the code.
    FetchEmail,
    /// Look up the account of this email.
    LoadUser(String),
    /// Save this new account.
    SaveUser(User),
    /// The login is over: this user logs in, nobody does, or it failed.
    Finish(Result<Option<User>, AuthError>),
}

/// One step of a Google login. Without Google authentication, or without an
/// email from the provider, nobody logs in. A failed lookup is a load error;
/// a stored account logs in; otherwise a new account of the email is saved,
/// and logs in once saved (a failed save is reported as `UserNotFound` with
/// its message).
pub fn google_login_step(event: GoogleEvent) -> (r: GoogleAction)
    ensures
        match event {
            GoogleEvent::Start { enabled } => if enabled {
                r is FetchEmail
            } else {
                r == GoogleAction::Finish(Ok(None))
            },
            GoogleEvent::EmailFetched(None) => r == GoogleAction::Finish(Ok(None)),
            GoogleEvent::EmailFetched(Some(e)) => r == GoogleAction::LoadUser(e),
            GoogleEvent::UserLoaded { email, loaded } => match loaded {
                Err(e) => r matches GoogleAction::Finish(Err(AuthError::DbError(m))) && m@
                    == "User load error: "@ + e@,
                Ok(Some(u)) => r == GoogleAction::Finish(Ok(Some(u))),
                Ok(None) => r matches GoogleAction::SaveUser(u) && u.email == Some(email)
                    && u.group == UserGroup::Default && u.username is None && u.password_hash is None
                    && u.permissions@.len() == 0,
            },
            GoogleEvent::UserSaved { user, saved } => match saved {
                Err(e) => r == GoogleAction::Finish(Err(AuthError::UserNotFound(e))),
                Ok(()) => r == GoogleAction::Finish(Ok(Some(user))),
            },
        },
{
    match event {
        GoogleEvent::Start { enabled } => if enabled {
            GoogleAction::FetchEmail
        } else {
            GoogleAction::Finish(Ok(None))
        },
        GoogleEvent::EmailFetched(None) => GoogleAction::Finish(Ok(None)),
        GoogleEvent::EmailFetched(Some(e)) => GoogleAction::LoadUser(e),
        GoogleEvent::UserLoaded { email, loaded } => match loaded {
            Err(e) => GoogleAction::Finish(Err(load_error(e))),
            Ok(existing) => {
                let (user, is_new) = resolve_google_user(existing, email);
                if is_new {
                    GoogleAction::SaveUser(user)
                } else {
                    GoogleAction::Finish(Ok(Some(user)))
                }
            },
        },
        GoogleEvent::UserSaved { user, saved } => match saved {
            Err(e) => GoogleAction::Finish(Err(AuthError::UserNotFound(e))),
            Ok(()) => GoogleAction::Finish(Ok(Some(user))),
        },
    }
}

/// The user of a login whose authentication came back: the user it found,
/// else 401 (no such user, a wrong password, or an error).
pub fn authenticated_user(result: Result<Option<User>, AuthError>) -> (r: Result<User, u16>)
    ensures
        match result {
            Ok(Some(u)) => r == Ok::<User, u16>(u),
            _ => r == Err::<User, u16>(401),
        },
{
    match result {
        Ok(Some(u)) => Ok(u),
        _ => Err(401),
    }
}

/// A new account once the store was asked to save it: the account, else
/// 500.
pub fn saved_signup(user: User, saved: bool) -> (r: Result<User, u16>)
    ensures
        saved ==> r == Ok::<User, u16>(user),
        !saved ==> r == Err::<User, u16>(500),
{
    if saved {
        Ok(user)
    } else {
        Err(500)
    }
}

/// The status of a login that the session refused to record: 500 in a debug
/// build, 401 otherwise.
pub fn session_login_failure(debug: bool) -> (r: u16)
    ensures
        r == (if debug { 500u16 } else { 401u16 }),
{
    if debug {
        500
    } else {
        401
    }
}

/// A login or sign-up form.
#[derive(Clone, Debug)]
pub struct AuthForm {
    pub username: Option<String>,
    pub email: Option<String>,
    pub password: String,
    pub signup: bool,
    pub next: Option<String>,
}

/// What a login form asks for.
#[derive(Clone, Debug)]
pub enum LoginStep {
    /// Neither a username nor an email: the request is malformed.
    BadRequest,
    /// Create an account known by this username, unless it is taken.
    SignupWithUsername { username: String, password: String },
    /// Create an account known by this email, unless it is taken.
    SignupWithEmail { email: String, password: String },
    /// Log in with these credentials.
    Authenticate(Credentials),
}

/// Reads a login form: sign-up or login, by username if one is given, else by
/// email.
pub fn login_step(form: AuthForm) -> (r: LoginStep)
    ensures
        match (form.username, form.email) {
            (Some(u), _) => if form.signup {
                r == (LoginStep::SignupWithUsername { username: u, password: form.password })
            } else {
                r == LoginStep::Authenticate(
                    Credentials::UsernamePassword { username: u, password: form.password },
                )
            },
            (None, Some(e)) => if form.signup {
                r == (LoginStep::SignupWithEmail { email: e, password: form.password })
            } else {
                r == LoginStep::Authenticate(
                    Credentials::EmailPassword { email: e, password: form.password },
                )
            },
            (None, None) => r is BadRequest,
        },
{
    let AuthForm { username, email, password, signup, next: _ } = form;
    match username {
        Some(u) => if signup {
            LoginStep::SignupWithUsername { username: u, password }
        } else {
            LoginStep::Authenticate(Credentials::UsernamePassword { username: u, password })
        },
        None => match email {
            Some(e) => if signup {
                LoginStep::SignupWithEmail { email: e, password }
            } else {
                LoginStep::Authenticate(Credentials::EmailPassword { email: e, password })
            },
            None => LoginStep::BadRequest,
        },
    }
}

/// Completes a sign-up once the store has said whether the username or
/// email is already taken: a conflict (status 409) if it is, else the new
/// account. Other steps are not sign-ups (status 400).
pub fn signup_account(step: LoginStep, taken: bool) -> (r: Result<User, u16>)
    requires
        !taken ==> (step matches LoginStep::SignupWithUsername { password, .. } ==> hashable_password(
            password@,
        )),
        !taken ==> (step matches LoginStep::SignupWithEmail { password, .. } ==> hashable_password(
            password@,
        )),
    ensures
        match step {
            LoginStep::SignupWithUsername { username, password } => if taken {
                r == Err::<User, u16>(409)
            } else {
                r matches Ok(u) && u.username == Some(username) && u.email is None
                    && u.group == UserGroup::Default && u.permissions@.len() == 0
                    && (u.password_hash matches Some(h) && password_matches(password@, h@))
            },
            LoginStep::SignupWithEmail { email, password } => if taken {
                r == Err::<User, u16>(409)
            } else {
                r matches Ok(u) && u.email == Some(email) && u.username is None
                    && u.group == UserGroup::Default && u.permissions@.len() == 0
                    && (u.password_hash matches Some(h) && password_matches(password@, h@))
            },
            _ => r == Err::<User, u16>(400),
        },
{
    match step {
        LoginStep::SignupWithUsername { username, password } => if taken {
            Err(409)
        } else {
            Ok(User::from_username_password(username, password))
        },
        LoginStep::SignupWithEmail { email, password } => if taken {
            Err(409)
        } else {
            Ok(User::from_email_password(email, password))
        },
        _ => Err(400),
    }
}

/// Where to send the browser after a login: the requested page, else the
/// root.
pub fn redirect_after_login(next: Option<String>) -> (r: String)
    ensures
        r@ == (match next {
            Some(n) => n@,
            None => "/"@,
        }),
{
    match next {
        Some(n) => n,
        None => String::from_str("/"),
    }
}

/// Checks the answer of the OAuth provider: the CSRF token it echoes must be
/// the one stored in the session, and a nonce must have been stored; then the
/// code and nonce are the credentials to log in with.
pub fn oauth_callback_credentials(
    stored_csrf: Option<String>,
    stored_nonce: Option<String>,
    returned_state: &str,
    code: String,
) -> (r: Option<Credentials>)
    ensures
        match (stored_csrf, stored_nonce) {
            (Some(c), Some(n)) => if c@ == returned_state@ {
                r == Some(Credentials::GoogleOpenID { code: code, nonce: n })
            } else {
                r is None
            },
            _ => r is None,
        },
{
    let c = match stored_csrf {
        Some(c) => c,
        None => {
            return None;
        },
    };
    let n = match stored_nonce {
        Some(n) => n,
        None => {
            return None;
        },
    };
    if str_eq(c.as_str(), returned_state) {
        Some(Credentials::GoogleOpenID { code, nonce: n })
    } else {
        None
    }
}

/// Why a request was refused a user.
#[derive(Clone, Copy, Debug, PartialEq, Eq)]
pub enum Rejection {
    /// The authentication layer is missing from the request.
    MissingAuthSession,
    /// Nobody is logged in, or the user may not enter the page.
    Unauthorized,
}

/// The user a request acts for: there must be an authentication session and
/// a logged-in user, and pages under `/admin/` are for admins only.
pub fn admit_user(session_present: bool, user: Option<User>, path: &str) -> (r: Result<User, Rejection>)
    ensures
        !session_present ==> r == Err::<User, Rejection>(Rejection::MissingAuthSession),
        session_present && user is None ==> r == Err::<User, Rejection>(Rejection::Unauthorized),
        session_present && user is Some ==> if "/admin/"@.is_prefix_of(path@) && !(user.unwrap().group is Admin) {
            r == Err::<User, Rejection>(Rejection::Unauthorized)
        } else {
            r == Ok::<User, Rejection>(user.unwrap())
        },
{
    if !session_present {
        return Err(Rejection::MissingAuthSession);
    }
    let u = match user {
        Some(u) => u,
        None => {
            return Err(Rejection::Unauthorized);
        },
    };
    if starts_with(path, "/admin/") && !u.is_admin() {
        return Err(Rejection::Unauthorized);
    }
    Ok(u)
}

/// A password account logs in with the password it was created with.
pub proof fn lemma_signup_then_login(user: User, password: Seq<char>)
    requires
        user.password_hash matches Some(h) && password_matches(password, h@),
    ensures
        password_login(Some(user), password) == Some(user),
{
}

/// An account without a password hash never logs in with a password.
pub proof fn lemma_no_hash_no_password_login(user: User, password: Seq<char>)
    requires
        user.password_hash is None,
    ensures
        password_login(Some(user), password) is None,
{
}

} // verus!
