//! The decisions behind the service's pages: registration, sign-in, sign-out,
//! username lookups, and which page a visitor is shown.

use crate::models::{
    self, LoginForm, RegistrationForm, SessionDB, SessionId, User, UserDB, Username,
};
use crate::utils::{self, generate_hash, u128_be_bytes};
use vstd::prelude::*;

verus! {

/// The JSON answer to a sign-in or registration request.
#[derive(Debug, Clone, Copy, PartialEq, Eq)]
pub enum AuthResponse {
    ErrorMessage(&'static str),
    RedirectURL(&'static str),
}

/// Whether `a` holds the text `b`.
fn same_text(a: &String, b: &str) -> (equal: bool)
    ensures
        equal == (a@ == b@),
{
    let b_owned = b.to_owned();
    *a == b_owned
}

/// The account a sign-in form names, before its password is checked.
pub open spec fn named_account(
    db: models::UserDBView,
    id: Seq<char>,
    login_type: Seq<char>,
) -> Result<models::UserView, AuthResponse> {
    if login_type == "Username"@ {
        match models::user_by_username(db, id) {
            Some(u) => Ok(u),
            None => Err(AuthResponse::ErrorMessage("Username does not exist!")),
        }
    } else if login_type == "Email"@ {
        match models::map_get(db.users, id) {
            Some(u) => Ok(u),
            None => Err(AuthResponse::ErrorMessage("Email does not exist!")),
        }
    } else {
        Err(AuthResponse::ErrorMessage("Invalid Request!"))
    }
}

/// What a sign-in form yields: the account, or the error shown to the visitor.
pub open spec fn credentials_outcome(
    db: models::UserDBView,
    id: Seq<char>,
    password: Seq<char>,
    login_type: Seq<char>,
) -> Result<models::UserView, AuthResponse> {
    match named_account(db, id, login_type) {
        Ok(u) => if u.password_hash == utils::hash_text(vstd::utf8::encode_utf8(password)) {
            Ok(u)
        } else {
            Err(AuthResponse::ErrorMessage("Wrong password!"))
        },
        Err(e) => Err(e),
    }
}

/// A sign-in succeeds only with the password whose hash the named account
/// stores, whichever way the account is named; with any other password the
/// named account is refused as "Wrong password!".
pub proof fn sign_in_needs_the_password(
    db: models::UserDBView,
    id: Seq<char>,
    password: Seq<char>,
    login_type: Seq<char>,
)
    ensures
        credentials_outcome(db, id, password, login_type) matches Ok(u) ==> {
            &&& u.password_hash == utils::hash_text(vstd::utf8::encode_utf8(password))
            &&& login_type == "Username"@ ==> models::user_by_username(db, id) == Some(u)
            &&& login_type != "Username"@ ==> login_type == "Email"@ && models::map_get(
                db.users,
                id,
            ) == Some(u)
        },
        login_type == "Email"@ && db.users.contains_key(id) && db.users[id].password_hash
            != utils::hash_text(vstd::utf8::encode_utf8(password)) ==> credentials_outcome(
            db,
            id,
            password,
            login_type,
        ) == Err::<models::UserView, AuthResponse>(AuthResponse::ErrorMessage("Wrong password!")),
        (login_type == "Username"@ && models::user_by_username(db, id) is Some
            && models::user_by_username(db, id)->Some_0.password_hash != utils::hash_text(
            vstd::utf8::encode_utf8(password),
        )) ==> credentials_outcome(db, id, password, login_type) == Err::<
            models::UserView,
            AuthResponse,
        >(AuthResponse::ErrorMessage("Wrong password!")),
{
    reveal_strlit("Username");
    reveal_strlit("Email");
    assert("Email"@.len() != "Username"@.len());
}

/// The session id issued at clock reading `clock_nanos` (nanoseconds since the epoch).
pub open spec fn session_id_for(clock_nanos: u128) -> Seq<char> {
    utils::hash_text(utils::be_bytes(clock_nanos as nat, 16))
}

/// Looks up the account a sign-in form names and checks its password.
pub fn check_credentials(login_form: &LoginForm, user_db: &UserDB) -> (outcome: Result<
    User,
    AuthResponse,
>)
    requires
        vstd::utf8::encode_utf8(login_form.password@).len() < 0x1000_0000_0000_0000,
    ensures
        match (outcome, credentials_outcome(
            user_db@,
            login_form.id@,
            login_form.password@,
            login_form.login_type@,
        )) {
            (Ok(u), Ok(v)) => u@ == v,
            (Err(e), Err(f)) => e == f,
            _ => false,
        },
        outcome matches Ok(u) ==> u.password_hash@ == utils::hash_text(
            vstd::utf8::encode_utf8(login_form.password@),
        ),
{
    let user = if same_text(&login_form.login_type, "Username") {
        if !user_db.contains_username(&login_form.id) {
            return Err(AuthResponse::ErrorMessage("Username does not exist!"));
        }
        match user_db.get_user_from_username(&login_form.id) {
            Some(u) => u,
            None => {
                return Err(AuthResponse::ErrorMessage("Username does not exist!"));
            },
        }
    } else if same_text(&login_form.login_type, "Email") {
        if !user_db.contains_email(&login_form.id) {
            return Err(AuthResponse::ErrorMessage("Email does not exist!"));
        }
        match user_db.get_user_from_email(&login_form.id) {
            Some(u) => u,
            None => {
                return Err(AuthResponse::ErrorMessage("Email does not exist!"));
            },
        }
    } else {
        return Err(AuthResponse::ErrorMessage("Invalid Request!"));
    };
    let hashed = generate_hash(login_form.password.as_str().as_bytes());
    if !(user.password_hash == hashed) {
        return Err(AuthResponse::ErrorMessage("Wrong password!"));
    }
    Ok(user)
}

/// One sign-in attempt at clock reading `clock_nanos`.
pub enum LoginAttempt {
    /// The form was refused; the visitor is shown this answer.
    Rejected(AuthResponse),
    /// The credentials are good but the session id derived from the clock is
    /// already in use: try again with a later clock reading.
    SessionIdTaken,
    /// A session was opened under this id; the visitor is sent to `/`.
    SignedIn(SessionId),
}

/// Checks a sign-in form and, if it is good, opens a session whose id is the
/// hash of the clock reading, unless that id is already open.
pub fn login(
    login_form: &LoginForm,
    session_db: &mut SessionDB,
    user_db: &UserDB,
    clock_nanos: u128,
) -> (attempt: LoginAttempt)
    requires
        vstd::utf8::encode_utf8(login_form.password@).len() < 0x1000_0000_0000_0000,
    ensures
        match credentials_outcome(
            user_db@,
            login_form.id@,
            login_form.password@,
            login_form.login_type@,
        ) {
            Err(e) => attempt == LoginAttempt::Rejected(e) && final(session_db)@ == old(
                session_db,
            )@,
            Ok(account) => if old(session_db)@.contains_key(session_id_for(clock_nanos)) {
                attempt is SessionIdTaken && final(session_db)@ == old(session_db)@
            } else {
                &&& attempt matches LoginAttempt::SignedIn(id)
                &&& id@ == session_id_for(clock_nanos)
                &&& final(session_db)@ == old(session_db)@.insert(
                    session_id_for(clock_nanos),
                    account.email,
                )
            },
        },
{
    let user = match check_credentials(login_form, user_db) {
        Ok(u) => u,
        Err(e) => {
            return LoginAttempt::Rejected(e);
        },
    };
    let clock_bytes = u128_be_bytes(clock_nanos);
    let new_session_id = generate_hash(clock_bytes.as_slice());
    if session_db.contains_session(&new_session_id) {
        return LoginAttempt::SessionIdTaken;
    }
    let _ = session_db.insert(new_session_id.clone(), user.email);
    LoginAttempt::SignedIn(new_session_id)
}

/// The account that a registration form creates.
pub open spec fn registered_account(
    email: Seq<char>,
    username: Seq<char>,
    password: Seq<char>,
) -> models::UserView {
    models::UserView {
        username,
        email,
        password_hash: utils::hash_text(vstd::utf8::encode_utf8(password)),
        rating: 500,
    }
}

/// The answer to a registration of `email` and `username` given the accounts in `db`.
pub open spec fn registration_response(
    db: models::UserDBView,
    email: Seq<char>,
    username: Seq<char>,
) -> AuthResponse {
    if db.users.contains_key(email) {
        AuthResponse::ErrorMessage("Email already registered!")
    } else if db.usernames.contains_key(username) {
        AuthResponse::ErrorMessage("Username already exists!")
    } else {
        AuthResponse::RedirectURL("/auth")
    }
}

/// Registers the account a form describes, unless its e-mail or username is taken.
pub fn register(registration_form: &RegistrationForm, user_db: &mut UserDB) -> (response:
    AuthResponse)
    requires
        vstd::utf8::encode_utf8(registration_form.password@).len() < 0x1000_0000_0000_0000,
    ensures
        response == registration_response(
            old(user_db)@,
            registration_form.email_id@,
            registration_form.username@,
        ),
        response == AuthResponse::RedirectURL("/auth") ==> final(user_db)@ == models::with_user(
            old(user_db)@,
            registration_form.email_id@,
            registered_account(
                registration_form.email_id@,
                registration_form.username@,
                registration_form.password@,
            ),
        ),
        response != AuthResponse::RedirectURL("/auth") ==> final(user_db)@ == old(user_db)@,
{
    if user_db.contains_email(&registration_form.email_id) {
        return AuthResponse::ErrorMessage("Email already registered!");
    } else if user_db.contains_username(&registration_form.username) {
        return AuthResponse::ErrorMessage("Username already exists!");
    }
    let user = User {
        username: registration_form.username.clone(),
        email: registration_form.email_id.clone(),
        password_hash: generate_hash(registration_form.password.as_str().as_bytes()),
        rating: 500,
    };
    let _ = user_db.insert_user(registration_form.email_id.clone(), user);
    AuthResponse::RedirectURL("/auth")
}

/// Closes the visitor's session, if the request carried one.
pub fn logout(session_id: Option<&SessionId>, session_db: &mut SessionDB)
    ensures
        final(session_db)@ == match session_id {
            Some(id) => old(session_db)@.remove(id@),
            None => old(session_db)@,
        },
{
    if let Some(id) = session_id {
        let _ = session_db.remove_session(id);
    }
}

/// `"true"` if `username` is taken, else `"false"`.
pub fn is_username_taken(username: &str, user_db: &UserDB) -> (answer: String)
    ensures
        answer@ == if user_db@.usernames.contains_key(username@) {
            "true"@
        } else {
            "false"@
        },
{
    let name = username.to_owned();
    if user_db.contains_username(&name) {
        "true".to_owned()
    } else {
        "false".to_owned()
    }
}

/// What the home page shows.
pub enum IndexPage {
    /// No session cookie: the signed-out home page.
    Visitor,
    /// A signed-in member: the home page with their rating and username.
    Member { rating: u16, username: Username },
    /// The cookie names no open session: drop the cookie and go to `/auth`.
    Redirect,
}

/// The abstract content of an `IndexPage`.
pub enum HomeView {
    Visitor,
    Member { rating: u16, username: Seq<char> },
    Redirect,
}

/// The abstract content of a home page.
pub open spec fn home_view(page: IndexPage) -> HomeView {
    match page {
        IndexPage::Visitor => HomeView::Visitor,
        IndexPage::Member { rating, username } => HomeView::Member { rating, username: username@ },
        IndexPage::Redirect => HomeView::Redirect,
    }
}

/// The home page for a request whose cookie is `session_id`.
pub open spec fn home_page_for(
    sessions: Map<Seq<char>, Seq<char>>,
    users: models::UserDBView,
    session_id: Option<Seq<char>>,
) -> HomeView {
    match session_id {
        None => HomeView::Visitor,
        Some(id) => match models::map_get(sessions, id) {
            None => HomeView::Redirect,
            Some(email) => HomeView::Member {
                rating: users.users[email].rating,
                username: users.users[email].username,
            },
        },
    }
}

/// The text of an optional session id.
pub open spec fn opt_id(id: Option<&SessionId>) -> Option<Seq<char>> {
    match id {
        Some(s) => Some(s@),
        None => None,
    }
}

/// Decides the home page for a request that carried `session_id` as its cookie.
pub fn index(session_id: Option<&SessionId>, session_db: &SessionDB, user_db: &UserDB) -> (page:
    IndexPage)
    requires
        match session_id {
            Some(id) => session_db@.contains_key(id@) ==> user_db@.users.contains_key(
                session_db@[id@],
            ),
            None => true,
        },
    ensures
        home_view(page) == home_page_for(session_db@, user_db@, opt_id(session_id)),
{
    match session_id {
        Some(id) => match session_db.get(id) {
            None => IndexPage::Redirect,
            Some(email_id) => {
                let user = user_db.get_user_from_email(&email_id);
                match user {
                    Some(user) => IndexPage::Member { rating: user.rating, username: user.username },
                    None => IndexPage::Redirect,
                }
            },
        },
        None => IndexPage::Visitor,
    }
}

/// What the bot-game page shows.
pub enum BotPlayPage {
    /// A signed-in player: the game page with their rating and username.
    Player { rating: u16, username: Username },
    /// The cookie names no open session: drop the cookie and show the signed-out home page.
    SignedOut,
    /// The game page for a guest.
    Guest,
}

/// The abstract content of a `BotPlayPage`.
pub enum GamePageView {
    Player { rating: u16, username: Seq<char> },
    SignedOut,
    Guest,
}

/// The abstract content of a bot-game page.
pub open spec fn game_page_view(page: BotPlayPage) -> GamePageView {
    match page {
        BotPlayPage::Player { rating, username } => GamePageView::Player {
            rating,
            username: username@,
        },
        BotPlayPage::SignedOut => GamePageView::SignedOut,
        BotPlayPage::Guest => GamePageView::Guest,
    }
}

/// The bot-game page for a request whose cookie is `session_id`.
pub open spec fn game_page_for(
    sessions: Map<Seq<char>, Seq<char>>,
    users: models::UserDBView,
    session_id: Option<Seq<char>>,
) -> GamePageView {
    match session_id {
        None => GamePageView::Guest,
        Some(id) => match models::map_get(sessions, id) {
            None => GamePageView::SignedOut,
            Some(email) => match models::map_get(users.users, email) {
                Some(account) => GamePageView::Player {
                    rating: account.rating,
                    username: account.username,
                },
                None => GamePageView::Guest,
            },
        },
    }
}

/// The sessions left after the bot-game page for `session_id` is decided: a
/// session whose account is gone is closed.
pub open spec fn sessions_after_game_page(
    sessions: Map<Seq<char>, Seq<char>>,
    users: models::UserDBView,
    session_id: Option<Seq<char>>,
) -> Map<Seq<char>, Seq<char>> {
    match session_id {
        Some(id) => if sessions.contains_key(id) && !users.users.contains_key(sessions[id]) {
            sessions.remove(id)
        } else {
            sessions
        },
        None => sessions,
    }
}

/// Decides the bot-game page for a request that carried `session_id` as its
/// cookie; a session whose account is gone is closed.
pub fn bot_play(session_id: Option<&SessionId>, session_db: &mut SessionDB, user_db: &UserDB) -> (page:
    BotPlayPage)
    ensures
        game_page_view(page) == game_page_for(old(session_db)@, user_db@, opt_id(session_id)),
        final(session_db)@ == sessions_after_game_page(
            old(session_db)@,
            user_db@,
            opt_id(session_id),
        ),
{
    if let Some(session_id) = session_id {
        match session_db.get(session_id) {
            Some(email_id) => {
                match user_db.get_user_from_email(&email_id) {
                    Some(user) => {
                        return BotPlayPage::Player { rating: user.rating, username: user.username };
                    },
                    None => {
                        let _ = session_db.remove_session(session_id);
                    },
                }
            },
            None => {
                return BotPlayPage::SignedOut;
            },
        }
    }
    BotPlayPage::Guest
}

/// Whether every account is filed under its own e-mail.
pub open spec fn accounts_filed_by_email(db: models::UserDBView) -> bool {
    forall|e: Seq<char>| #[trigger] db.users.contains_key(e) ==> db.users[e].email == e
}

/// Registration files the new account under its own e-mail, so a store whose
/// accounts all came from registration keeps every account under its e-mail.
pub proof fn registration_files_account_by_email(
    db: models::UserDBView,
    email: Seq<char>,
    username: Seq<char>,
    password: Seq<char>,
)
    requires
        accounts_filed_by_email(db),
    ensures
        accounts_filed_by_email(
            models::with_user(db, email, registered_account(email, username, password)),
        ),
{
}

/// Whether usernames and accounts agree: each username leads to an account that
/// carries it, and each account is filed under its own e-mail and named by its
/// username.
pub open spec fn accounts_agree(db: models::UserDBView) -> bool {
    &&& forall|u: Seq<char>| #[trigger]
        db.usernames.contains_key(u) ==> db.users.contains_key(db.usernames[u])
            && db.users[db.usernames[u]].username == u
    &&& forall|e: Seq<char>| #[trigger]
        db.users.contains_key(e) ==> db.users[e].email == e && db.usernames.contains_key(
            db.users[e].username,
        ) && db.usernames[db.users[e].username] == e
}

/// The account store after a registration of `email`, `username`, `password`.
pub open spec fn after_registration(
    db: models::UserDBView,
    email: Seq<char>,
    username: Seq<char>,
    password: Seq<char>,
) -> models::UserDBView {
    if registration_response(db, email, username) == AuthResponse::RedirectURL("/auth") {
        models::with_user(db, email, registered_account(email, username, password))
    } else {
        db
    }
}

/// Registration, whatever it answers, keeps usernames and accounts in agreement
/// (an empty store agrees trivially).
pub proof fn registration_keeps_accounts_agreeing(
    db: models::UserDBView,
    email: Seq<char>,
    username: Seq<char>,
    password: Seq<char>,
)
    requires
        accounts_agree(db),
    ensures
        accounts_agree(after_registration(db, email, username, password)),
{
    if registration_response(db, email, username) == AuthResponse::RedirectURL("/auth") {
        let account = registered_account(email, username, password);
        let after = models::with_user(db, email, account);
        assert forall|u: Seq<char>| #[trigger] after.usernames.contains_key(u) implies after.users.contains_key(
            after.usernames[u],
        ) && after.users[after.usernames[u]].username == u by {
            if u != username {
                assert(db.users.contains_key(db.usernames[u]));
            }
        }
        assert forall|e: Seq<char>| #[trigger] after.users.contains_key(e) implies after.users[e].email
            == e && after.usernames.contains_key(after.users[e].username)
            && after.usernames[after.users[e].username] == e by {
            if e != email {
                assert(db.users.contains_key(e));
                assert(db.usernames.contains_key(db.users[e].username));
            }
        }
    }
}

/// A visitor who registered can then sign in with the same password, by
/// username and by e-mail, and signs in to the account just created.
pub proof fn registered_user_can_sign_in(
    db: models::UserDBView,
    email: Seq<char>,
    username: Seq<char>,
    password: Seq<char>,
)
    requires
        !db.users.contains_key(email),
        !db.usernames.contains_key(username),
    ensures
        credentials_outcome(
            models::with_user(db, email, registered_account(email, username, password)),
            username,
            password,
            "Username"@,
        ) == Ok::<models::UserView, AuthResponse>(registered_account(email, username, password)),
        credentials_outcome(
            models::with_user(db, email, registered_account(email, username, password)),
            email,
            password,
            "Email"@,
        ) == Ok::<models::UserView, AuthResponse>(registered_account(email, username, password)),
{
    reveal_strlit("Username");
    reveal_strlit("Email");
    assert("Email"@ != "Username"@) by {
        assert("Email"@.len() != "Username"@.len());
    }
}

/// Once an e-mail or a username is registered, registering it again is refused.
pub proof fn registration_is_once(
    db: models::UserDBView,
    email: Seq<char>,
    username: Seq<char>,
    password: Seq<char>,
    other_email: Seq<char>,
    other_username: Seq<char>,
)
    requires
        other_email != email ==> !db.users.contains_key(other_email),
    ensures
        ({
            let after = models::with_user(db, email, registered_account(email, username, password));
            &&& registration_response(after, email, other_username) == AuthResponse::ErrorMessage(
                "Email already registered!",
            )
            &&& other_email != email ==> registration_response(after, other_email, username)
                == AuthResponse::ErrorMessage("Username already exists!")
        }),
{
}

/// After a successful sign-in, the home page shows the member who signed in
/// (when every account is filed under its own e-mail).
pub proof fn signed_in_member_sees_home_page(
    sessions: Map<Seq<char>, Seq<char>>,
    users: models::UserDBView,
    id: Seq<char>,
    password: Seq<char>,
    login_type: Seq<char>,
    session_id: Seq<char>,
)
    requires
        models::usernames_resolve(users),
        accounts_filed_by_email(users),
        credentials_outcome(users, id, password, login_type) is Ok,
    ensures
        ({
            let account = credentials_outcome(users, id, password, login_type)->Ok_0;
            home_page_for(sessions.insert(session_id, account.email), users, Some(session_id))
                == HomeView::Member { rating: account.rating, username: account.username }
        }),
{
    let account = credentials_outcome(users, id, password, login_type)->Ok_0;
    if login_type == "Username"@ {
        let email = users.usernames[id];
        assert(users.users.contains_key(email));
        assert(users.users[email].email == email);
    } else {
        assert(users.users.contains_key(id));
        assert(users.users[id].email == id);
    }
    assert(sessions.insert(session_id, account.email).contains_key(session_id));
}

/// After signing out, the session's cookie leads to the sign-in page.
pub proof fn signed_out_session_redirects(
    sessions: Map<Seq<char>, Seq<char>>,
    users: models::UserDBView,
    session_id: Seq<char>,
)
    ensures
        home_page_for(sessions.remove(session_id), users, Some(session_id)) == HomeView::Redirect,
        game_page_for(sessions.remove(session_id), users, Some(session_id))
            == GamePageView::SignedOut,
{
}

} // verus!
