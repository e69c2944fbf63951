use chess_server::models::{LoginForm, RegistrationForm, SessionDB, User, UserDB};
use chess_server::routing::{
    bot_play, check_credentials, index, is_username_taken, login, logout, register, AuthResponse,
    BotPlayPage, IndexPage, LoginAttempt,
};
use chess_server::utils::generate_hash;

fn registration(email: &str, username: &str, password: &str) -> RegistrationForm {
    RegistrationForm {
        email_id: email.to_string(),
        username: username.to_string(),
        password: password.to_string(),
    }
}

fn sign_in(id: &str, password: &str, login_type: &str) -> LoginForm {
    LoginForm { id: id.to_string(), password: password.to_string(), login_type: login_type.to_string() }
}

fn store_with_alice() -> UserDB {
    let mut users = UserDB::initialize();
    assert_eq!(
        register(&registration("alice@x.org", "alice", "pw1"), &mut users),
        AuthResponse::RedirectURL("/auth")
    );
    users
}

#[test]
fn register_creates_account() {
    let users = store_with_alice();
    let u = users.get_user_from_email(&"alice@x.org".to_string()).unwrap();
    assert_eq!(u.username, "alice");
    assert_eq!(u.email, "alice@x.org");
    assert_eq!(u.rating, 500);
    assert_eq!(u.password_hash, generate_hash(b"pw1"));
    assert_eq!(u.password_hash, "xZLfSoaTO5Kt3JhCQC3fGYxjjqm+WJFu5uNzTh4xUvg");
}

#[test]
fn register_refuses_taken_email() {
    let mut users = store_with_alice();
    assert_eq!(
        register(&registration("alice@x.org", "other", "pw2"), &mut users),
        AuthResponse::ErrorMessage("Email already registered!")
    );
    assert!(!users.contains_username(&"other".to_string()));
}

#[test]
fn register_refuses_taken_username() {
    let mut users = store_with_alice();
    assert_eq!(
        register(&registration("bob@x.org", "alice", "pw2"), &mut users),
        AuthResponse::ErrorMessage("Username already exists!")
    );
    assert!(!users.contains_email(&"bob@x.org".to_string()));
}

#[test]
fn credentials_by_username_and_email() {
    let users = store_with_alice();
    let a = check_credentials(&sign_in("alice", "pw1", "Username"), &users).unwrap();
    assert_eq!(a.email, "alice@x.org");
    let b = check_credentials(&sign_in("alice@x.org", "pw1", "Email"), &users).unwrap();
    assert_eq!(b.username, "alice");
}

#[test]
fn credentials_errors() {
    let users = store_with_alice();
    assert_eq!(
        check_credentials(&sign_in("bob", "pw1", "Username"), &users).err(),
        Some(AuthResponse::ErrorMessage("Username does not exist!"))
    );
    assert_eq!(
        check_credentials(&sign_in("bob@x.org", "pw1", "Email"), &users).err(),
        Some(AuthResponse::ErrorMessage("Email does not exist!"))
    );
    assert_eq!(
        check_credentials(&sign_in("alice", "pw1", "Phone"), &users).err(),
        Some(AuthResponse::ErrorMessage("Invalid Request!"))
    );
    assert_eq!(
        check_credentials(&sign_in("alice", "wrong", "Username"), &users).err(),
        Some(AuthResponse::ErrorMessage("Wrong password!"))
    );
    // the login type is case-sensitive; an e-mail given as a username is unknown
    assert_eq!(
        check_credentials(&sign_in("alice@x.org", "pw1", "Username"), &users).err(),
        Some(AuthResponse::ErrorMessage("Username does not exist!"))
    );
    assert_eq!(
        check_credentials(&sign_in("alice", "pw1", "username"), &users).err(),
        Some(AuthResponse::ErrorMessage("Invalid Request!"))
    );
}

#[test]
fn login_opens_session_named_by_clock_hash() {
    let users = store_with_alice();
    let mut sessions = SessionDB::initialize();
    let attempt = login(&sign_in("alice", "pw1", "Username"), &mut sessions, &users, 12345);
    let expected_id = generate_hash(&12345u128.to_be_bytes());
    assert_eq!(expected_id, "ahBF71VjtHdSzb/RiR1iNuLP97uCDFRW63ubF764NTc");
    match attempt {
        LoginAttempt::SignedIn(id) => {
            assert_eq!(id, expected_id);
            assert_eq!(sessions.get(&id), Some("alice@x.org".to_string()));
        }
        _ => panic!("expected a session"),
    }
}

#[test]
fn login_with_taken_session_id_asks_for_retry() {
    let users = store_with_alice();
    let mut sessions = SessionDB::initialize();
    let id = generate_hash(&7u128.to_be_bytes());
    sessions.insert(id.clone(), "someone@x.org".to_string());
    let attempt = login(&sign_in("alice@x.org", "pw1", "Email"), &mut sessions, &users, 7);
    assert!(matches!(attempt, LoginAttempt::SessionIdTaken));
    assert_eq!(sessions.get(&id), Some("someone@x.org".to_string()));
    let again = login(&sign_in("alice@x.org", "pw1", "Email"), &mut sessions, &users, 8);
    assert!(matches!(again, LoginAttempt::SignedIn(_)));
}

#[test]
fn login_rejected_leaves_sessions_alone() {
    let users = store_with_alice();
    let mut sessions = SessionDB::initialize();
    let attempt = login(&sign_in("alice", "nope", "Username"), &mut sessions, &users, 1);
    match attempt {
        LoginAttempt::Rejected(r) => assert_eq!(r, AuthResponse::ErrorMessage("Wrong password!")),
        _ => panic!("expected a refusal"),
    }
    assert!(!sessions.contains_session(&generate_hash(&1u128.to_be_bytes())));
}

#[test]
fn logout_closes_session() {
    let mut sessions = SessionDB::initialize();
    let id = "sid".to_string();
    sessions.insert(id.clone(), "alice@x.org".to_string());
    logout(None, &mut sessions);
    assert!(sessions.contains_session(&id));
    logout(Some(&id), &mut sessions);
    assert!(!sessions.contains_session(&id));
}

#[test]
fn username_taken_answers_text() {
    let users = store_with_alice();
    assert_eq!(is_username_taken("alice", &users), "true");
    assert_eq!(is_username_taken("bob", &users), "false");
    assert_eq!(is_username_taken("alice@x.org", &users), "false");
}

#[test]
fn home_page_decisions() {
    let users = store_with_alice();
    let mut sessions = SessionDB::initialize();
    assert!(matches!(index(None, &sessions, &users), IndexPage::Visitor));
    let id = "sid".to_string();
    assert!(matches!(index(Some(&id), &sessions, &users), IndexPage::Redirect));
    sessions.insert(id.clone(), "alice@x.org".to_string());
    match index(Some(&id), &sessions, &users) {
        IndexPage::Member { rating, username } => {
            assert_eq!(rating, 500);
            assert_eq!(username, "alice");
        }
        _ => panic!("expected the member page"),
    }
}

#[test]
fn sign_in_then_home_then_sign_out() {
    let users = store_with_alice();
    let mut sessions = SessionDB::initialize();
    let id = match login(&sign_in("alice", "pw1", "Username"), &mut sessions, &users, 99) {
        LoginAttempt::SignedIn(id) => id,
        _ => panic!("expected a session"),
    };
    assert!(matches!(index(Some(&id), &sessions, &users), IndexPage::Member { .. }));
    logout(Some(&id), &mut sessions);
    assert!(matches!(index(Some(&id), &sessions, &users), IndexPage::Redirect));
}

#[test]
fn bot_play_page_decisions() {
    let users = store_with_alice();
    let mut sessions = SessionDB::initialize();
    assert!(matches!(bot_play(None, &mut sessions, &users), BotPlayPage::Guest));
    let unknown = "nobody".to_string();
    assert!(matches!(bot_play(Some(&unknown), &mut sessions, &users), BotPlayPage::SignedOut));
    let id = "sid".to_string();
    sessions.insert(id.clone(), "alice@x.org".to_string());
    match bot_play(Some(&id), &mut sessions, &users) {
        BotPlayPage::Player { rating, username } => {
            assert_eq!(rating, 500);
            assert_eq!(username, "alice");
        }
        _ => panic!("expected the player page"),
    }
    assert!(sessions.contains_session(&id));
}

#[test]
fn bot_play_closes_session_without_account() {
    let users = UserDB::initialize();
    let mut sessions = SessionDB::initialize();
    let id = "sid".to_string();
    sessions.insert(id.clone(), "ghost@x.org".to_string());
    assert!(matches!(bot_play(Some(&id), &mut sessions, &users), BotPlayPage::Guest));
    assert!(!sessions.contains_session(&id));
}

#[test]
fn account_type_is_usable_directly() {
    let mut users = UserDB::initialize();
    users.insert_user(
        "c@x.org".to_string(),
        User {
            username: "carol".to_string(),
            email: "c@x.org".to_string(),
            password_hash: generate_hash(b"pw3"),
            rating: 800,
        },
    );
    let c = check_credentials(&sign_in("carol", "pw3", "Username"), &users).unwrap();
    assert_eq!(c.rating, 800);
}

#[test]
fn registrations_keep_usernames_and_accounts_agreeing() {
    let mut users = UserDB::initialize();
    register(&registration("a@x.org", "alice", "p"), &mut users);
    register(&registration("b@x.org", "bob", "q"), &mut users);
    register(&registration("c@x.org", "alice", "r"), &mut users);
    register(&registration("a@x.org", "carol", "s"), &mut users);
    for (name, email) in users.usernames() {
        let account = users.get_user_from_email(&email).unwrap();
        assert_eq!(account.username, name);
        assert_eq!(account.email, email);
    }
    for (email, account) in users.users() {
        assert_eq!(users.get_email_from_username(&account.username), Some(email));
    }
    assert_eq!(users.users().len(), 2);
}
