use chess_server::models::{SessionDB, User, UserDB};

fn account(username: &str, email: &str, rating: u16) -> User {
    User {
        username: username.to_string(),
        email: email.to_string(),
        password_hash: "hash".to_string(),
        rating,
    }
}

#[test]
fn session_insert_get_remove() {
    let mut db = SessionDB::initialize();
    let id = "s1".to_string();
    assert!(!db.contains_session(&id));
    assert_eq!(db.get(&id), None);
    assert_eq!(db.insert(id.clone(), "a@x.org".to_string()), None);
    assert!(db.contains_session(&id));
    assert_eq!(db.get(&id), Some("a@x.org".to_string()));
    assert_eq!(db.insert(id.clone(), "b@x.org".to_string()), Some("a@x.org".to_string()));
    assert_eq!(db.get(&id), Some("b@x.org".to_string()));
    assert_eq!(db.remove_session(&id), Some("b@x.org".to_string()));
    assert!(!db.contains_session(&id));
    assert_eq!(db.remove_session(&id), None);
}

#[test]
fn sessions_are_independent() {
    let mut db = SessionDB::initialize();
    db.insert("s1".to_string(), "a@x.org".to_string());
    db.insert("s2".to_string(), "b@x.org".to_string());
    db.remove_session(&"s1".to_string());
    assert_eq!(db.get(&"s2".to_string()), Some("b@x.org".to_string()));
    assert_eq!(db.get(&"s1".to_string()), None);
}

#[test]
fn user_insert_and_lookups() {
    let mut db = UserDB::initialize();
    let email = "a@x.org".to_string();
    let name = "alice".to_string();
    assert!(!db.contains_email(&email));
    assert!(!db.contains_username(&name));
    assert!(db.get_user_from_username(&name).is_none());
    assert!(db.insert_user(email.clone(), account("alice", "a@x.org", 500)).is_none());
    assert!(db.contains_email(&email));
    assert!(db.contains_username(&name));
    assert_eq!(db.get_email_from_username(&name), Some(email.clone()));
    let by_name = db.get_user_from_username(&name).unwrap();
    let by_email = db.get_user_from_email(&email).unwrap();
    assert_eq!(by_name.username, "alice");
    assert_eq!(by_email.rating, 500);
    assert_eq!(by_email.email, "a@x.org");
}

#[test]
fn user_insert_returns_previous_account() {
    let mut db = UserDB::initialize();
    let email = "a@x.org".to_string();
    db.insert_user(email.clone(), account("alice", "a@x.org", 500));
    let previous = db.insert_user(email.clone(), account("alicia", "a@x.org", 900)).unwrap();
    assert_eq!(previous.username, "alice");
    assert_eq!(db.get_user_from_email(&email).unwrap().rating, 900);
    // the old username still leads to the e-mail, now holding the new account
    assert_eq!(db.get_user_from_username(&"alice".to_string()).unwrap().username, "alicia");
    assert_eq!(db.get_user_from_username(&"alicia".to_string()).unwrap().rating, 900);
}

#[test]
fn user_clone_keeps_fields() {
    let u = account("bob", "b@x.org", 1200);
    let c = u.clone();
    assert_eq!(c.username, u.username);
    assert_eq!(c.email, u.email);
    assert_eq!(c.password_hash, u.password_hash);
    assert_eq!(c.rating, u.rating);
}
