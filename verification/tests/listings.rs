use chess_server::game::{chess_move_from_js_move, BoardMove, BotGame};
use chess_server::models::{SessionDB, User, UserDB};
use chess_server::stockfish_interface::{is_whitespace, EngineLine, EngineTranscript};

#[test]
fn session_entries_list_every_session_once() {
    let mut db = SessionDB::initialize();
    assert!(db.entries().is_empty());
    db.insert("s1".to_string(), "a@x.org".to_string());
    db.insert("s2".to_string(), "b@x.org".to_string());
    db.insert("s1".to_string(), "c@x.org".to_string());
    db.insert("s3".to_string(), "d@x.org".to_string());
    db.remove_session(&"s2".to_string());
    let mut entries = db.entries();
    entries.sort();
    assert_eq!(
        entries,
        vec![
            ("s1".to_string(), "c@x.org".to_string()),
            ("s3".to_string(), "d@x.org".to_string()),
        ]
    );
}

#[test]
fn last_session_write_wins() {
    let mut db = SessionDB::initialize();
    let id = "s".to_string();
    db.insert(id.clone(), "a@x.org".to_string());
    db.insert("t".to_string(), "b@x.org".to_string());
    db.insert(id.clone(), "c@x.org".to_string());
    db.remove_session(&"t".to_string());
    db.insert("u".to_string(), "d@x.org".to_string());
    assert_eq!(db.get(&id), Some("c@x.org".to_string()));
}

fn account(username: &str, email: &str) -> User {
    User { username: username.to_string(), email: email.to_string(), password_hash: String::new(), rating: 500 }
}

#[test]
fn user_listings() {
    let mut db = UserDB::initialize();
    assert!(db.users().is_empty());
    assert!(db.usernames().is_empty());
    db.insert_user("a@x.org".to_string(), account("alice", "a@x.org"));
    db.insert_user("b@x.org".to_string(), account("bob", "b@x.org"));
    let mut users: Vec<(String, String)> =
        db.users().into_iter().map(|(e, u)| (e, u.username)).collect();
    users.sort();
    assert_eq!(
        users,
        vec![("a@x.org".to_string(), "alice".to_string()), ("b@x.org".to_string(), "bob".to_string())]
    );
    let mut names = db.usernames();
    names.sort();
    assert_eq!(
        names,
        vec![("alice".to_string(), "a@x.org".to_string()), ("bob".to_string(), "b@x.org".to_string())]
    );
}

#[test]
fn lookups_after_two_inserts() {
    let mut db = UserDB::initialize();
    db.insert_user("a@x.org".to_string(), account("alice", "a@x.org"));
    db.insert_user("b@x.org".to_string(), account("alice", "b@x.org"));
    assert_eq!(db.get_email_from_username(&"alice".to_string()), Some("b@x.org".to_string()));
    assert_eq!(db.get_user_from_email(&"a@x.org".to_string()).unwrap().email, "a@x.org");
    assert_eq!(db.get_user_from_email(&"b@x.org".to_string()).unwrap().email, "b@x.org");
    assert!(db.get_user_from_email(&"c@x.org".to_string()).is_none());
    assert!(db.get_email_from_username(&"bob".to_string()).is_none());
}

#[test]
fn whitespace_matches_std() {
    for v in 0u32..0x11_0000 {
        if let Some(c) = char::from_u32(v) {
            assert_eq!(is_whitespace(c), c.is_whitespace(), "U+{:04X}", v);
        }
    }
}

#[test]
fn board_move_range() {
    assert!(BoardMove { source: 0, dest: 63, promotion: Some(5) }.in_range());
    assert!(!BoardMove { source: 64, dest: 0, promotion: None }.in_range());
    assert!(!BoardMove { source: 1, dest: 2, promotion: Some(6) }.in_range());
}

#[test]
fn listed_legal_moves_decode_on_board() {
    let game = BotGame::new();
    for js in game.legal_moves() {
        let m = chess_move_from_js_move(&js).unwrap();
        assert!(m.in_range());
    }
}

#[test]
fn engine_is_sent_whole_game() {
    let mut t = EngineTranscript::new();
    let p1 = BoardMove { source: 12, dest: 28, promotion: None };
    t.position_command(p1);
    assert!(matches!(t.read_engine_line("bestmove e7e5\n"), EngineLine::BestMove(_)));
    let p2 = BoardMove { source: 6, dest: 21, promotion: None };
    let cmd = t.position_command(p2);
    assert_eq!(cmd, "position startpos moves e2e4 e7e5 g1f3\n");
    assert!(matches!(t.read_engine_line("bestmove b8c6 ponder f1b5"), EngineLine::BestMove(_)));
    let p3 = BoardMove { source: 5, dest: 33, promotion: None };
    assert_eq!(t.position_command(p3), "position startpos moves e2e4 e7e5 g1f3 b8c6 f1b5\n");
}
