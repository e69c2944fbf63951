use chess_server::game::BoardMove;
use chess_server::stockfish_interface::{
    admit_instance, release_instance, trim_text, EngineLine, EngineTranscript,
    MAX_CONCURRENT_STOCKFISH_INSTANCES,
};

#[test]
fn instance_limit() {
    assert_eq!(MAX_CONCURRENT_STOCKFISH_INSTANCES, 3);
    assert_eq!(admit_instance(0), Some(1));
    assert_eq!(admit_instance(2), Some(3));
    assert_eq!(admit_instance(3), None);
    assert_eq!(admit_instance(255), None);
    assert_eq!(release_instance(3), Some(2));
    assert_eq!(release_instance(1), Some(0));
    assert_eq!(release_instance(0), None);
    for c in 0..MAX_CONCURRENT_STOCKFISH_INSTANCES {
        assert_eq!(release_instance(admit_instance(c).unwrap()), Some(c));
    }
}

#[test]
fn position_commands_accumulate_moves() {
    let mut t = EngineTranscript::new();
    assert_eq!(t.moves_text(), "");
    let cmd = t.position_command(BoardMove { source: 12, dest: 28, promotion: None });
    assert_eq!(cmd, "position startpos moves e2e4\n");
    assert_eq!(t.read_engine_line("bestmove e7e5 ponder g1f3\n"), EngineLine::BestMove(BoardMove {
        source: 52,
        dest: 36,
        promotion: None
    }));
    assert_eq!(t.moves_text(), " e2e4 e7e5");
    let cmd = t.position_command(BoardMove { source: 52, dest: 60, promotion: Some(4) });
    assert_eq!(cmd, "position startpos moves e2e4 e7e5 e7e8q\n");
}

#[test]
fn engine_lines() {
    let mut t = EngineTranscript::new();
    assert_eq!(t.read_engine_line("info depth 20 score cp 35"), EngineLine::Other);
    assert_eq!(t.read_engine_line("bestmove"), EngineLine::Other);
    assert_eq!(t.read_engine_line("readyok\n"), EngineLine::Other);
    assert_eq!(t.read_engine_line("bestmove (none)\n"), EngineLine::Unreadable);
    assert_eq!(t.read_engine_line("  bestmove e2e4"), EngineLine::Unreadable);
    assert_eq!(t.moves_text(), "");
    assert_eq!(
        t.read_engine_line("bestmove a7a8n\r\n"),
        EngineLine::BestMove(BoardMove { source: 48, dest: 56, promotion: Some(1) })
    );
    assert_eq!(t.moves_text(), " a7a8n");
    assert_eq!(t.read_engine_line("bestmove h2h1k"), EngineLine::Unreadable);
    assert_eq!(t.moves_text(), " a7a8n");
}

#[test]
fn trimming() {
    assert_eq!(trim_text("  a b \n"), "a b");
    assert_eq!(trim_text("\t\r\n"), "");
    assert_eq!(trim_text(""), "");
    assert_eq!(trim_text("x"), "x");
    assert_eq!(trim_text("\u{3000}x\u{a0}"), "x");
}
