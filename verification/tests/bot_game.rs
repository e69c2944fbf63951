use chess_server::game::{
    chess_move_from_js_move, piece_from_js_piece, BoardMove, BotGame, BotReply, GameEnd,
    JSMessage, JSMove, JSPiece, PlayerMoveOutcome,
};

fn js(from: [u8; 2], to: [u8; 2]) -> JSMove {
    JSMove { from, to, promotion_piece: JSPiece::NoPiece }
}

fn bm(source: u8, dest: u8) -> BoardMove {
    BoardMove { source, dest, promotion: None }
}

#[test]
fn js_move_of_board_move() {
    let m = JSMove::from_board_move(bm(12, 28));
    assert_eq!(m.from, [6, 4]);
    assert_eq!(m.to, [4, 4]);
    assert_eq!(m.promotion_piece, JSPiece::NoPiece);
    let p = JSMove::from_board_move(BoardMove { source: 52, dest: 60, promotion: Some(4) });
    assert_eq!(p.from, [1, 4]);
    assert_eq!(p.to, [0, 4]);
    assert_eq!(p.promotion_piece, JSPiece::Queen);
}

#[test]
fn board_move_of_js_move() {
    assert_eq!(chess_move_from_js_move(&js([6, 4], [4, 4])), Some(bm(12, 28)));
    assert_eq!(chess_move_from_js_move(&js([8, 4], [4, 4])), None);
    assert_eq!(chess_move_from_js_move(&js([6, 4], [4, 9])), None);
    let promo = JSMove { from: [1, 0], to: [0, 0], promotion_piece: JSPiece::Knight };
    assert_eq!(
        chess_move_from_js_move(&promo),
        Some(BoardMove { source: 48, dest: 56, promotion: Some(1) })
    );
}

#[test]
fn piece_translations() {
    assert_eq!(piece_from_js_piece(&JSPiece::NoPiece), None);
    assert_eq!(piece_from_js_piece(&JSPiece::Pawn), Some(0));
    assert_eq!(piece_from_js_piece(&JSPiece::King), Some(5));
    assert_eq!(JSPiece::from_piece_index(2), JSPiece::Bishop);
    assert_eq!(JSPiece::from_piece_index(3), JSPiece::Rook);
    for i in 0u8..6 {
        assert_eq!(piece_from_js_piece(&JSPiece::from_piece_index(i)), Some(i));
    }
}

#[test]
fn conversion_round_trips() {
    for source in 0u8..64 {
        let m = BoardMove { source, dest: 63 - source, promotion: Some(source % 6) };
        assert_eq!(chess_move_from_js_move(&JSMove::from_board_move(m)), Some(m));
    }
}

#[test]
fn starting_position_has_twenty_moves() {
    let game = BotGame::new();
    let moves = game.legal_moves();
    assert_eq!(moves.len(), 20);
    assert!(moves.contains(&js([6, 4], [4, 4])));
    assert!(moves.contains(&js([7, 6], [5, 5])));
    assert!(game.moves_played().is_empty());
}

#[test]
fn connected_lists_moves_and_keep_alive_is_silent() {
    let mut game = BotGame::new();
    match game.respond(&JSMessage::Connected) {
        BotReply::LegalMoves(moves) => assert_eq!(moves.len(), 20),
        _ => panic!("expected the legal moves"),
    }
    assert!(matches!(game.respond(&JSMessage::KeepAlive), BotReply::Silent));
    assert!(game.moves_played().is_empty());
}

#[test]
fn illegal_and_off_board_moves_are_rejected() {
    let mut game = BotGame::new();
    assert_eq!(game.play_player_move(&js([6, 4], [3, 4])), PlayerMoveOutcome::Rejected);
    assert_eq!(game.play_player_move(&js([9, 4], [4, 4])), PlayerMoveOutcome::Rejected);
    let bad_promo = JSMove { from: [6, 4], to: [4, 4], promotion_piece: JSPiece::Queen };
    assert_eq!(game.play_player_move(&bad_promo), PlayerMoveOutcome::Rejected);
    assert!(game.moves_played().is_empty());
}

#[test]
fn legal_move_waits_for_engine() {
    let mut game = BotGame::new();
    match game.respond(&JSMessage::MovePlayed(js([6, 4], [4, 4]))) {
        BotReply::Move(outcome) => assert_eq!(outcome, PlayerMoveOutcome::AwaitEngine(bm(12, 28))),
        _ => panic!("expected a move outcome"),
    }
    assert_eq!(game.moves_played(), &vec![bm(12, 28)]);
    // it is black's turn now: a white move is not legal
    assert_eq!(game.play_player_move(&js([6, 3], [4, 3])), PlayerMoveOutcome::Rejected);
    let reply = game.answer_engine_move(bm(52, 36)).unwrap();
    assert_eq!(reply.opp_move, js([1, 4], [3, 4]));
    assert_eq!(reply.end, None);
    assert_eq!(reply.legal_moves.len(), 29);
    assert_eq!(game.moves_played().len(), 2);
}

#[test]
fn illegal_engine_move_is_refused() {
    let mut game = BotGame::new();
    game.play_player_move(&js([6, 4], [4, 4]));
    assert!(game.answer_engine_move(bm(52, 28)).is_none());
    assert!(game.answer_engine_move(bm(200, 36)).is_none());
    assert_eq!(game.moves_played().len(), 1);
}

#[test]
fn scholars_mate_is_a_win() {
    let mut game = BotGame::new();
    assert_eq!(game.play_player_move(&js([6, 4], [4, 4])), PlayerMoveOutcome::AwaitEngine(bm(12, 28)));
    game.answer_engine_move(bm(52, 36)).unwrap();
    assert_eq!(game.play_player_move(&js([7, 5], [4, 2])), PlayerMoveOutcome::AwaitEngine(bm(5, 26)));
    game.answer_engine_move(bm(57, 42)).unwrap();
    assert_eq!(game.play_player_move(&js([7, 3], [3, 7])), PlayerMoveOutcome::AwaitEngine(bm(3, 39)));
    game.answer_engine_move(bm(62, 45)).unwrap();
    assert_eq!(game.play_player_move(&js([3, 7], [1, 5])), PlayerMoveOutcome::Finished(GameEnd::Win));
    assert!(game.legal_moves().is_empty());
}

#[test]
fn fools_mate_is_a_loss() {
    let mut game = BotGame::new();
    game.play_player_move(&js([6, 5], [5, 5]));
    assert_eq!(game.answer_engine_move(bm(52, 36)).unwrap().end, None);
    game.play_player_move(&js([6, 6], [4, 6]));
    let reply = game.answer_engine_move(bm(59, 31)).unwrap();
    assert_eq!(reply.end, Some(GameEnd::Lose));
    assert!(reply.legal_moves.is_empty());
    assert_eq!(reply.opp_move, js([0, 3], [4, 7]));
}

#[test]
fn legal_moves_are_listed_once() {
    let mut game = BotGame::new();
    game.play_player_move(&js([6, 4], [4, 4]));
    let reply = game.answer_engine_move(bm(51, 35)).unwrap();
    let moves = reply.legal_moves;
    for i in 0..moves.len() {
        for j in (i + 1)..moves.len() {
            assert_ne!(moves[i], moves[j]);
        }
    }
    let again = game.legal_moves();
    assert_eq!(again.len(), moves.len());
}
