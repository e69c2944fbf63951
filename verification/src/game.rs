//! The bot game: the move format the browser speaks, its translation to the
//! chess crate's square numbering, and the game state machine driven by the
//! browser's messages and the engine's replies.

use chess::{Board, BoardStatus, ChessMove, MoveGen, ALL_PIECES, ALL_SQUARES, EMPTY};
use std::str::FromStr;
use vstd::prelude::*;

verus! {

/// A move in the chess crate's numbering: squares are `rank * 8 + file`
/// (a1 = 0, h1 = 7, a8 = 56, h8 = 63); a promotion is a piece index
/// (pawn 0, knight 1, bishop 2, rook 3, queen 4, king 5).
#[derive(Debug, Clone, Copy, PartialEq, Eq, Structural)]
pub struct BoardMove {
    pub source: u8,
    pub dest: u8,
    pub promotion: Option<u8>,
}

/// Whether a move's squares and promotion piece are in range.
pub open spec fn move_in_range(m: BoardMove) -> bool {
    &&& m.source < 64
    &&& m.dest < 64
    &&& match m.promotion {
        Some(p) => p < 6,
        None => true,
    }
}

impl BoardMove {
    /// Whether the move's squares and promotion piece are in range.
    pub fn in_range(&self) -> (ok: bool)
        ensures
            ok == move_in_range(*self),
    {
        self.source < 64 && self.dest < 64 && match self.promotion {
            Some(p) => p < 6,
            None => true,
        }
    }
}

/// The state of a position, as the chess crate reports it.
#[derive(Debug, Clone, Copy, PartialEq, Eq, Structural)]
pub enum GameStatus {
    Ongoing,
    Stalemate,
    Checkmate,
}

/// The legal moves, in the chess crate's generation order, of the position
/// reached by playing `history` from the standard starting position.
pub uninterp spec fn legal_moves_after(history: Seq<BoardMove>) -> Seq<BoardMove>;

/// The status the chess crate reports for the position reached by `history`.
pub uninterp spec fn status_after(history: Seq<BoardMove>) -> GameStatus;

/// Whether each move of `history` is legal in the position before it.
pub open spec fn legal_history(history: Seq<BoardMove>) -> bool {
    forall|i: int|
        0 <= i < history.len() ==> #[trigger] legal_moves_after(history.take(i)).contains(
            history[i],
        )
}

/// Replays `history` with `chess::Board::make_move_new` from `Board::default()`
/// and lists the moves of `chess::MoveGen::new_legal` on the result, over all
/// target squares. Trusted: the list is
/// `legal_moves_after(history)`, every listed move is in range (squares are
/// below 64 and piece indices below 6 by construction in the crate), and no move
/// is listed twice (the generator emits each target of each entry once, and an
/// en-passant entry's target is not among its pawn's other targets).
#[verifier::external_body]
fn generate_legal_moves(history: &Vec<BoardMove>) -> (moves: Vec<BoardMove>)
    requires
        legal_history(history@),
    ensures
        moves@ == legal_moves_after(history@),
        forall|i: int| 0 <= i < moves@.len() ==> move_in_range(#[trigger] moves@[i]),
        moves@.no_duplicates(),
{
    let mut board = Board::default();
    for m in history {
        let promotion = m.promotion.map(|p| ALL_PIECES[p as usize]);
        board = board.make_move_new(ChessMove::new(ALL_SQUARES[m.source as usize], ALL_SQUARES[m.dest as usize], promotion));
    }
    let mut generator = MoveGen::new_legal(&board);
    generator.set_iterator_mask(!EMPTY);
    let mut moves = Vec::new();
    for cm in generator {
        let promotion = cm.get_promotion().map(|p| p.to_index() as u8);
        moves.push(BoardMove { source: cm.get_source().to_int(), dest: cm.get_dest().to_int(), promotion });
    }
    moves
}

/// Replays `history` as above and calls `chess::Board::legal`. Trusted: the crate's
/// `legal` searches `MoveGen::new_legal` for the move, so the answer is whether
/// `legal_moves_after(history)` holds it.
#[verifier::external_body]
fn board_allows(history: &Vec<BoardMove>, m: BoardMove) -> (legal: bool)
    requires
        legal_history(history@),
        move_in_range(m),
    ensures
        legal == legal_moves_after(history@).contains(m),
{
    let mut board = Board::default();
    for h in history {
        let promotion = h.promotion.map(|p| ALL_PIECES[p as usize]);
        board = board.make_move_new(ChessMove::new(ALL_SQUARES[h.source as usize], ALL_SQUARES[h.dest as usize], promotion));
    }
    let promotion = m.promotion.map(|p| ALL_PIECES[p as usize]);
    board.legal(ChessMove::new(ALL_SQUARES[m.source as usize], ALL_SQUARES[m.dest as usize], promotion))
}

/// Replays `history` as above and calls `chess::Board::status`. Trusted: the
/// status is `status_after(history)`, and, as the crate computes it from the
/// number of legal moves, it is `Ongoing` exactly when some move is legal.
#[verifier::external_body]
fn board_status(history: &Vec<BoardMove>) -> (status: GameStatus)
    requires
        legal_history(history@),
    ensures
        status == status_after(history@),
        (status == GameStatus::Ongoing) == (legal_moves_after(history@).len() > 0),
{
    let mut board = Board::default();
    for h in history {
        let promotion = h.promotion.map(|p| ALL_PIECES[p as usize]);
        board = board.make_move_new(ChessMove::new(ALL_SQUARES[h.source as usize], ALL_SQUARES[h.dest as usize], promotion));
    }
    match board.status() {
        BoardStatus::Ongoing => GameStatus::Ongoing,
        BoardStatus::Stalemate => GameStatus::Stalemate,
        BoardStatus::Checkmate => GameStatus::Checkmate,
    }
}

/// The name of square `sq` (file letter, then rank digit), as the chess crate prints it.
pub open spec fn square_text(sq: u8) -> Seq<char> {
    seq![('a' as int + sq % 8) as char, ('1' as int + sq / 8) as char]
}

/// The letter the chess crate prints for piece index `p`.
pub open spec fn piece_letter(p: u8) -> char {
    if p == 0 {
        'p'
    } else if p == 1 {
        'n'
    } else if p == 2 {
        'b'
    } else if p == 3 {
        'r'
    } else if p == 4 {
        'q'
    } else {
        'k'
    }
}

/// The UCI text of a move: source square, destination square, promotion letter.
pub open spec fn uci_text(m: BoardMove) -> Seq<char> {
    square_text(m.source) + square_text(m.dest) + match m.promotion {
        Some(p) => seq![piece_letter(p)],
        None => Seq::empty(),
    }
}

/// Formats a move with `chess::ChessMove`'s `Display`. Trusted: the text is
/// `uci_text(m)`, which is what the crate's `Display` impls for `ChessMove`,
/// `Square` and `Piece` write.
#[verifier::external_body]
pub(crate) fn chess_move_text(m: BoardMove) -> (text: String)
    requires
        move_in_range(m),
    ensures
        text@ == uci_text(m),
{
    let promotion = m.promotion.map(|p| ALL_PIECES[p as usize]);
    ChessMove::new(ALL_SQUARES[m.source as usize], ALL_SQUARES[m.dest as usize], promotion).to_string()
}

/// Whether byte `b` is a file letter `a`..`h`.
pub open spec fn is_file_byte(b: u8) -> bool {
    97 <= b <= 104
}

/// Whether byte `b` is a rank digit `1`..`8`.
pub open spec fn is_rank_byte(b: u8) -> bool {
    49 <= b <= 56
}

/// The piece index a UCI promotion letter stands for (`q`, `r`, `n`, `b`).
pub open spec fn promotion_of_byte(b: u8) -> Option<u8> {
    if b == 113 {
        Some(4u8)
    } else if b == 114 {
        Some(3u8)
    } else if b == 110 {
        Some(1u8)
    } else if b == 98 {
        Some(2u8)
    } else {
        None
    }
}

/// What `chess::ChessMove::from_str` makes of the UTF-8 bytes `b` of a text: the
/// first four bytes name two squares; a fifth and last byte, if the text is five
/// bytes long, must be a promotion letter; longer texts are read without one.
pub open spec fn uci_parse(b: Seq<u8>) -> Option<BoardMove> {
    if b.len() >= 4 && is_file_byte(b[0]) && is_rank_byte(b[1]) && is_file_byte(b[2])
        && is_rank_byte(b[3]) {
        let source = ((b[1] - 49) * 8 + (b[0] - 97)) as u8;
        let dest = ((b[3] - 49) * 8 + (b[2] - 97)) as u8;
        if b.len() == 5 {
            match promotion_of_byte(b[4]) {
                Some(p) => Some(BoardMove { source, dest, promotion: Some(p) }),
                None => None,
            }
        } else {
            Some(BoardMove { source, dest, promotion: None })
        }
    } else {
        None
    }
}

/// Reads a UCI move with `chess::ChessMove::from_str`. Trusted: the result is
/// `uci_parse` of the text's UTF-8 bytes, which restates the crate's parser.
#[verifier::external_body]
pub(crate) fn parse_chess_move(text: &str) -> (parsed: Option<BoardMove>)
    ensures
        parsed == uci_parse(vstd::utf8::encode_utf8(text@)),
{
    match ChessMove::from_str(text) {
        Ok(cm) => Some(BoardMove {
            source: cm.get_source().to_int(),
            dest: cm.get_dest().to_int(),
            promotion: cm.get_promotion().map(|p| p.to_index() as u8),
        }),
        Err(_) => None,
    }
}

/// A piece as the browser names it; `NoPiece` is "no promotion".
#[derive(Debug, Clone, Copy, PartialEq, Eq, Structural)]
pub enum JSPiece {
    NoPiece,
    Pawn,
    Knight,
    Bishop,
    Rook,
    Queen,
    King,
}

/// A move as the browser sends and receives it: `[row, column]` pairs, row 0
/// being rank 8 and column 0 being file a.
#[derive(Debug, Clone, Copy, PartialEq, Eq)]
pub struct JSMove {
    pub from: [u8; 2],
    pub to: [u8; 2],
    pub promotion_piece: JSPiece,
}

/// A message from the browser.
#[derive(Debug, Clone, Copy, PartialEq, Eq)]
pub enum JSMessage {
    Connected,
    MovePlayed(JSMove),
    KeepAlive,
}

/// The browser's name for piece index `p`.
pub open spec fn js_piece_of(p: u8) -> JSPiece {
    if p == 0 {
        JSPiece::Pawn
    } else if p == 1 {
        JSPiece::Knight
    } else if p == 2 {
        JSPiece::Bishop
    } else if p == 3 {
        JSPiece::Rook
    } else if p == 4 {
        JSPiece::Queen
    } else {
        JSPiece::King
    }
}

/// The piece index the browser's piece stands for.
pub open spec fn piece_index_of(p: JSPiece) -> Option<u8> {
    match p {
        JSPiece::NoPiece => None,
        JSPiece::Pawn => Some(0u8),
        JSPiece::Knight => Some(1u8),
        JSPiece::Bishop => Some(2u8),
        JSPiece::Rook => Some(3u8),
        JSPiece::Queen => Some(4u8),
        JSPiece::King => Some(5u8),
    }
}

/// The browser's coordinates of square `sq`: `[7 - rank, file]`.
pub open spec fn js_square(sq: u8) -> [u8; 2] {
    [(7 - sq / 8) as u8, (sq % 8) as u8]
}

/// The browser's form of a move.
pub open spec fn js_move_of(m: BoardMove) -> JSMove {
    JSMove {
        from: js_square(m.source),
        to: js_square(m.dest),
        promotion_piece: match m.promotion {
            Some(p) => js_piece_of(p),
            None => JSPiece::NoPiece,
        },
    }
}

/// The board move a browser move stands for, if its coordinates are on the board.
pub open spec fn board_move_of(js: JSMove) -> Option<BoardMove> {
    if js.from[0] > 7 || js.from[1] > 7 || js.to[0] > 7 || js.to[1] > 7 {
        None
    } else {
        Some(
            BoardMove {
                source: ((7 - js.from[0]) * 8 + js.from[1]) as u8,
                dest: ((7 - js.to[0]) * 8 + js.to[1]) as u8,
                promotion: piece_index_of(js.promotion_piece),
            },
        )
    }
}

impl JSPiece {
    /// The browser's name for piece index `index`.
    pub fn from_piece_index(index: u8) -> (piece: JSPiece)
        requires
            index < 6,
        ensures
            piece == js_piece_of(index),
    {
        if index == 0 {
            JSPiece::Pawn
        } else if index == 1 {
            JSPiece::Knight
        } else if index == 2 {
            JSPiece::Bishop
        } else if index == 3 {
            JSPiece::Rook
        } else if index == 4 {
            JSPiece::Queen
        } else {
            JSPiece::King
        }
    }
}

/// The piece index a browser piece stands for; `None` for `JSPiece::NoPiece`.
pub fn piece_from_js_piece(value: &JSPiece) -> (index: Option<u8>)
    ensures
        index == piece_index_of(*value),
{
    match value {
        JSPiece::NoPiece => None,
        JSPiece::Pawn => Some(0),
        JSPiece::Knight => Some(1),
        JSPiece::Bishop => Some(2),
        JSPiece::Rook => Some(3),
        JSPiece::Queen => Some(4),
        JSPiece::King => Some(5),
    }
}

impl JSMove {
    /// The browser's form of a board move.
    pub fn from_board_move(value: BoardMove) -> (js: JSMove)
        requires
            move_in_range(value),
        ensures
            js == js_move_of(value),
    {
        let source = value.source;
        let dest = value.dest;
        let promotion_piece = match value.promotion {
            Some(p) => JSPiece::from_piece_index(p),
            None => JSPiece::NoPiece,
        };
        JSMove {
            from: [7 - source / 8, source % 8],
            to: [7 - dest / 8, dest % 8],
            promotion_piece,
        }
    }
}

/// The board move a browser move stands for; `None` if a coordinate is off the board.
pub fn chess_move_from_js_move(value: &JSMove) -> (m: Option<BoardMove>)
    ensures
        m == board_move_of(*value),
        m matches Some(bm) ==> move_in_range(bm),
{
    if value.from[0] > 7 || value.from[1] > 7 || value.to[0] > 7 || value.to[1] > 7 {
        return None;
    }
    let source = (7 - value.from[0]) * 8 + value.from[1];
    let dest = (7 - value.to[0]) * 8 + value.to[1];
    let promotion = piece_from_js_piece(&value.promotion_piece);
    Some(BoardMove { source, dest, promotion })
}

/// Translating a board move to the browser's form and back gives the move again.
pub proof fn board_move_round_trip(m: BoardMove)
    requires
        move_in_range(m),
    ensures
        board_move_of(js_move_of(m)) == Some(m),
{
    let js = js_move_of(m);
    assert(js.from[0] == 7 - m.source / 8 && js.from[1] == m.source % 8);
    assert(js.to[0] == 7 - m.dest / 8 && js.to[1] == m.dest % 8);
    assert((7 - js.from[0]) * 8 + js.from[1] == m.source);
    assert((7 - js.to[0]) * 8 + js.to[1] == m.dest);
}

/// A browser move on the board, translated to a board move and back, is unchanged.
pub proof fn js_move_round_trip(js: JSMove)
    requires
        board_move_of(js) is Some,
    ensures
        move_in_range(board_move_of(js)->Some_0),
        js_move_of(board_move_of(js)->Some_0) == js,
{
    let m = board_move_of(js)->Some_0;
    let back = js_move_of(m);
    assert(back.from =~= js.from);
    assert(back.to =~= js.to);
}

/// Extending a legal history by a move legal after it keeps it legal.
pub proof fn lemma_legal_history_push(history: Seq<BoardMove>, m: BoardMove)
    requires
        legal_history(history),
        legal_moves_after(history).contains(m),
    ensures
        legal_history(history.push(m)),
{
    let longer = history.push(m);
    assert forall|i: int| 0 <= i < longer.len() implies #[trigger] legal_moves_after(
        longer.take(i),
    ).contains(longer[i]) by {
        if i < history.len() {
            assert(longer.take(i) =~= history.take(i));
        } else {
            assert(longer.take(i) =~= history);
        }
    }
}

/// How a game ended, from the player's side.
#[derive(Debug, Clone, Copy, PartialEq, Eq, Structural)]
pub enum GameEnd {
    Stalemate,
    Win,
    Lose,
}

/// What became of a move the player sent.
#[derive(Debug, Clone, Copy, PartialEq, Eq, Structural)]
pub enum PlayerMoveOutcome {
    /// Off the board or illegal: the browser is told it is not valid.
    Rejected,
    /// Accepted, and it ended the game.
    Finished(GameEnd),
    /// Accepted; the engine is to answer this move.
    AwaitEngine(BoardMove),
}

/// The engine's answer, as the browser is told it.
pub struct EngineReply {
    pub opp_move: JSMove,
    pub legal_moves: Vec<JSMove>,
    /// `Some` when the engine's move ended the game.
    pub end: Option<GameEnd>,
}

/// The answer to a browser message.
pub enum BotReply {
    /// The legal moves of the current position.
    LegalMoves(Vec<JSMove>),
    /// What became of the player's move.
    Move(PlayerMoveOutcome),
    /// Nothing is sent.
    Silent,
}

/// The browser's forms of a list of moves.
pub open spec fn js_moves_of(moves: Seq<BoardMove>) -> Seq<JSMove> {
    moves.map_values(|m: BoardMove| js_move_of(m))
}

/// Whether every move of `moves` is in range.
pub open spec fn all_in_range(moves: Seq<BoardMove>) -> bool {
    forall|k: int| 0 <= k < moves.len() ==> move_in_range(#[trigger] moves[k])
}

/// Each move of the browser's list decodes to the board move it came from.
pub proof fn lemma_js_moves_decode(moves: Seq<BoardMove>)
    requires
        all_in_range(moves),
    ensures
        forall|k: int|
            0 <= k < moves.len() ==> board_move_of(#[trigger] js_moves_of(moves)[k]) == Some(
                moves[k],
            ),
{
    assert forall|k: int| 0 <= k < moves.len() implies board_move_of(
        #[trigger] js_moves_of(moves)[k],
    ) == Some(moves[k]) by {
        board_move_round_trip(moves[k]);
    }
}

/// How the player's move `m`, accepted after `before`, leaves the game.
pub open spec fn player_move_result(before: Seq<BoardMove>, m: BoardMove) -> PlayerMoveOutcome {
    match status_after(before.push(m)) {
        GameStatus::Ongoing => PlayerMoveOutcome::AwaitEngine(m),
        GameStatus::Stalemate => PlayerMoveOutcome::Finished(GameEnd::Stalemate),
        GameStatus::Checkmate => PlayerMoveOutcome::Finished(GameEnd::Win),
    }
}

/// The outcome of an accepted player's move follows the status of the position
/// it reaches: the engine answers exactly that move while the game goes on; a
/// stalemate is a stalemate and only a checkmate is a win.
pub proof fn player_outcome_follows_status(before: Seq<BoardMove>, m: BoardMove)
    ensures
        (player_move_result(before, m) == PlayerMoveOutcome::AwaitEngine(m)) <==> (status_after(
            before.push(m),
        ) == GameStatus::Ongoing),
        (player_move_result(before, m) == PlayerMoveOutcome::Finished(GameEnd::Stalemate)) <==> (
        status_after(before.push(m)) == GameStatus::Stalemate),
        (player_move_result(before, m) == PlayerMoveOutcome::Finished(GameEnd::Win)) <==> (
        status_after(before.push(m)) == GameStatus::Checkmate),
        player_move_result(before, m) matches PlayerMoveOutcome::AwaitEngine(sent) ==> sent == m,
        player_move_result(before, m) != PlayerMoveOutcome::Finished(GameEnd::Lose),
        player_move_result(before, m) != PlayerMoveOutcome::Rejected,
{
}

/// How the engine's move ends the game follows the status of the position it
/// reaches: no end while the game goes on, a stalemate is a stalemate, and only
/// a checkmate is a loss.
pub proof fn engine_end_follows_status(history: Seq<BoardMove>)
    ensures
        engine_move_end(history) is None <==> status_after(history) == GameStatus::Ongoing,
        engine_move_end(history) == Some(GameEnd::Stalemate) <==> status_after(history)
            == GameStatus::Stalemate,
        engine_move_end(history) == Some(GameEnd::Lose) <==> status_after(history)
            == GameStatus::Checkmate,
        engine_move_end(history) != Some(GameEnd::Win),
{
}

/// How the engine's move ends the game after `history`, if it does.
pub open spec fn engine_move_end(history: Seq<BoardMove>) -> Option<GameEnd> {
    match status_after(history) {
        GameStatus::Ongoing => None,
        GameStatus::Stalemate => Some(GameEnd::Stalemate),
        GameStatus::Checkmate => Some(GameEnd::Lose),
    }
}

/// A game against the engine: the moves played so far from the starting position.
pub struct BotGame {
    history: Vec<BoardMove>,
}

impl View for BotGame {
    type V = Seq<BoardMove>;

    closed spec fn view(&self) -> Seq<BoardMove> {
        self.history@
    }
}

impl BotGame {
    #[verifier::type_invariant]
    spec fn moves_are_legal(self) -> bool {
        legal_history(self.history@)
    }

    /// A game at the standard starting position.
    pub fn new() -> (game: BotGame)
        ensures
            game@ == Seq::<BoardMove>::empty(),
    {
        BotGame { history: Vec::new() }
    }

    /// The moves played so far.
    pub fn moves_played(&self) -> (moves: &Vec<BoardMove>)
        ensures
            moves@ == self@,
    {
        &self.history
    }

    /// The legal moves of the current position, in the browser's form.
    pub fn legal_moves(&self) -> (moves: Vec<JSMove>)
        ensures
            moves@ == js_moves_of(legal_moves_after(self@)),
            all_in_range(legal_moves_after(self@)),
            legal_moves_after(self@).no_duplicates(),
            moves@.no_duplicates(),
            forall|k: int|
                0 <= k < moves@.len() ==> board_move_of(#[trigger] moves@[k]) == Some(
                    legal_moves_after(self@)[k],
                ),
    {
        proof {
            use_type_invariant(self);
        }
        let board_moves = generate_legal_moves(&self.history);
        let mut moves: Vec<JSMove> = Vec::new();
        let mut i: usize = 0;
        while i < board_moves.len()
            invariant
                i <= board_moves@.len(),
                board_moves@ == legal_moves_after(self@),
                forall|k: int|
                    0 <= k < board_moves@.len() ==> move_in_range(#[trigger] board_moves@[k]),
                moves@ == js_moves_of(board_moves@.take(i as int)),
            decreases board_moves@.len() - i,
        {
            moves.push(JSMove::from_board_move(board_moves[i]));
            assert(board_moves@.take(i as int + 1) =~= board_moves@.take(i as int).push(
                board_moves@[i as int],
            ));
            i = i + 1;
        }
        assert(board_moves@.take(i as int) =~= board_moves@);
        proof {
            lemma_js_moves_decode(board_moves@);
            assert forall|a: int, b: int| 0 <= a < b < moves@.len() implies moves@[a] != moves@[b] by {
                if moves@[a] == moves@[b] {
                    assert(board_move_of(moves@[a]) == Some(board_moves@[a]));
                    assert(board_move_of(moves@[b]) == Some(board_moves@[b]));
                }
            }
        }
        moves
    }

    /// Appends a move known to be legal.
    fn record(&mut self, m: BoardMove)
        requires
            legal_moves_after(old(self)@).contains(m),
        ensures
            final(self)@ == old(self)@.push(m),
    {
        proof {
            use_type_invariant(&*self);
            lemma_legal_history_push(self.history@, m);
        }
        let mut history = Vec::new();
        std::mem::swap(&mut history, &mut self.history);
        history.push(m);
        std::mem::swap(&mut history, &mut self.history);
    }

    /// Plays the player's move if it is on the board and legal.
    pub fn play_player_move(&mut self, played: &JSMove) -> (outcome: PlayerMoveOutcome)
        ensures
            match board_move_of(*played) {
                Some(m) if legal_moves_after(old(self)@).contains(m) => {
                    &&& final(self)@ == old(self)@.push(m)
                    &&& outcome == player_move_result(old(self)@, m)
                },
                _ => outcome is Rejected && final(self)@ == old(self)@,
            },
            outcome is AwaitEngine ==> legal_moves_after(final(self)@).len() > 0,
            outcome matches PlayerMoveOutcome::AwaitEngine(sent) ==> final(self)@ == old(self)@.push(
                sent,
            ) && status_after(final(self)@) == GameStatus::Ongoing,
            outcome == PlayerMoveOutcome::Finished(GameEnd::Stalemate) ==> status_after(
                final(self)@,
            ) == GameStatus::Stalemate && final(self)@.len() == old(self)@.len() + 1,
            outcome == PlayerMoveOutcome::Finished(GameEnd::Win) ==> status_after(final(self)@)
                == GameStatus::Checkmate && final(self)@.len() == old(self)@.len() + 1,
            outcome != PlayerMoveOutcome::Finished(GameEnd::Lose),
    {
        proof {
            use_type_invariant(&*self);
        }
        match chess_move_from_js_move(played) {
            Some(m) => {
                if board_allows(&self.history, m) {
                    self.record(m);
                    proof {
                        use_type_invariant(&*self);
                    }
                    match board_status(&self.history) {
                        GameStatus::Ongoing => PlayerMoveOutcome::AwaitEngine(m),
                        GameStatus::Stalemate => PlayerMoveOutcome::Finished(GameEnd::Stalemate),
                        GameStatus::Checkmate => PlayerMoveOutcome::Finished(GameEnd::Win),
                    }
                } else {
                    PlayerMoveOutcome::Rejected
                }
            },
            None => PlayerMoveOutcome::Rejected,
        }
    }

    /// Plays the engine's move, which must be legal, and reports the new position.
    pub fn play_engine_move(&mut self, m: BoardMove) -> (reply: EngineReply)
        requires
            legal_moves_after(old(self)@).contains(m),
        ensures
            final(self)@ == old(self)@.push(m),
            reply.opp_move == js_move_of(m),
            reply.legal_moves@ == js_moves_of(legal_moves_after(final(self)@)),
            reply.end == engine_move_end(final(self)@),
            reply.end is None <==> status_after(final(self)@) == GameStatus::Ongoing,
            reply.end == Some(GameEnd::Stalemate) <==> status_after(final(self)@)
                == GameStatus::Stalemate,
            reply.end == Some(GameEnd::Lose) <==> status_after(final(self)@)
                == GameStatus::Checkmate,
            reply.end is None ==> reply.legal_moves@.len() > 0,
            reply.legal_moves@.no_duplicates(),
            forall|k: int|
                0 <= k < reply.legal_moves@.len() ==> board_move_of(#[trigger] reply.legal_moves@[k])
                    == Some(legal_moves_after(final(self)@)[k]),
    {
        proof {
            use_type_invariant(&*self);
        }
        let board_moves = generate_legal_moves(&self.history);
        proof {
            let k = choose|k: int| 0 <= k < board_moves@.len() && board_moves@[k] == m;
            assert(move_in_range(board_moves@[k]));
        }
        let opp_move = JSMove::from_board_move(m);
        self.record(m);
        proof {
            use_type_invariant(&*self);
        }
        let legal_moves = self.legal_moves();
        let end = match board_status(&self.history) {
            GameStatus::Ongoing => None,
            GameStatus::Stalemate => Some(GameEnd::Stalemate),
            GameStatus::Checkmate => Some(GameEnd::Lose),
        };
        EngineReply { opp_move, legal_moves, end }
    }

    /// Plays the engine's move if it is legal here; `None` (and no change) if not.
    pub fn answer_engine_move(&mut self, m: BoardMove) -> (reply: Option<EngineReply>)
        ensures
            legal_moves_after(old(self)@).contains(m) ==> {
                &&& reply matches Some(r)
                &&& final(self)@ == old(self)@.push(m)
                &&& r.opp_move == js_move_of(m)
                &&& r.legal_moves@ == js_moves_of(legal_moves_after(final(self)@))
                &&& r.end == engine_move_end(final(self)@)
                &&& (r.end == Some(GameEnd::Stalemate) <==> status_after(final(self)@)
                    == GameStatus::Stalemate)
                &&& (r.end == Some(GameEnd::Lose) <==> status_after(final(self)@)
                    == GameStatus::Checkmate)
                &&& r.end is None ==> r.legal_moves@.len() > 0
                &&& r.legal_moves@.no_duplicates()
                &&& forall|k: int|
                    0 <= k < r.legal_moves@.len() ==> board_move_of(#[trigger] r.legal_moves@[k])
                        == Some(legal_moves_after(final(self)@)[k])
            },
            !legal_moves_after(old(self)@).contains(m) ==> reply is None && final(self)@ == old(
                self,
            )@,
    {
        proof {
            use_type_invariant(&*self);
        }
        if !m.in_range() {
            let board_moves = generate_legal_moves(&self.history);
            proof {
                if legal_moves_after(self@).contains(m) {
                    let k = choose|k: int| 0 <= k < board_moves@.len() && board_moves@[k] == m;
                    assert(move_in_range(board_moves@[k]));
                }
            }
            return None;
        }
        if board_allows(&self.history, m) {
            Some(self.play_engine_move(m))
        } else {
            None
        }
    }

    /// Answers a browser message: the legal moves on connection, the fate of a
    /// played move, nothing for a keep-alive.
    pub fn respond(&mut self, message: &JSMessage) -> (reply: BotReply)
        ensures
            match *message {
                JSMessage::Connected => {
                    &&& final(self)@ == old(self)@
                    &&& reply matches BotReply::LegalMoves(moves)
                    &&& moves@ == js_moves_of(legal_moves_after(old(self)@))
                    &&& moves@.no_duplicates()
                    &&& forall|k: int|
                        0 <= k < moves@.len() ==> board_move_of(#[trigger] moves@[k]) == Some(
                            legal_moves_after(old(self)@)[k],
                        )
                },
                JSMessage::MovePlayed(played) => {
                    &&& reply matches BotReply::Move(outcome)
                    &&& match board_move_of(played) {
                        Some(m) if legal_moves_after(old(self)@).contains(m) => {
                            &&& final(self)@ == old(self)@.push(m)
                            &&& outcome == player_move_result(old(self)@, m)
                        },
                        _ => outcome is Rejected && final(self)@ == old(self)@,
                    }
                },
                JSMessage::KeepAlive => reply is Silent && final(self)@ == old(self)@,
            },
            reply matches BotReply::Move(PlayerMoveOutcome::AwaitEngine(_)) ==> legal_moves_after(
                final(self)@,
            ).len() > 0,
    {
        match message {
            JSMessage::Connected => BotReply::LegalMoves(self.legal_moves()),
            JSMessage::MovePlayed(played) => BotReply::Move(self.play_player_move(played)),
            JSMessage::KeepAlive => BotReply::Silent,
        }
    }
}

} // verus!
