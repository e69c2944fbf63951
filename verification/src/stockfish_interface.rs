//! Bookkeeping for the engine processes: how many may run at once, the UCI
//! position the engine is sent, and reading its `bestmove` answer.

use crate::game::{self, BoardMove};
use vstd::prelude::*;
use vstd::string::{StrSliceExecFns, StringExecFns};

verus! {

/// How many engine processes may run at the same time.
pub const MAX_CONCURRENT_STOCKFISH_INSTANCES: u8 = 3;

/// The new count of running engines when one more asks to start: `None` if the limit is reached.
pub fn admit_instance(count: u8) -> (next: Option<u8>)
    ensures
        count < MAX_CONCURRENT_STOCKFISH_INSTANCES ==> next == Some((count + 1) as u8),
        count >= MAX_CONCURRENT_STOCKFISH_INSTANCES ==> next is None,
{
    if count < MAX_CONCURRENT_STOCKFISH_INSTANCES {
        Some(count + 1)
    } else {
        None
    }
}

/// The new count of running engines when one stops: `None` if none was counted.
pub fn release_instance(count: u8) -> (next: Option<u8>)
    ensures
        count > 0 ==> next == Some((count - 1) as u8),
        count == 0 ==> next is None,
{
    if count > 0 {
        Some(count - 1)
    } else {
        None
    }
}

/// Whether `c` has the Unicode `White_Space` property, which `char::is_whitespace`
/// tests: U+0009..U+000D, U+0020, U+0085, U+00A0, U+1680, U+2000..U+200A, U+2028,
/// U+2029, U+202F, U+205F and U+3000.
pub open spec fn unicode_whitespace(c: char) -> bool {
    let v = c as u32;
    ||| 0x9 <= v <= 0xd
    ||| v == 0x20
    ||| v == 0x85
    ||| v == 0xa0
    ||| v == 0x1680
    ||| 0x2000 <= v <= 0x200a
    ||| v == 0x2028
    ||| v == 0x2029
    ||| v == 0x202f
    ||| v == 0x205f
    ||| v == 0x3000
}

/// Whether `c` is white space, as `char::is_whitespace` answers.
pub fn is_whitespace(c: char) -> (ws: bool)
    ensures
        ws == unicode_whitespace(c),
{
    let v = c as u32;
    (0x9 <= v && v <= 0xd) || v == 0x20 || v == 0x85 || v == 0xa0 || v == 0x1680 || (0x2000
        <= v && v <= 0x200a) || v == 0x2028 || v == 0x2029 || v == 0x202f || v == 0x205f || v
        == 0x3000
}

/// `s` without its leading whitespace.
pub open spec fn trim_start(s: Seq<char>) -> Seq<char>
    decreases s.len(),
{
    if s.len() > 0 && unicode_whitespace(s[0]) {
        trim_start(s.skip(1))
    } else {
        s
    }
}

/// `s` without its trailing whitespace.
pub open spec fn trim_end(s: Seq<char>) -> Seq<char>
    decreases s.len(),
{
    if s.len() > 0 && unicode_whitespace(s.last()) {
        trim_end(s.drop_last())
    } else {
        s
    }
}

/// `s` without leading and trailing whitespace, as `str::trim` gives it.
pub open spec fn trimmed(s: Seq<char>) -> Seq<char> {
    trim_end(trim_start(s))
}

/// Leading whitespace does not change what `trim_start` leaves.
proof fn lemma_trim_start_step(s: Seq<char>, i: int)
    requires
        0 <= i < s.len(),
        unicode_whitespace(s[i]),
    ensures
        trim_start(s.skip(i)) == trim_start(s.skip(i + 1)),
{
    assert(s.skip(i).skip(1) =~= s.skip(i + 1));
}

/// Trailing whitespace does not change what `trim_end` leaves.
proof fn lemma_trim_end_step(s: Seq<char>, i: int, j: int)
    requires
        0 <= i < j <= s.len(),
        unicode_whitespace(s[j - 1]),
    ensures
        trim_end(s.subrange(i, j)) == trim_end(s.subrange(i, j - 1)),
{
    assert(s.subrange(i, j).drop_last() =~= s.subrange(i, j - 1));
}

/// `text` without leading and trailing whitespace.
pub fn trim_text(text: &str) -> (t: &str)
    ensures
        t@ == trimmed(text@),
{
    let n = text.unicode_len();
    let mut i: usize = 0;
    assert(text@.skip(0) =~= text@);
    while i < n && is_whitespace(text.get_char(i))
        invariant
            n == text@.len(),
            i <= n,
            trim_start(text@) == trim_start(text@.skip(i as int)),
        decreases n - i,
    {
        proof {
            lemma_trim_start_step(text@, i as int);
        }
        i = i + 1;
    }
    proof {
        if i < n {
            assert(text@.skip(i as int)[0] == text@[i as int]);
        } else {
            assert(text@.skip(i as int) =~= Seq::<char>::empty());
        }
        assert(trim_start(text@) =~= text@.subrange(i as int, n as int));
    }
    let mut j: usize = n;
    while j > i && is_whitespace(text.get_char(j - 1))
        invariant
            n == text@.len(),
            i <= j <= n,
            trim_start(text@) =~= text@.subrange(i as int, n as int),
            trim_end(text@.subrange(i as int, n as int)) == trim_end(
                text@.subrange(i as int, j as int),
            ),
        decreases j,
    {
        proof {
            lemma_trim_end_step(text@, i as int, j as int);
        }
        j = j - 1;
    }
    proof {
        if j > i {
            assert(text@.subrange(i as int, j as int).last() == text@[j - 1]);
        } else {
            assert(text@.subrange(i as int, j as int) =~= Seq::<char>::empty());
        }
    }
    text.substring_char(i, j)
}

/// The index of the first space in `s` at or after `from`, or the length of `s`.
pub open spec fn space_index(s: Seq<char>, from: int) -> int
    decreases s.len() - from,
{
    if from < 0 || from >= s.len() {
        s.len() as int
    } else if s[from] == ' ' {
        from
    } else {
        space_index(s, from + 1)
    }
}

/// The first index at or after `from` that holds a space, or the length of `text`.
fn find_space(text: &str, from: usize) -> (at: usize)
    requires
        from <= text@.len(),
    ensures
        at == space_index(text@, from as int),
        from <= at <= text@.len(),
{
    let n = text.unicode_len();
    let mut k = from;
    while k < n && text.get_char(k) != ' '
        invariant
            n == text@.len(),
            from <= k <= n,
            space_index(text@, from as int) == space_index(text@, k as int),
        decreases n - k,
    {
        k = k + 1;
    }
    k
}

/// The second of the fields that single spaces separate in `s` (empty if `s` has no space).
pub open spec fn second_field(s: Seq<char>) -> Seq<char> {
    let first = space_index(s, 0);
    if first >= s.len() {
        Seq::empty()
    } else {
        s.subrange(first + 1, space_index(s, first + 1))
    }
}

/// Whether the engine's output line announces its move.
pub open spec fn is_bestmove_line(line: Seq<char>) -> bool {
    let t = trimmed(line);
    t.len() >= 9 && t.subrange(0, 9) == "bestmove "@
}

/// The move text of a `bestmove` line.
pub open spec fn bestmove_token(line: Seq<char>) -> Seq<char> {
    trimmed(second_field(line))
}

/// What a line of engine output says.
#[derive(Debug, Clone, Copy, PartialEq, Eq, Structural)]
pub enum EngineLine {
    /// Not a `bestmove` line: keep reading.
    Other,
    /// The engine plays this move.
    BestMove(BoardMove),
    /// A `bestmove` line whose move cannot be read.
    Unreadable,
}

/// The moves sent to the engine so far, as the text after `position startpos moves`.
pub struct EngineTranscript {
    moves: String,
}

impl View for EngineTranscript {
    type V = Seq<char>;

    closed spec fn view(&self) -> Seq<char> {
        self.moves@
    }
}

/// Whether `text` is exactly `lit`.
fn is_text(text: &str, lit: &str) -> (equal: bool)
    ensures
        equal == (text@ == lit@),
{
    text.to_owned() == lit.to_owned()
}

/// A parsed UCI move has its squares and promotion piece in range.
pub proof fn lemma_uci_parse_in_range(b: Seq<u8>)
    ensures
        game::uci_parse(b) matches Some(m) ==> game::move_in_range(m),
{
}

/// Admitting an engine and then releasing it gives back the count, and
/// admission never takes the count past the limit.
pub proof fn admit_then_release(count: u8)
    requires
        count < MAX_CONCURRENT_STOCKFISH_INSTANCES,
    ensures
        (count + 1) as u8 <= MAX_CONCURRENT_STOCKFISH_INSTANCES,
        (count + 1) as u8 > 0,
        ((count + 1) as u8 - 1) as u8 == count,
{
}

/// The UCI text of a move reads back as the same move, for moves without a
/// promotion or promoting to a knight, bishop, rook or queen.
pub proof fn uci_text_reads_back(m: BoardMove)
    requires
        game::move_in_range(m),
        match m.promotion {
            Some(p) => 1 <= p <= 4,
            None => true,
        },
    ensures
        game::uci_parse(vstd::utf8::encode_utf8(game::uci_text(m))) == Some(m),
{
    let text = game::uci_text(m);
    assert(vstd::utf8::is_ascii_chars(text));
    vstd::utf8::is_ascii_chars_encode_utf8(text);
    let b = vstd::utf8::encode_utf8(text);
    assert(b[0] == 97 + m.source % 8);
    assert(b[1] == 49 + m.source / 8);
    assert(b[2] == 97 + m.dest % 8);
    assert(b[3] == 49 + m.dest / 8);
    if let Some(p) = m.promotion {
        assert(b.len() == 5);
        assert(b[4] == game::piece_letter(p) as u8);
    } else {
        assert(b.len() == 4);
    }
}

/// The text after `position startpos moves` for a game whose moves are `history`.
pub open spec fn transcript_of(history: Seq<BoardMove>) -> Seq<char>
    decreases history.len(),
{
    if history.len() == 0 {
        Seq::empty()
    } else {
        transcript_of(history.drop_last()) + " "@ + game::uci_text(history.last())
    }
}

/// A token of at most five bytes that reads as move `m` is `m`'s UCI text, so
/// an engine answering in UCI records exactly the move it plays.
pub proof fn engine_token_spells_move(token: Seq<char>, m: BoardMove)
    requires
        game::uci_parse(vstd::utf8::encode_utf8(token)) == Some(m),
        vstd::utf8::encode_utf8(token).len() <= 5,
    ensures
        token == game::uci_text(m),
{
    let b = vstd::utf8::encode_utf8(token);
    let text = game::uci_text(m);
    assert(vstd::utf8::is_ascii_chars(text));
    vstd::utf8::is_ascii_chars_encode_utf8(text);
    let e = vstd::utf8::encode_utf8(text);
    assert(e.len() == b.len());
    assert(e[0] == b[0] && e[1] == b[1] && e[2] == b[2] && e[3] == b[3]);
    if b.len() == 5 {
        assert(e[4] == b[4]);
    }
    assert(e =~= b);
    vstd::utf8::encode_utf8_decode_utf8(token);
    vstd::utf8::encode_utf8_decode_utf8(text);
}

/// A transcript that spells a game's moves keeps spelling them when the next
/// move is recorded: the player's (`position_command` appends its UCI text) or
/// the engine's (`read_engine_line` appends the engine's token, which is the
/// move's UCI text by `engine_token_spells_move`).
pub proof fn transcript_follows_game(history: Seq<BoardMove>, m: BoardMove)
    ensures
        transcript_of(history) + " "@ + game::uci_text(m) == transcript_of(history.push(m)),
{
    assert(history.push(m).drop_last() =~= history);
}

/// After the player's move `p` and the engine's `bestmove` line naming `m` (in
/// at most five bytes), a transcript that spelled `history` spells
/// `history`, `p`, `m`: the engine is always sent the whole game.
pub proof fn engine_sees_whole_game(history: Seq<BoardMove>, p: BoardMove, line: Seq<char>, m: BoardMove)
    requires
        is_bestmove_line(line),
        game::uci_parse(vstd::utf8::encode_utf8(bestmove_token(line))) == Some(m),
        vstd::utf8::encode_utf8(bestmove_token(line)).len() <= 5,
    ensures
        transcript_of(history) + " "@ + game::uci_text(p) + " "@ + bestmove_token(line)
            == transcript_of(history.push(p).push(m)),
{
    engine_token_spells_move(bestmove_token(line), m);
    transcript_follows_game(history, p);
    transcript_follows_game(history.push(p), m);
}

impl EngineTranscript {
    /// A transcript of a game not yet begun.
    pub fn new() -> (t: EngineTranscript)
        ensures
            t@ == Seq::<char>::empty(),
    {
        EngineTranscript { moves: String::new() }
    }

    /// The moves sent so far.
    pub fn moves_text(&self) -> (text: &str)
        ensures
            text@ == self@,
    {
        self.moves.as_str()
    }

    /// Records the player's move and returns the `position` command that
    /// brings the engine to the resulting position.
    pub fn position_command(&mut self, played: BoardMove) -> (command: String)
        requires
            game::move_in_range(played),
        ensures
            final(self)@ == old(self)@ + " "@ + game::uci_text(played),
            command@ == "position startpos moves"@ + final(self)@ + "\n"@,
    {
        let text = game::chess_move_text(played);
        self.moves.append(" ");
        self.moves.append(text.as_str());
        let mut command = "position startpos moves".to_owned();
        command.append(self.moves.as_str());
        command.append("\n");
        command
    }

    /// Reads a line of engine output; a readable `bestmove` is recorded.
    pub fn read_engine_line(&mut self, line: &str) -> (said: EngineLine)
        ensures
            !is_bestmove_line(line@) ==> said is Other && final(self)@ == old(self)@,
            is_bestmove_line(line@) ==> match game::uci_parse(
                vstd::utf8::encode_utf8(bestmove_token(line@)),
            ) {
                Some(m) => said == EngineLine::BestMove(m) && final(self)@ == old(self)@ + " "@
                    + bestmove_token(line@),
                None => said is Unreadable && final(self)@ == old(self)@,
            },
            said matches EngineLine::BestMove(m) ==> game::move_in_range(m),
    {
        let t = trim_text(line);
        if t.unicode_len() < 9 || !is_text(t.substring_char(0, 9), "bestmove ") {
            return EngineLine::Other;
        }
        let first = find_space(line, 0);
        let field = if first < line.unicode_len() {
            let second = find_space(line, first + 1);
            line.substring_char(first + 1, second)
        } else {
            line.substring_char(first, first)
        };
        proof {
            if first >= line@.len() {
                assert(line@.subrange(first as int, first as int) =~= Seq::<char>::empty());
            }
        }
        let token = trim_text(field);
        match game::parse_chess_move(token) {
            Some(m) => {
                proof {
                    lemma_uci_parse_in_range(vstd::utf8::encode_utf8(token@));
                }
                self.moves.append(" ");
                self.moves.append(token);
                EngineLine::BestMove(m)
            },
            None => EngineLine::Unreadable,
        }
    }
}

} // verus!
