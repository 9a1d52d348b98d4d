//! The mutable position: a 128-slot board of packed piece bytes plus the
//! game-state information (side to move, castling rights, en-passant target,
//! move clocks) and the stack of pending undo records.

use vstd::prelude::*;
use crate::helpers::{valid_sq, alg_of_sq, is_file_char, is_rank_char, sq_of_chars};
use crate::peices::{Color, Peice, valid_piece_byte, encode, square_char};
use crate::move_and_undo::{UndoInfo, wf_undo};
use crate::EngineError;

verus! {

/// Which castlings are still available, one flag per side of the board and
/// color. White's two flags sit in the table row `color_bit(WHITE)`, the
/// queenside flag at column 0 and the kingside flag at column 1.
#[derive(Clone, Copy, PartialEq, Eq, Structural, Debug)]
pub struct CastlingRights {
    pub white_queenside: bool,
    pub white_kingside: bool,
    pub black_queenside: bool,
    pub black_kingside: bool,
}

impl CastlingRights {
    /// Reads the table entry for a color row and a side column
    /// (0 queenside, 1 kingside).
    pub fn get(&self, color_bit: usize, side: usize) -> (r: bool)
        requires
            color_bit <= 1,
            side <= 1,
        ensures
            r == self.spec_get(color_bit as int, side as int),
    {
        if color_bit == 0 {
            if side == 0 {
                self.white_queenside
            } else {
                self.white_kingside
            }
        } else {
            if side == 0 {
                self.black_queenside
            } else {
                self.black_kingside
            }
        }
    }

    /// The table entry for a color row and a side column.
    pub open spec fn spec_get(&self, color_bit: int, side: int) -> bool {
        if color_bit == 0 {
            if side == 0 {
                self.white_queenside
            } else {
                self.white_kingside
            }
        } else {
            if side == 0 {
                self.black_queenside
            } else {
                self.black_kingside
            }
        }
    }
}

/// The game state beside the board itself.
#[derive(Clone, Copy, Debug)]
pub struct Information {
    pub active_color: Color,
    pub castling_rights: CastlingRights,
    pub enpassant_square: Option<u8>,
    pub half_move_clock: u8,
    pub full_move_clock: usize,
}

/// A board is well formed when it has all 128 slots, pieces stand only on
/// valid squares, and every occupied slot holds an encodable piece byte.
pub open spec fn wf_board(b: Seq<u8>) -> bool {
    &&& b.len() == 128
    &&& forall|i: int|
        0 <= i < 128 ==> (if valid_sq(i as u8) {
            b[i] == 0 || valid_piece_byte(#[trigger] b[i])
        } else {
            b[i] == 0
        })
}

/// The game-state information is well formed when any en-passant target
/// names a valid square.
pub open spec fn wf_info(info: Information) -> bool {
    match info.enpassant_square {
        Option::Some(e) => valid_sq(e),
        Option::None => true,
    }
}

/// A position: the board, its game state, and the stack of undo records of
/// the moves applied to it and not yet undone.
pub struct Position {
    pub board: Vec<u8>,
    pub information: Information,
    pub undo_stack: Vec<UndoInfo>,
}

impl Position {
    /// The position invariant: board and information well formed, and every
    /// pending undo record restorable without stepping off the board.
    pub open spec fn wf(&self) -> bool {
        &&& wf_board(self.board@)
        &&& wf_info(self.information)
        &&& forall|i: int|
            0 <= i < self.undo_stack@.len() ==> wf_undo(#[trigger] self.undo_stack@[i])
    }
}

/// The piece-type bits of the back rank, by file: rook, knight, bishop,
/// queen, king, bishop, knight, rook.
pub open spec fn back_rank_bits(file: int) -> u8 {
    if file == 0 { 2 } else if file == 1 { 16 } else if file == 2 { 4 } else if file == 3 { 6 }
    else if file == 4 { 8 } else if file == 5 { 4 } else if file == 6 { 16 } else { 2 }
}

/// The packed byte each slot holds in the standard starting position.
pub open spec fn start_byte(i: int) -> u8 {
    let file = i % 16;
    let rank = i / 16;
    if file >= 8 {
        0
    } else if rank == 0 {
        (32 + back_rank_bits(file)) as u8
    } else if rank == 1 {
        33
    } else if rank == 6 {
        65
    } else if rank == 7 {
        (64 + back_rank_bits(file)) as u8
    } else {
        0
    }
}

/// The standard starting board.
pub open spec fn start_board() -> Seq<u8> {
    Seq::new(128, |i: int| start_byte(i))
}

/// The game state of the standard starting position: White to move, all
/// castling rights, no en-passant target, clocks at zero and one.
pub open spec fn start_information() -> Information {
    Information {
        active_color: Color::WHITE,
        castling_rights: CastlingRights {
            white_queenside: true,
            white_kingside: true,
            black_queenside: true,
            black_kingside: true,
        },
        enpassant_square: Option::None,
        half_move_clock: 0,
        full_move_clock: 1,
    }
}

/// Every byte of the starting board is empty or a real encoded piece.
proof fn lemma_start_board_bytes()
    ensures
        forall|i: int|
            0 <= i < 128 ==> start_byte(i) == 0 || valid_piece_byte(#[trigger] start_byte(i)),
{
    assert(encode(Color::WHITE, Peice::PAWN) == 33);
    assert(encode(Color::WHITE, Peice::ROOK) == 34);
    assert(encode(Color::WHITE, Peice::BISHOP) == 36);
    assert(encode(Color::WHITE, Peice::QUEEN) == 38);
    assert(encode(Color::WHITE, Peice::KING) == 40);
    assert(encode(Color::WHITE, Peice::KNIGHT) == 48);
    assert(encode(Color::BLACK, Peice::PAWN) == 65);
    assert(encode(Color::BLACK, Peice::ROOK) == 66);
    assert(encode(Color::BLACK, Peice::BISHOP) == 68);
    assert(encode(Color::BLACK, Peice::QUEEN) == 70);
    assert(encode(Color::BLACK, Peice::KING) == 72);
    assert(encode(Color::BLACK, Peice::KNIGHT) == 80);
}

impl Position {
    /// Initialises the starting position.
    pub fn new() -> (r: Position)
        ensures
            r.wf(),
            r.board@ == start_board(),
            r.information == start_information(),
            r.undo_stack@.len() == 0,
    {
        let mut board: Vec<u8> = vec![0u8; 128];
        let mut file: usize = 0;
        while file < 8
            invariant
                file <= 8,
                board@.len() == 128,
                forall|i: int|
                    0 <= i < 128 ==> #[trigger] board@[i] == (if i % 16 < file {
                        start_byte(i)
                    } else {
                        0
                    }),
            decreases 8 - file,
        {
            let bits: u8 = match file {
                0 => 2,
                1 => 16,
                2 => 4,
                3 => 6,
                4 => 8,
                5 => 4,
                6 => 16,
                _ => 2,
            };
            board[file] = 32 + bits;
            board[16 + file] = 33;
            board[96 + file] = 65;
            board[112 + file] = 64 + bits;
            file = file + 1;
        }
        proof {
            assert(board@ =~= start_board());
            lemma_start_board_bytes();
        }
        Position {
            board,
            information: Information {
                active_color: Color::WHITE,
                castling_rights: CastlingRights {
                    white_queenside: true,
                    white_kingside: true,
                    black_queenside: true,
                    black_kingside: true,
                },
                enpassant_square: Option::None,
                half_move_clock: 0,
                full_move_clock: 1,
            },
            undo_stack: Vec::new(),
        }
    }
}


/// The decimal digit characters.
pub open spec fn digit_char(n: int) -> char {
    if n == 0 { '0' } else if n == 1 { '1' } else if n == 2 { '2' } else if n == 3 { '3' }
    else if n == 4 { '4' } else if n == 5 { '5' } else if n == 6 { '6' } else if n == 7 { '7' }
    else if n == 8 { '8' } else { '9' }
}

/// The decimal rendering of a non-negative number, without leading zeros.
pub open spec fn dec_rep(n: int) -> Seq<char>
    decreases n,
{
    if n < 10 {
        seq![digit_char(n)]
    } else {
        dec_rep(n / 10) + seq![digit_char(n % 10)]
    }
}

/// The characters a rank contributes to the board field: piece letters, with
/// every maximal run of empty squares shortened to its length, `run` empty
/// squares already pending.
pub open spec fn rank_chars(b: Seq<u8>, rank: int, file: int, run: int) -> Seq<char>
    decreases 8 - file,
{
    if file < 0 || file >= 8 {
        if run > 0 {
            seq![digit_char(run)]
        } else {
            Seq::empty()
        }
    } else {
        let byte = b[16 * rank + file];
        if byte == 0 {
            rank_chars(b, rank, file + 1, run + 1)
        } else {
            (if run > 0 {
                seq![digit_char(run)]
            } else {
                Seq::empty()
            }) + seq![square_char(byte)] + rank_chars(b, rank, file + 1, 0)
        }
    }
}

/// The whole board field: ranks from the eighth down to the first, separated
/// by slashes.
pub open spec fn board_chars(b: Seq<u8>, rank: int) -> Seq<char>
    decreases rank,
{
    if rank <= 0 {
        rank_chars(b, 0, 0, 0)
    } else {
        rank_chars(b, rank, 0, 0) + seq!['/'] + board_chars(b, rank - 1)
    }
}

/// The castling-rights field: the letters of the remaining rights in
/// `KQkq` order, or a dash when none remain.
pub open spec fn castling_chars(cr: CastlingRights) -> Seq<char> {
    let letters = (if cr.white_kingside {
        seq!['K']
    } else {
        Seq::<char>::empty()
    }) + (if cr.white_queenside {
        seq!['Q']
    } else {
        Seq::<char>::empty()
    }) + (if cr.black_kingside {
        seq!['k']
    } else {
        Seq::<char>::empty()
    }) + (if cr.black_queenside {
        seq!['q']
    } else {
        Seq::<char>::empty()
    });
    if letters.len() == 0 {
        seq!['-']
    } else {
        letters
    }
}

/// The en-passant field: the algebraic target square, or a dash.
pub open spec fn ep_chars(ep: Option<u8>) -> Seq<char> {
    match ep {
        Option::Some(e) => alg_of_sq(e),
        Option::None => seq!['-'],
    }
}

/// The canonical text of a position: its six space-separated fields.
pub open spec fn fen_of(b: Seq<u8>, info: Information) -> Seq<char> {
    board_chars(b, 7) + seq![' '] + (if info.active_color == Color::WHITE {
        seq!['w']
    } else {
        seq!['b']
    }) + seq![' '] + castling_chars(info.castling_rights) + seq![' '] + ep_chars(
        info.enpassant_square,
    ) + seq![' '] + dec_rep(info.half_move_clock as int) + seq![' '] + dec_rep(
        info.full_move_clock as int,
    )
}

/// Appends one decimal digit.
fn append_digit(s: &mut String, n: u8)
    requires
        n <= 9,
    ensures
        final(s)@ == old(s)@ + seq![digit_char(n as int)],
{
    proof {
        reveal_strlit("0"); reveal_strlit("1"); reveal_strlit("2"); reveal_strlit("3");
        reveal_strlit("4"); reveal_strlit("5"); reveal_strlit("6"); reveal_strlit("7");
        reveal_strlit("8"); reveal_strlit("9");
    }
    s.append(
        match n {
            0 => "0", 1 => "1", 2 => "2", 3 => "3", 4 => "4", 5 => "5", 6 => "6", 7 => "7",
            8 => "8", _ => "9",
        },
    );
    proof {
        assert(s@ =~= old(s)@ + seq![digit_char(n as int)]);
    }
}

/// Appends the decimal rendering of a number.
fn append_dec(s: &mut String, n: usize)
    ensures
        final(s)@ == old(s)@ + dec_rep(n as int),
    decreases n,
{
    if n < 10 {
        append_digit(s, n as u8);
    } else {
        append_dec(s, n / 10);
        append_digit(s, (n % 10) as u8);
    }
    proof {
        assert(s@ =~= old(s)@ + dec_rep(n as int));
    }
}

/// Appends the letter of a nonzero packed square byte.
fn append_square_char(s: &mut String, byte: u8)
    requires
        byte != 0,
    ensures
        final(s)@ == old(s)@ + seq![square_char(byte)],
{
    proof {
        reveal_strlit("P"); reveal_strlit("p"); reveal_strlit("R"); reveal_strlit("r");
        reveal_strlit("N"); reveal_strlit("n"); reveal_strlit("B"); reveal_strlit("b");
        reveal_strlit("Q"); reveal_strlit("q"); reveal_strlit("K"); reveal_strlit("k");
    }
    let lit: &str = match crate::peices::extract_color_and_type_from_u8(byte) {
        Option::None => "P",
        Option::Some((c, p)) => {
            match (p, c) {
                (Peice::PAWN, Color::WHITE) => "P",
                (Peice::PAWN, Color::BLACK) => "p",
                (Peice::ROOK, Color::WHITE) => "R",
                (Peice::ROOK, Color::BLACK) => "r",
                (Peice::KNIGHT, Color::WHITE) => "N",
                (Peice::KNIGHT, Color::BLACK) => "n",
                (Peice::BISHOP, Color::WHITE) => "B",
                (Peice::BISHOP, Color::BLACK) => "b",
                (Peice::QUEEN, Color::WHITE) => "Q",
                (Peice::QUEEN, Color::BLACK) => "q",
                (Peice::KING, Color::WHITE) => "K",
                (Peice::KING, Color::BLACK) => "k",
                (Peice::EMPTY, _) => "P",
            }
        },
    };
    s.append(lit);
    proof {
        assert(s@ =~= old(s)@ + seq![square_char(byte)]);
    }
}

/// Appends the remainder of one rank of the board field.
fn append_rank(s: &mut String, board: &Vec<u8>, rank: u8, file: u8, run: u8)
    requires
        board@.len() == 128,
        rank < 8,
        file <= 8,
        run <= file,
    ensures
        final(s)@ == old(s)@ + rank_chars(board@, rank as int, file as int, run as int),
    decreases 8 - file,
{
    if file >= 8 {
        if run > 0 {
            append_digit(s, run);
        }
        return;
    }
    let byte: u8 = board[(16 * (rank as usize) + (file as usize))];
    if byte == 0 {
        append_rank(s, board, rank, file + 1, run + 1);
    } else {
        if run > 0 {
            append_digit(s, run);
        }
        append_square_char(s, byte);
        append_rank(s, board, rank, file + 1, 0);
    }
    proof {
        assert(s@ =~= old(s)@ + rank_chars(board@, rank as int, file as int, run as int));
    }
}

/// Appends the board field from this rank down to the first.
fn append_board(s: &mut String, board: &Vec<u8>, rank: u8)
    requires
        board@.len() == 128,
        rank < 8,
    ensures
        final(s)@ == old(s)@ + board_chars(board@, rank as int),
    decreases rank,
{
    append_rank(s, board, rank, 0, 0);
    if rank > 0 {
        proof {
            reveal_strlit("/");
        }
        s.append("/");
        append_board(s, board, rank - 1);
    }
    proof {
        assert(s@ =~= old(s)@ + board_chars(board@, rank as int));
    }
}

impl Position {
    /// Returns the fen string coresponding to the given position
    #[verifier::rlimit(100)]
    pub fn convert_to_fen_string(self) -> (r: String)
        requires
            self.wf(),
        ensures
            r@ == fen_of(self.board@, self.information),
    {
        proof {
            reveal_strlit(" "); reveal_strlit("w"); reveal_strlit("b"); reveal_strlit("-");
            reveal_strlit("K"); reveal_strlit("Q"); reveal_strlit("k"); reveal_strlit("q");
        }
        let mut s: String = String::new();
        append_board(&mut s, &self.board, 7);
        s.append(" ");
        match self.information.active_color {
            Color::WHITE => s.append("w"),
            Color::BLACK => s.append("b"),
        }
        s.append(" ");
        let cr: CastlingRights = self.information.castling_rights;
        if !(cr.white_kingside || cr.white_queenside || cr.black_kingside
            || cr.black_queenside) {
            s.append("-");
        } else {
            if cr.white_kingside {
                s.append("K");
            }
            if cr.white_queenside {
                s.append("Q");
            }
            if cr.black_kingside {
                s.append("k");
            }
            if cr.black_queenside {
                s.append("q");
            }
        }
        proof {
            assert(s@ =~= board_chars(self.board@, 7) + seq![' '] + (
            if self.information.active_color == Color::WHITE {
                seq!['w']
            } else {
                seq!['b']
            }) + seq![' '] + castling_chars(self.information.castling_rights));
        }
        s.append(" ");
        match self.information.enpassant_square {
            Option::None => {
                s.append("-");
            },
            Option::Some(e) => {
                let alg: String = crate::helpers::convert_0x88_to_alg(e);
                s.append(alg.as_str());
            },
        }
        s.append(" ");
        append_dec(&mut s, self.information.half_move_clock as usize);
        s.append(" ");
        append_dec(&mut s, self.information.full_move_clock);
        proof {
            assert(s@ =~= fen_of(self.board@, self.information));
        }
        s
    }
}


/// The packed byte a board-field letter stands for, zero for any other
/// character.
pub open spec fn fen_piece_byte(ch: char) -> u8 {
    if ch == 'P' { encode(Color::WHITE, Peice::PAWN) }
    else if ch == 'N' { encode(Color::WHITE, Peice::KNIGHT) }
    else if ch == 'B' { encode(Color::WHITE, Peice::BISHOP) }
    else if ch == 'R' { encode(Color::WHITE, Peice::ROOK) }
    else if ch == 'Q' { encode(Color::WHITE, Peice::QUEEN) }
    else if ch == 'K' { encode(Color::WHITE, Peice::KING) }
    else if ch == 'p' { encode(Color::BLACK, Peice::PAWN) }
    else if ch == 'n' { encode(Color::BLACK, Peice::KNIGHT) }
    else if ch == 'b' { encode(Color::BLACK, Peice::BISHOP) }
    else if ch == 'r' { encode(Color::BLACK, Peice::ROOK) }
    else if ch == 'q' { encode(Color::BLACK, Peice::QUEEN) }
    else if ch == 'k' { encode(Color::BLACK, Peice::KING) }
    else { 0 }
}

/// The count of empty squares a board-field digit stands for, zero for any
/// other character.
pub open spec fn fen_digit_val(ch: char) -> int {
    if ch == '1' { 1 } else if ch == '2' { 2 } else if ch == '3' { 3 } else if ch == '4' { 4 }
    else if ch == '5' { 5 } else if ch == '6' { 6 } else if ch == '7' { 7 } else if ch == '8' { 8 }
    else { 0 }
}

/// The all-empty board.
pub open spec fn empty_board() -> Seq<u8> {
    Seq::new(128, |i: int| 0u8)
}

/// Parses the board field from position `i`, with `file` squares of rank
/// `rank` already filled in `b`, up to the space that ends the field; `None`
/// on any malformed layout.
pub open spec fn spec_parse_board(s: Seq<char>, i: int, file: int, rank: int, b: Seq<u8>)
    -> Option<(Seq<u8>, int)>
    decreases s.len() - i,
{
    if i < 0 || i >= s.len() {
        None
    } else {
        let ch = s[i];
        if ch == ' ' {
            if file == 8 && rank == 0 {
                Some((b, i))
            } else {
                None
            }
        } else if ch == '/' {
            if file == 8 && rank > 0 {
                spec_parse_board(s, i + 1, 0, rank - 1, b)
            } else {
                None
            }
        } else if fen_digit_val(ch) > 0 {
            if file + fen_digit_val(ch) <= 8 {
                spec_parse_board(s, i + 1, file + fen_digit_val(ch), rank, b)
            } else {
                None
            }
        } else if fen_piece_byte(ch) != 0 {
            if file < 8 {
                spec_parse_board(s, i + 1, file + 1, rank, b.update(16 * rank + file,
                    fen_piece_byte(ch)))
            } else {
                None
            }
        } else {
            None
        }
    }
}

/// The position after a run of spaces starting at `i`.
pub open spec fn spec_skip_spaces(s: Seq<char>, i: int) -> int
    decreases s.len() - i,
{
    if 0 <= i < s.len() && s[i] == ' ' {
        spec_skip_spaces(s, i + 1)
    } else {
        i
    }
}

/// Consumes the run of one or more spaces separating two fields.
pub open spec fn spec_expect_gap(s: Seq<char>, i: int) -> Option<int> {
    if 0 <= i < s.len() && s[i] == ' ' {
        Some(spec_skip_spaces(s, i + 1))
    } else {
        None
    }
}

/// Parses the active-color field: `w` or `b`.
pub open spec fn spec_parse_color(s: Seq<char>, i: int) -> Option<(Color, int)> {
    if 0 <= i < s.len() {
        if s[i] == 'w' {
            Some((Color::WHITE, i + 1))
        } else if s[i] == 'b' {
            Some((Color::BLACK, i + 1))
        } else {
            None
        }
    } else {
        None
    }
}

/// True for the four castling-rights letters.
pub open spec fn is_castle_char(ch: char) -> bool {
    ch == 'K' || ch == 'Q' || ch == 'k' || ch == 'q'
}

/// Accumulates castling-rights letters from `i` onward into `cr`, returning
/// the rights and the position after the run.
pub open spec fn spec_gather_castling(s: Seq<char>, i: int, cr: CastlingRights)
    -> (CastlingRights, int)
    decreases s.len() - i,
{
    if 0 <= i < s.len() && is_castle_char(s[i]) {
        let next = if s[i] == 'K' {
            CastlingRights { white_kingside: true, ..cr }
        } else if s[i] == 'Q' {
            CastlingRights { white_queenside: true, ..cr }
        } else if s[i] == 'k' {
            CastlingRights { black_kingside: true, ..cr }
        } else {
            CastlingRights { black_queenside: true, ..cr }
        };
        spec_gather_castling(s, i + 1, next)
    } else {
        (cr, i)
    }
}

/// The empty castling-rights table.
pub open spec fn no_rights() -> CastlingRights {
    CastlingRights {
        white_queenside: false,
        white_kingside: false,
        black_queenside: false,
        black_kingside: false,
    }
}

/// Parses the castling-rights field: a nonempty run of `KQkq` letters, or a
/// dash for none.
pub open spec fn spec_parse_castling(s: Seq<char>, i: int) -> Option<(CastlingRights, int)> {
    if 0 <= i < s.len() {
        if s[i] == '-' {
            Some((no_rights(), i + 1))
        } else {
            let (cr, j) = spec_gather_castling(s, i, no_rights());
            if j == i {
                None
            } else {
                Some((cr, j))
            }
        }
    } else {
        None
    }
}

/// Parses the en-passant field: an algebraic square or a dash.
pub open spec fn spec_parse_ep(s: Seq<char>, i: int) -> Option<(Option<u8>, int)> {
    if 0 <= i < s.len() {
        if s[i] == '-' {
            Some((Option::None, i + 1))
        } else if i + 1 < s.len() && is_file_char(s[i]) && is_rank_char(s[i + 1]) {
            Some((Some(sq_of_chars(s[i], s[i + 1])), i + 2))
        } else {
            None
        }
    } else {
        None
    }
}

/// True for the ten decimal digits.
pub open spec fn is_digit_char(ch: char) -> bool {
    ch == '0' || ch == '1' || ch == '2' || ch == '3' || ch == '4' || ch == '5' || ch == '6'
        || ch == '7' || ch == '8' || ch == '9'
}

/// The value of a decimal digit, nine for any other character.
pub open spec fn digit_char_val(ch: char) -> int {
    if ch == '0' { 0 } else if ch == '1' { 1 } else if ch == '2' { 2 } else if ch == '3' { 3 }
    else if ch == '4' { 4 } else if ch == '5' { 5 } else if ch == '6' { 6 } else if ch == '7' { 7 }
    else if ch == '8' { 8 } else { 9 }
}

/// Accumulates decimal digits from `i` onward onto `val`, `None` as soon as
/// the value would pass `bound`.
pub open spec fn spec_digits(s: Seq<char>, i: int, val: int, bound: int) -> Option<(int, int)>
    decreases s.len() - i,
{
    if 0 <= i < s.len() && is_digit_char(s[i]) {
        let d = digit_char_val(s[i]);
        if val > bound / 10 || 10 * val > bound - d {
            None
        } else {
            spec_digits(s, i + 1, 10 * val + d, bound)
        }
    } else {
        Some((val, i))
    }
}

/// Parses a clock field: a nonempty digit run whose value stays within
/// `bound`.
pub open spec fn spec_parse_num(s: Seq<char>, i: int, bound: int) -> Option<(int, int)> {
    if 0 <= i < s.len() && is_digit_char(s[i]) {
        spec_digits(s, i, 0, bound)
    } else {
        None
    }
}

/// Parses a whole six-field position description: the board layout, the
/// active color, the castling rights, the en-passant target, and the two
/// clocks, separated by runs of spaces, with nothing but spaces after them;
/// `None` on any malformed text.
pub open spec fn spec_load_fen(s: Seq<char>) -> Option<(Seq<u8>, Information)> {
    match spec_parse_board(s, 0, 0, 7, empty_board()) {
        Option::None => None,
        Option::Some((board, i1)) => match spec_expect_gap(s, i1) {
            Option::None => None,
            Option::Some(i2) => match spec_parse_color(s, i2) {
                Option::None => None,
                Option::Some((active_color, i3)) => match spec_expect_gap(s, i3) {
                    Option::None => None,
                    Option::Some(i4) => match spec_parse_castling(s, i4) {
                        Option::None => None,
                        Option::Some((castling_rights, i5)) => match spec_expect_gap(s, i5) {
                            Option::None => None,
                            Option::Some(i6) => match spec_parse_ep(s, i6) {
                                Option::None => None,
                                Option::Some((enpassant_square, i7)) => match spec_expect_gap(
                                    s,
                                    i7,
                                ) {
                                    Option::None => None,
                                    Option::Some(i8_) => match spec_parse_num(s, i8_, 255) {
                                        Option::None => None,
                                        Option::Some((half, i9)) => match spec_expect_gap(
                                            s,
                                            i9,
                                        ) {
                                            Option::None => None,
                                            Option::Some(i10) => match spec_parse_num(
                                                s,
                                                i10,
                                                usize::MAX as int,
                                            ) {
                                                Option::None => None,
                                                Option::Some((full, i11)) => if full == 0
                                                    || spec_skip_spaces(s, i11) != s.len() {
                                                    None
                                                } else {
                                                    Some(
                                                        (
                                                            board,
                                                            Information {
                                                                active_color,
                                                                castling_rights,
                                                                enpassant_square,
                                                                half_move_clock: half as u8,
                                                                full_move_clock: full as usize,
                                                            },
                                                        ),
                                                    )
                                                },
                                            },
                                        },
                                    },
                                },
                            },
                        },
                    },
                },
            },
        },
    }
}

/// Parses the board field: ranks eight down to one separated by slashes,
/// piece letters and empty-run digits, ending at the first space.
fn parse_board_field(s: &str, start: usize) -> (r: Result<(Vec<u8>, usize), EngineError>)
    requires
        start <= s@.len(),
    ensures
        match r {
            Result::Ok(p) => spec_parse_board(s@, start as int, 0, 7, empty_board()) == Some(
                (p.0@, p.1 as int),
            ) && wf_board(p.0@) && start <= p.1 <= s@.len(),
            Result::Err(_) => spec_parse_board(s@, start as int, 0, 7, empty_board()) is None,
        },
{
    let n: usize = s.unicode_len();
    let mut board: Vec<u8> = vec![0u8; 128];
    proof {
        assert(board@ =~= empty_board());
    }
    let mut file: u8 = 0;
    let mut rank: u8 = 7;
    let mut i: usize = start;
    while i < n
        invariant
            start <= i <= n,
            n == s@.len(),
            file <= 8,
            rank <= 7,
            wf_board(board@),
            spec_parse_board(s@, start as int, 0, 7, empty_board()) == spec_parse_board(
                s@,
                i as int,
                file as int,
                rank as int,
                board@,
            ),
        decreases n - i,
    {
        let c: char = s.get_char(i);
        if c == ' ' {
            if file == 8 && rank == 0 {
                return Result::Ok((board, i));
            }
            return Result::Err(EngineError::ParseError);
        }
        if c == '/' {
            if file != 8 || rank == 0 {
                return Result::Err(EngineError::ParseError);
            }
            rank = rank - 1;
            file = 0;
        } else {
            let d: u8 = match c {
                '1' => 1, '2' => 2, '3' => 3, '4' => 4, '5' => 5, '6' => 6, '7' => 7, '8' => 8,
                _ => 0,
            };
            if d > 0 {
                if file > 8 - d {
                    return Result::Err(EngineError::ParseError);
                }
                file = file + d;
            } else {
                let color: Color = if c == 'P' || c == 'N' || c == 'B' || c == 'R' || c == 'Q'
                    || c == 'K' {
                    Color::WHITE
                } else {
                    Color::BLACK
                };
                let piece: Peice = match c {
                    'p' | 'P' => Peice::PAWN,
                    'n' | 'N' => Peice::KNIGHT,
                    'k' | 'K' => Peice::KING,
                    'r' | 'R' => Peice::ROOK,
                    'q' | 'Q' => Peice::QUEEN,
                    'b' | 'B' => Peice::BISHOP,
                    _ => {
                        return Result::Err(EngineError::ParseError);
                    },
                };
                if file >= 8 {
                    return Result::Err(EngineError::ParseError);
                }
                let byte: u8 = crate::peices::convert_color_and_type_to_u8(color, piece);
                proof {
                    assert(byte == fen_piece_byte(c));
                }
                let sq: usize = 16 * (rank as usize) + (file as usize);
                board[sq] = byte;
                file = file + 1;
            }
        }
        i = i + 1;
    }
    Result::Err(EngineError::ParseError)
}

/// Consumes the run of one or more spaces separating two fields.
fn expect_gap(s: &str, start: usize) -> (r: Result<usize, EngineError>)
    requires
        start <= s@.len(),
    ensures
        match r {
            Result::Ok(i) => spec_expect_gap(s@, start as int) == Some(i as int) && start < i
                <= s@.len() && s@[start as int] == ' ',
            Result::Err(_) => spec_expect_gap(s@, start as int) is None,
        },
{
    let n: usize = s.unicode_len();
    if start >= n {
        return Result::Err(EngineError::ParseError);
    }
    if s.get_char(start) != ' ' {
        return Result::Err(EngineError::ParseError);
    }
    let mut i: usize = start + 1;
    while i < n && s.get_char(i) == ' '
        invariant
            start < i <= n,
            n == s@.len(),
            spec_skip_spaces(s@, start as int + 1) == spec_skip_spaces(s@, i as int),
        decreases n - i,
    {
        i = i + 1;
    }
    Result::Ok(i)
}

/// Parses the active-color field: `w` or `b`.
fn parse_color_field(s: &str, start: usize) -> (r: Result<(Color, usize), EngineError>)
    requires
        start <= s@.len(),
    ensures
        match r {
            Result::Ok(p) => spec_parse_color(s@, start as int) == Some((p.0, p.1 as int))
                && start < p.1 <= s@.len(),
            Result::Err(_) => spec_parse_color(s@, start as int) is None,
        },
{
    let n: usize = s.unicode_len();
    if start >= n {
        return Result::Err(EngineError::ParseError);
    }
    match s.get_char(start) {
        'w' => Result::Ok((Color::WHITE, start + 1)),
        'b' => Result::Ok((Color::BLACK, start + 1)),
        _ => Result::Err(EngineError::ParseError),
    }
}

/// True when the character at `i` is a castling-rights letter.
fn is_castle_letter(s: &str, i: usize) -> (r: bool)
    requires
        i < s@.len(),
    ensures
        r == is_castle_char(s@[i as int]),
{
    let c: char = s.get_char(i);
    c == 'K' || c == 'Q' || c == 'k' || c == 'q'
}

/// Parses the castling-rights field: a nonempty run of `KQkq` letters, or a
/// dash for none.
fn parse_castling_field(s: &str, start: usize) -> (r: Result<(CastlingRights, usize),
    EngineError>)
    requires
        start <= s@.len(),
    ensures
        match r {
            Result::Ok(p) => spec_parse_castling(s@, start as int) == Some((p.0, p.1 as int))
                && start < p.1 <= s@.len(),
            Result::Err(_) => spec_parse_castling(s@, start as int) is None,
        },
{
    let n: usize = s.unicode_len();
    if start >= n {
        return Result::Err(EngineError::ParseError);
    }
    let mut cr: CastlingRights = CastlingRights {
        white_queenside: false,
        white_kingside: false,
        black_queenside: false,
        black_kingside: false,
    };
    if s.get_char(start) == '-' {
        return Result::Ok((cr, start + 1));
    }
    let mut i: usize = start;
    while i < n && is_castle_letter(s, i)
        invariant
            start <= i <= n,
            n == s@.len(),
            spec_gather_castling(s@, start as int, no_rights()) == spec_gather_castling(
                s@,
                i as int,
                cr,
            ),
        decreases n - i,
    {
        match s.get_char(i) {
            'K' => {
                cr.white_kingside = true;
            },
            'Q' => {
                cr.white_queenside = true;
            },
            'k' => {
                cr.black_kingside = true;
            },
            _ => {
                cr.black_queenside = true;
            },
        }
        i = i + 1;
    }
    if i == start {
        return Result::Err(EngineError::ParseError);
    }
    Result::Ok((cr, i))
}

/// Parses the en-passant field: an algebraic square or a dash.
fn parse_ep_field(s: &str, start: usize) -> (r: Result<(Option<u8>, usize), EngineError>)
    requires
        start <= s@.len(),
    ensures
        match r {
            Result::Ok(p) => spec_parse_ep(s@, start as int) == Some((p.0, p.1 as int)) && start
                < p.1 <= s@.len() && (p.0 matches Some(e) ==> valid_sq(e)),
            Result::Err(_) => spec_parse_ep(s@, start as int) is None,
        },
{
    let n: usize = s.unicode_len();
    if start >= n {
        return Result::Err(EngineError::ParseError);
    }
    if s.get_char(start) == '-' {
        return Result::Ok((Option::None, start + 1));
    }
    if start + 1 >= n {
        return Result::Err(EngineError::ParseError);
    }
    let file: u8 = match s.get_char(start) {
        'a' => 0, 'b' => 1, 'c' => 2, 'd' => 3, 'e' => 4, 'f' => 5, 'g' => 6, 'h' => 7,
        _ => {
            return Result::Err(EngineError::ParseError);
        },
    };
    let rank: u8 = match s.get_char(start + 1) {
        '1' => 0, '2' => 1, '3' => 2, '4' => 3, '5' => 4, '6' => 5, '7' => 6, '8' => 7,
        _ => {
            return Result::Err(EngineError::ParseError);
        },
    };
    Result::Ok((Option::Some(16 * rank + file), start + 2))
}

/// True when the character at `i` is a decimal digit.
fn is_digit_at(s: &str, i: usize) -> (r: bool)
    requires
        i < s@.len(),
    ensures
        r == is_digit_char(s@[i as int]),
{
    let c: char = s.get_char(i);
    c == '0' || c == '1' || c == '2' || c == '3' || c == '4' || c == '5' || c == '6' || c == '7'
        || c == '8' || c == '9'
}

/// The value of the decimal digit at `i`.
fn digit_at(s: &str, i: usize) -> (r: u8)
    requires
        i < s@.len(),
    ensures
        r <= 9,
        r as int == digit_char_val(s@[i as int]),
{
    match s.get_char(i) {
        '0' => 0, '1' => 1, '2' => 2, '3' => 3, '4' => 4, '5' => 5, '6' => 6, '7' => 7,
        '8' => 8, _ => 9,
    }
}

/// Parses a clock field as a number, rejecting values above the given bound.
fn parse_num_field(s: &str, start: usize, bound: usize) -> (r: Result<(usize, usize),
    EngineError>)
    requires
        start <= s@.len(),
        bound >= 9,
    ensures
        match r {
            Result::Ok(p) => spec_parse_num(s@, start as int, bound as int) == Some(
                (p.0 as int, p.1 as int),
            ) && start < p.1 <= s@.len() && p.0 <= bound,
            Result::Err(_) => spec_parse_num(s@, start as int, bound as int) is None,
        },
{
    let n: usize = s.unicode_len();
    let mut i: usize = start;
    let mut val: usize = 0;
    while i < n && is_digit_at(s, i)
        invariant
            start <= i <= n,
            n == s@.len(),
            val <= bound,
            bound >= 9,
            i > start ==> start < s@.len() && is_digit_char(s@[start as int]),
            spec_digits(s@, start as int, 0, bound as int) == spec_digits(
                s@,
                i as int,
                val as int,
                bound as int,
            ),
        decreases n - i,
    {
        let d: usize = digit_at(s, i) as usize;
        if val > bound / 10 || 10 * val > bound - d {
            return Result::Err(EngineError::ParseError);
        }
        val = 10 * val + d;
        i = i + 1;
    }
    if i == start {
        return Result::Err(EngineError::ParseError);
    }
    Result::Ok((val, i))
}

impl Position {
    /// Loads a position from a fen string: six space-separated fields (board
    /// layout, active color, castling rights, en-passant target, half-move
    /// clock, full-move number), rejecting malformed text with `ParseError`
    /// and never building a position partially.
    pub fn load_from_fen(fen_string: String) -> (r: Result<Position, EngineError>)
        ensures
            match r {
                Result::Ok(p) => {
                    &&& spec_load_fen(fen_string@) == Some((p.board@, p.information))
                    &&& p.wf()
                    &&& p.undo_stack@.len() == 0
                },
                Result::Err(e) => spec_load_fen(fen_string@) is None && e
                    == EngineError::ParseError,
            },
    {
        let s: &str = fen_string.as_str();
        let n: usize = s.unicode_len();
        let (board, i1): (Vec<u8>, usize) = match parse_board_field(s, 0) {
            Result::Ok(x) => x,
            Result::Err(_e) => {
                return Result::Err(EngineError::ParseError);
            },
        };
        let i2: usize = match expect_gap(s, i1) {
            Result::Ok(x) => x,
            Result::Err(_e) => {
                return Result::Err(EngineError::ParseError);
            },
        };
        let (active_color, i3): (Color, usize) = match parse_color_field(s, i2) {
            Result::Ok(x) => x,
            Result::Err(_e) => {
                return Result::Err(EngineError::ParseError);
            },
        };
        let i4: usize = match expect_gap(s, i3) {
            Result::Ok(x) => x,
            Result::Err(_e) => {
                return Result::Err(EngineError::ParseError);
            },
        };
        let (castling_rights, i5): (CastlingRights, usize) = match parse_castling_field(s, i4) {
            Result::Ok(x) => x,
            Result::Err(_e) => {
                return Result::Err(EngineError::ParseError);
            },
        };
        let i6: usize = match expect_gap(s, i5) {
            Result::Ok(x) => x,
            Result::Err(_e) => {
                return Result::Err(EngineError::ParseError);
            },
        };
        let (enpassant_square, i7): (Option<u8>, usize) = match parse_ep_field(s, i6) {
            Result::Ok(x) => x,
            Result::Err(_e) => {
                return Result::Err(EngineError::ParseError);
            },
        };
        let i8: usize = match expect_gap(s, i7) {
            Result::Ok(x) => x,
            Result::Err(_e) => {
                return Result::Err(EngineError::ParseError);
            },
        };
        let (half, i9): (usize, usize) = match parse_num_field(s, i8, 255) {
            Result::Ok(x) => x,
            Result::Err(_e) => {
                return Result::Err(EngineError::ParseError);
            },
        };
        let i10: usize = match expect_gap(s, i9) {
            Result::Ok(x) => x,
            Result::Err(_e) => {
                return Result::Err(EngineError::ParseError);
            },
        };
        let (full, i11): (usize, usize) = match parse_num_field(s, i10, usize::MAX) {
            Result::Ok(x) => x,
            Result::Err(_e) => {
                return Result::Err(EngineError::ParseError);
            },
        };
        if full == 0 {
            return Result::Err(EngineError::ParseError);
        }
        let mut i: usize = i11;
        while i < n && s.get_char(i) == ' '
            invariant
                i <= n,
                n == s@.len(),
                spec_skip_spaces(s@, i11 as int) == spec_skip_spaces(s@, i as int),
            decreases n - i,
        {
            i = i + 1;
        }
        if i != n {
            return Result::Err(EngineError::ParseError);
        }
        Result::Ok(
            Position {
                board,
                information: Information {
                    active_color,
                    castling_rights,
                    enpassant_square,
                    half_move_clock: half as u8,
                    full_move_clock: full,
                },
                undo_stack: Vec::new(),
            },
        )
    }
}

} // verus!
