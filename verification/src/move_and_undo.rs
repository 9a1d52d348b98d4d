//! Move and undo records, and the reversible apply/undo engine: applying a
//! move mutates the position in place and pushes the record that undoes it;
//! undoing pops that record and restores the position exactly.

use vstd::prelude::*;
use crate::helpers::{valid_sq, rank_of};
use crate::peices::{
    Color, Peice, opponent, encode, decode, decoded_color, decoded_kind, valid_piece_byte,
    lemma_codec_roundtrip, lemma_bit_facts,
};
use crate::position::{Position, Information, CastlingRights, wf_board, wf_info};
use crate::EngineError;

verus! {

/// What kind of ply transition a move is.
#[allow(non_camel_case_types)]
#[derive(Clone, Copy, PartialEq, Eq, Structural, Debug)]
pub enum MoveFlag {
    QUIET,
    DOUBLE_PUSH,
    OO,
    OOO,
    CAPTURE,
    EN_PASSANT,
    PR_KNIGHT,
    PR_BISHOP,
    PR_ROOK,
    PR_QUEEN,
}

/// Stores everything needed to make a move.
#[derive(Clone, Copy, PartialEq, Eq, Structural, Debug)]
pub struct MoveInfo {
    pub to: u8,
    pub frm: u8,
    pub flag: MoveFlag,
}

/// Stores all information needed to undo a move: the squares and flag of the
/// move, the byte it captured (zero when nothing was), and the game-state
/// information as it stood before the move.
#[derive(Clone, Copy, Debug)]
pub struct UndoInfo {
    pub to: u8,
    pub frm: u8,
    pub flag: MoveFlag,
    pub captured: u8,
    pub info: Information,
}

/// The name a move flag prints as.
pub open spec fn flag_text(f: MoveFlag) -> Seq<char> {
    match f {
        MoveFlag::QUIET => "QUIET"@,
        MoveFlag::DOUBLE_PUSH => "DOUBLE_PUSH"@,
        MoveFlag::OO => "OO"@,
        MoveFlag::OOO => "OOO"@,
        MoveFlag::CAPTURE => "CAPTURE"@,
        MoveFlag::EN_PASSANT => "EN_PASSANT"@,
        MoveFlag::PR_KNIGHT => "PR_KNIGHT"@,
        MoveFlag::PR_BISHOP => "PR_BISHOP"@,
        MoveFlag::PR_ROOK => "PR_ROOK"@,
        MoveFlag::PR_QUEEN => "PR_QUEEN"@,
    }
}

impl MoveInfo {
    /// The move as text: the source and destination squares in algebraic
    /// coordinates, then the flag name.
    pub fn describe(&self) -> (r: String)
        requires
            crate::helpers::valid_sq(self.frm),
            crate::helpers::valid_sq(self.to),
        ensures
            r@ == crate::helpers::alg_of_sq(self.frm) + crate::helpers::alg_of_sq(self.to)
                + " "@ + flag_text(self.flag),
    {
        let mut s: String = crate::helpers::convert_0x88_to_alg(self.frm);
        let to_alg: String = crate::helpers::convert_0x88_to_alg(self.to);
        s.append(to_alg.as_str());
        s.append(" ");
        s.append(
            match self.flag {
                MoveFlag::QUIET => "QUIET",
                MoveFlag::DOUBLE_PUSH => "DOUBLE_PUSH",
                MoveFlag::OO => "OO",
                MoveFlag::OOO => "OOO",
                MoveFlag::CAPTURE => "CAPTURE",
                MoveFlag::EN_PASSANT => "EN_PASSANT",
                MoveFlag::PR_KNIGHT => "PR_KNIGHT",
                MoveFlag::PR_BISHOP => "PR_BISHOP",
                MoveFlag::PR_ROOK => "PR_ROOK",
                MoveFlag::PR_QUEEN => "PR_QUEEN",
            },
        );
        s
    }
}

/// True when the packed byte decodes to exactly this colored piece.
pub open spec fn piece_is(b: u8, c: Color, p: Peice) -> bool {
    decode(b) == Some((c, p))
}

/// The square the pawn captured en passant stands on: directly behind the
/// landing square from the mover's point of view.
pub open spec fn ep_captured_sq(to: u8, mover: Color) -> u8 {
    if mover == Color::WHITE {
        (to - 16) as u8
    } else {
        (to + 16) as u8
    }
}

/// An undo record can be replayed without stepping off the board: its squares
/// are valid, its captured byte is empty or a real piece, its stored game
/// state is well formed, and castling or en-passant records sit on the ranks
/// those moves can reach.
pub open spec fn wf_undo(u: UndoInfo) -> bool {
    &&& valid_sq(u.frm)
    &&& valid_sq(u.to)
    &&& u.captured == 0 || valid_piece_byte(u.captured)
    &&& wf_info(u.info)
    &&& u.flag == MoveFlag::EN_PASSANT ==> 32 <= u.to < 96
    &&& u.flag == MoveFlag::OO ==> u.to % 16 == 6
    &&& u.flag == MoveFlag::OOO ==> u.to % 16 == 2
}

/// What a move must look like for the engine to apply it: both squares valid
/// and distinct, a real piece on the source, and the flag matching the board,
/// so that application is reversible and stays on the board.
pub open spec fn move_wf(b: Seq<u8>, info: Information, m: MoveInfo) -> bool {
    &&& b.len() == 128
    &&& valid_sq(m.frm)
    &&& valid_sq(m.to)
    &&& m.frm != m.to
    &&& b[m.frm as int] != 0
    &&& valid_piece_byte(b[m.frm as int])
    &&& {
        let mover = b[m.frm as int];
        let mc = decoded_color(mover);
        let mk = decoded_kind(mover);
        match m.flag {
            MoveFlag::QUIET => b[m.to as int] == 0,
            MoveFlag::DOUBLE_PUSH => {
                &&& mk == Peice::PAWN
                &&& b[m.to as int] == 0
                &&& if mc == Color::WHITE {
                    m.to == m.frm + 32
                } else {
                    m.frm == m.to + 32
                }
            },
            MoveFlag::CAPTURE => {
                &&& b[m.to as int] != 0
                &&& decoded_color(b[m.to as int]) == opponent(mc)
            },
            MoveFlag::EN_PASSANT => {
                &&& mk == Peice::PAWN
                &&& info.enpassant_square == Some(m.to)
                &&& b[m.to as int] == 0
                &&& if mc == Color::WHITE {
                    &&& (m.to == m.frm + 15 || m.to == m.frm + 17)
                    &&& rank_of(m.to) == 5
                } else {
                    &&& (m.frm == m.to + 15 || m.frm == m.to + 17)
                    &&& rank_of(m.to) == 2
                }
                &&& piece_is(b[ep_captured_sq(m.to, mc) as int], opponent(mc), Peice::PAWN)
            },
            MoveFlag::OO => {
                &&& mk == Peice::KING
                &&& if mc == Color::WHITE {
                    m.frm == 0x04
                } else {
                    m.frm == 0x74
                }
                &&& m.to == m.frm + 2
                &&& b[m.to as int] == 0
                &&& b[m.frm + 1] == 0
                &&& piece_is(b[m.frm + 3], mc, Peice::ROOK)
            },
            MoveFlag::OOO => {
                &&& mk == Peice::KING
                &&& if mc == Color::WHITE {
                    m.frm == 0x04
                } else {
                    m.frm == 0x74
                }
                &&& m.to + 2 == m.frm
                &&& b[m.to as int] == 0
                &&& b[m.frm - 1] == 0
                &&& b[m.to - 1] == 0
                &&& piece_is(b[m.frm - 4], mc, Peice::ROOK)
            },
            MoveFlag::PR_KNIGHT | MoveFlag::PR_BISHOP | MoveFlag::PR_ROOK
                | MoveFlag::PR_QUEEN => {
                &&& mk == Peice::PAWN
                &&& if mc == Color::WHITE {
                    &&& rank_of(m.to) == 7
                    &&& rank_of(m.frm) == 6
                } else {
                    &&& rank_of(m.to) == 0
                    &&& rank_of(m.frm) == 1
                }
                &&& (b[m.to as int] == 0 || decoded_color(b[m.to as int]) == opponent(mc))
            },
        }
    }
}

/// The board after a move is applied: the mover leaves its source, lands on
/// its destination (transformed, for a promotion), the en-passant victim
/// disappears, and a castling rook crosses to the square beside the king.
pub open spec fn apply_board(b: Seq<u8>, m: MoveInfo) -> Seq<u8> {
    let mover = b[m.frm as int];
    let mc = decoded_color(mover);
    let moved = b.update(m.frm as int, 0).update(m.to as int, mover);
    match m.flag {
        MoveFlag::EN_PASSANT => moved.update(ep_captured_sq(m.to, mc) as int, 0),
        MoveFlag::OO => moved.update(m.to as int + 1, 0).update(
            m.to as int - 1,
            b[m.to as int + 1],
        ),
        MoveFlag::OOO => moved.update(m.to as int - 2, 0).update(
            m.to as int + 1,
            b[m.to as int - 2],
        ),
        MoveFlag::PR_KNIGHT => moved.update(m.to as int, encode(mc, Peice::KNIGHT)),
        MoveFlag::PR_BISHOP => moved.update(m.to as int, encode(mc, Peice::BISHOP)),
        MoveFlag::PR_ROOK => moved.update(m.to as int, encode(mc, Peice::ROOK)),
        MoveFlag::PR_QUEEN => moved.update(m.to as int, encode(mc, Peice::QUEEN)),
        _ => moved,
    }
}

/// The castling rights that survive a move from `frm` to `to`: a right
/// disappears when its king or rook square is left, or when the rook square
/// is landed on (a capture of the rook).
pub open spec fn apply_rights(cr: CastlingRights, frm: u8, to: u8) -> CastlingRights {
    CastlingRights {
        white_kingside: cr.white_kingside && frm != 0x04 && frm != 0x07 && to != 0x07,
        white_queenside: cr.white_queenside && frm != 0x04 && frm != 0x00 && to != 0x00,
        black_kingside: cr.black_kingside && frm != 0x74 && frm != 0x77 && to != 0x77,
        black_queenside: cr.black_queenside && frm != 0x74 && frm != 0x70 && to != 0x70,
    }
}

/// Whether a move resets the half-move clock: every pawn move and every
/// capture does.
pub open spec fn resets_clock(m: MoveInfo, mover: u8) -> bool {
    decoded_kind(mover) == Peice::PAWN || m.flag == MoveFlag::CAPTURE || m.flag
        == MoveFlag::EN_PASSANT
}

/// The game-state information after a move by the piece byte `mover`: the
/// active color flips, castling rights shrink, the en-passant target is set
/// by a double push and cleared by anything else, the half-move clock resets
/// or counts, and the full-move counter steps after Black's move.
pub open spec fn apply_info(info: Information, m: MoveInfo, mover: u8) -> Information {
    Information {
        active_color: opponent(info.active_color),
        castling_rights: apply_rights(info.castling_rights, m.frm, m.to),
        enpassant_square: if m.flag == MoveFlag::DOUBLE_PUSH {
            Some(((m.frm + m.to) / 2) as u8)
        } else {
            None
        },
        half_move_clock: if resets_clock(m, mover) {
            0
        } else if info.half_move_clock < 255 {
            (info.half_move_clock + 1) as u8
        } else {
            255
        },
        full_move_clock: if info.active_color == Color::BLACK {
            if info.full_move_clock < usize::MAX {
                (info.full_move_clock + 1) as usize
            } else {
                info.full_move_clock
            }
        } else {
            info.full_move_clock
        },
    }
}

/// The byte a move captures: what stands behind the landing square for an
/// en-passant capture, what stands on the landing square otherwise.
pub open spec fn captured_of(b: Seq<u8>, m: MoveInfo) -> u8 {
    if m.flag == MoveFlag::EN_PASSANT {
        b[ep_captured_sq(m.to, decoded_color(b[m.frm as int])) as int]
    } else {
        b[m.to as int]
    }
}

/// The undo record a move application produces.
pub open spec fn record_of(b: Seq<u8>, info: Information, m: MoveInfo) -> UndoInfo {
    UndoInfo { to: m.to, frm: m.frm, flag: m.flag, captured: captured_of(b, m), info }
}

/// The board after an undo record is replayed backwards: the moved piece
/// returns to its source (a promoted piece shrinks back to a pawn), the
/// captured byte returns where it stood, and a castling rook walks home.
pub open spec fn undo_board(b: Seq<u8>, u: UndoInfo) -> Seq<u8> {
    let moved = b[u.to as int];
    let mc = decoded_color(moved);
    match u.flag {
        MoveFlag::QUIET | MoveFlag::DOUBLE_PUSH => b.update(u.to as int, 0).update(
            u.frm as int,
            moved,
        ),
        MoveFlag::CAPTURE => b.update(u.to as int, u.captured).update(u.frm as int, moved),
        MoveFlag::EN_PASSANT => b.update(u.to as int, 0).update(u.frm as int, moved).update(
            ep_captured_sq(u.to, mc) as int,
            u.captured,
        ),
        MoveFlag::OO => b.update(u.to as int, 0).update(u.to as int - 1, 0).update(
            u.frm as int,
            moved,
        ).update(u.to as int + 1, b[u.to as int - 1]),
        MoveFlag::OOO => b.update(u.to as int, 0).update(u.to as int + 1, 0).update(
            u.frm as int,
            moved,
        ).update(u.to as int - 2, b[u.to as int + 1]),
        MoveFlag::PR_KNIGHT | MoveFlag::PR_BISHOP | MoveFlag::PR_ROOK | MoveFlag::PR_QUEEN => b
            .update(u.to as int, u.captured).update(u.frm as int, encode(mc, Peice::PAWN)),
    }
}

/// How many kings of a color stand on the first `n` slots of the board.
pub open spec fn king_count_to(b: Seq<u8>, c: Color, n: int) -> int
    decreases n,
{
    if n <= 0 {
        0
    } else {
        king_count_to(b, c, n - 1) + (if piece_is(b[n - 1], c, Peice::KING) {
            1int
        } else {
            0int
        })
    }
}

/// How many kings of a color stand on the board.
pub open spec fn king_count(b: Seq<u8>, c: Color) -> int {
    king_count_to(b, c, 128)
}

/// Writing one slot changes a color's king count by the difference the old
/// and new bytes make.
#[verifier::rlimit(100)]
#[verifier::spinoff_prover]
proof fn lemma_count_update(b: Seq<u8>, c: Color, i: int, v: u8, n: int)
    requires
        0 <= i < b.len(),
        n <= b.len(),
    ensures
        king_count_to(b.update(i, v), c, n) == king_count_to(b, c, n) + (if i < n {
            (if piece_is(v, c, Peice::KING) {
                1int
            } else {
                0int
            }) - (if piece_is(b[i], c, Peice::KING) {
                1int
            } else {
                0int
            })
        } else {
            0int
        }),
    decreases n,
{
    if n > 0 {
        lemma_count_update(b, c, i, v, n - 1);
    }
}

/// Applying a move changes a color's king count only by removing a captured
/// king: every move of legal play, where a king is never captured, keeps
/// exactly as many kings of each color on the board as it found.
#[verifier::rlimit(100)]
#[verifier::spinoff_prover]
pub proof fn lemma_apply_board_kings(b: Seq<u8>, info: Information, m: MoveInfo, kc: Color)
    requires
        wf_board(b),
        wf_info(info),
        move_wf(b, info, m),
    ensures
        king_count(apply_board(b, m), kc) == king_count(b, kc) - (if piece_is(
            captured_of(b, m),
            kc,
            Peice::KING,
        ) {
            1int
        } else {
            0int
        }),
{
    let mover = b[m.frm as int];
    lemma_valid_byte_decode(mover);
    let mc = decoded_color(mover);
    let frm = m.frm as int;
    let to = m.to as int;
    let b1 = b.update(frm, 0);
    let b2 = b1.update(to, mover);
    lemma_count_update(b, kc, frm, 0, 128);
    lemma_count_update(b1, kc, to, mover, 128);
    match m.flag {
        MoveFlag::EN_PASSANT => {
            let cap = ep_captured_sq(m.to, mc) as int;
            lemma_count_update(b2, kc, cap, 0, 128);
        },
        MoveFlag::OO => {
            let b3 = b2.update(to + 1, 0);
            lemma_count_update(b2, kc, to + 1, 0, 128);
            lemma_count_update(b3, kc, to - 1, b[to + 1], 128);
        },
        MoveFlag::OOO => {
            let b3 = b2.update(to - 2, 0);
            lemma_count_update(b2, kc, to - 2, 0, 128);
            lemma_count_update(b3, kc, to + 1, b[to - 2], 128);
        },
        MoveFlag::PR_KNIGHT => {
            lemma_codec_roundtrip(mc, Peice::KNIGHT);
            lemma_count_update(b2, kc, to, encode(mc, Peice::KNIGHT), 128);
        },
        MoveFlag::PR_BISHOP => {
            lemma_codec_roundtrip(mc, Peice::BISHOP);
            lemma_count_update(b2, kc, to, encode(mc, Peice::BISHOP), 128);
        },
        MoveFlag::PR_ROOK => {
            lemma_codec_roundtrip(mc, Peice::ROOK);
            lemma_count_update(b2, kc, to, encode(mc, Peice::ROOK), 128);
        },
        MoveFlag::PR_QUEEN => {
            lemma_codec_roundtrip(mc, Peice::QUEEN);
            lemma_count_update(b2, kc, to, encode(mc, Peice::QUEEN), 128);
        },
        _ => {},
    }
}

/// A valid piece byte is nonzero and decodes to its own color and kind.
pub proof fn lemma_valid_byte_decode(b: u8)
    requires
        valid_piece_byte(b),
    ensures
        b != 0,
        decode(b) == Some((decoded_color(b), decoded_kind(b))),
        decoded_kind(b) != Peice::EMPTY,
        encode(decoded_color(b), decoded_kind(b)) == b,
{
    let (c, p) = choose|c: Color, p: Peice| p != Peice::EMPTY && b == #[trigger] encode(c, p);
    lemma_codec_roundtrip(c, p);
}

/// Applying a move and then undoing its record restores the board and the
/// game state exactly: the apply/undo identity.
pub proof fn lemma_apply_undo_identity(b: Seq<u8>, info: Information, m: MoveInfo)
    requires
        wf_board(b),
        wf_info(info),
        move_wf(b, info, m),
    ensures
        undo_board(apply_board(b, m), record_of(b, info, m)) == b,
        record_of(b, info, m).info == info,
{
    let mover = b[m.frm as int];
    lemma_valid_byte_decode(mover);
    let mc = decoded_color(mover);
    let a = apply_board(b, m);
    let u = record_of(b, info, m);
    match m.flag {
        MoveFlag::PR_KNIGHT => {
            lemma_codec_roundtrip(mc, Peice::KNIGHT);
            assert(encode(mc, Peice::PAWN) == mover);
            assert(undo_board(a, u) =~= b);
        },
        MoveFlag::PR_BISHOP => {
            lemma_codec_roundtrip(mc, Peice::BISHOP);
            assert(encode(mc, Peice::PAWN) == mover);
            assert(undo_board(a, u) =~= b);
        },
        MoveFlag::PR_ROOK => {
            lemma_codec_roundtrip(mc, Peice::ROOK);
            assert(encode(mc, Peice::PAWN) == mover);
            assert(undo_board(a, u) =~= b);
        },
        MoveFlag::PR_QUEEN => {
            lemma_codec_roundtrip(mc, Peice::QUEEN);
            assert(encode(mc, Peice::PAWN) == mover);
            assert(undo_board(a, u) =~= b);
        },
        _ => {
            assert(undo_board(a, u) =~= b);
        },
    }
}

/// En-passant correctness: an en-passant capture empties the square directly
/// behind the landing square, where the enemy pawn that had just double
/// pushed stood, and not the landing square itself, which receives the
/// capturing pawn.
pub proof fn lemma_en_passant_removes_passed_pawn(b: Seq<u8>, info: Information, m: MoveInfo)
    requires
        wf_board(b),
        wf_info(info),
        move_wf(b, info, m),
        m.flag == MoveFlag::EN_PASSANT,
    ensures
        piece_is(b[ep_captured_sq(m.to, decoded_color(b[m.frm as int])) as int],
            opponent(decoded_color(b[m.frm as int])), Peice::PAWN),
        apply_board(b, m)[ep_captured_sq(m.to, decoded_color(b[m.frm as int])) as int] == 0,
        apply_board(b, m)[m.to as int] == b[m.frm as int],
        apply_board(b, m)[m.frm as int] == 0,
{
    lemma_valid_byte_decode(b[m.frm as int]);
}

impl Position {
    /// Applies a move to the position in place and pushes the record that
    /// will undo it.
    #[verifier::rlimit(100)]
    pub fn make_move(&mut self, m: MoveInfo)
        requires
            old(self).wf(),
            move_wf(old(self).board@, old(self).information, m),
        ensures
            final(self).wf(),
            final(self).board@ == apply_board(old(self).board@, m),
            final(self).information == apply_info(
                old(self).information,
                m,
                old(self).board@[m.frm as int],
            ),
            final(self).undo_stack@ == old(self).undo_stack@.push(
                record_of(old(self).board@, old(self).information, m),
            ),
    {
        let frm: usize = m.frm as usize;
        let to: usize = m.to as usize;
        let mover: u8 = self.board[frm];
        proof {
            lemma_valid_byte_decode(mover);
            lemma_bit_facts(mover);
        }
        let mc: Color = if mover & 32 != 0 {
            Color::WHITE
        } else {
            Color::BLACK
        };
        let is_en_passant: bool = match m.flag {
            MoveFlag::EN_PASSANT => true,
            _ => false,
        };
        let capture_sq: usize = if is_en_passant {
            if mover & 32 != 0 {
                (m.to - 16) as usize
            } else {
                (m.to + 16) as usize
            }
        } else {
            to
        };
        let captured: u8 = self.board[capture_sq];
        self.undo_stack.push(
            UndoInfo { to: m.to, frm: m.frm, flag: m.flag, captured, info: self.information },
        );

        self.board[frm] = 0;
        self.board[to] = mover;
        match m.flag {
            MoveFlag::EN_PASSANT => {
                self.board[capture_sq] = 0;
            },
            MoveFlag::OO => {
                let rook: u8 = self.board[to + 1];
                self.board[to + 1] = 0;
                self.board[to - 1] = rook;
            },
            MoveFlag::OOO => {
                let rook: u8 = self.board[to - 2];
                self.board[to - 2] = 0;
                self.board[to + 1] = rook;
            },
            MoveFlag::PR_KNIGHT => {
                self.board[to] = crate::peices::convert_color_and_type_to_u8(mc, Peice::KNIGHT);
            },
            MoveFlag::PR_BISHOP => {
                self.board[to] = crate::peices::convert_color_and_type_to_u8(mc, Peice::BISHOP);
            },
            MoveFlag::PR_ROOK => {
                self.board[to] = crate::peices::convert_color_and_type_to_u8(mc, Peice::ROOK);
            },
            MoveFlag::PR_QUEEN => {
                self.board[to] = crate::peices::convert_color_and_type_to_u8(mc, Peice::QUEEN);
            },
            _ => {},
        }

        let is_pawn: bool = mover & 30 == 0;
        proof {
            assert((mover & 30 == 0) == (decoded_kind(mover) == Peice::PAWN)) by {
                lemma_bit_facts(mover);
                assert((mover & 30 == 0) == (mover & 16 == 0 && mover & 8 == 0 && mover & 4 == 0
                    && mover & 2 == 0)) by (bit_vector);
            };
        }
        let is_capture: bool = match m.flag {
            MoveFlag::CAPTURE | MoveFlag::EN_PASSANT => true,
            _ => false,
        };
        let cr: CastlingRights = self.information.castling_rights;
        self.information.castling_rights = CastlingRights {
            white_kingside: cr.white_kingside && m.frm != 0x04 && m.frm != 0x07 && m.to != 0x07,
            white_queenside: cr.white_queenside && m.frm != 0x04 && m.frm != 0x00 && m.to
                != 0x00,
            black_kingside: cr.black_kingside && m.frm != 0x74 && m.frm != 0x77 && m.to != 0x77,
            black_queenside: cr.black_queenside && m.frm != 0x74 && m.frm != 0x70 && m.to
                != 0x70,
        };
        let is_double_push: bool = match m.flag {
            MoveFlag::DOUBLE_PUSH => true,
            _ => false,
        };
        self.information.enpassant_square = if is_double_push {
            Option::Some((m.frm + m.to) / 2)
        } else {
            Option::None
        };
        self.information.half_move_clock = if is_pawn || is_capture {
            0
        } else if self.information.half_move_clock < 255 {
            self.information.half_move_clock + 1
        } else {
            255
        };
        let was_black: bool = match self.information.active_color {
            Color::BLACK => true,
            Color::WHITE => false,
        };
        if was_black {
            if self.information.full_move_clock < usize::MAX {
                self.information.full_move_clock = self.information.full_move_clock + 1;
            }
        }
        self.information.active_color = match self.information.active_color {
            Color::WHITE => Color::BLACK,
            Color::BLACK => Color::WHITE,
        };
    }

    /// Undoes the most recently applied move that is still pending, restoring
    /// the position exactly as it stood before that application; fails with
    /// `IllegalUndo` when no application is pending.
    pub fn undo_move(&mut self) -> (r: Result<(), EngineError>)
        requires
            old(self).wf(),
        ensures
            final(self).wf(),
            old(self).undo_stack@.len() == 0 ==> {
                &&& r == Result::<(), EngineError>::Err(EngineError::IllegalUndo)
                &&& final(self).board@ == old(self).board@
                &&& final(self).information == old(self).information
                &&& final(self).undo_stack@ == old(self).undo_stack@
            },
            old(self).undo_stack@.len() > 0 ==> {
                &&& r == Result::<(), EngineError>::Ok(())
                &&& final(self).board@ == undo_board(old(self).board@, old(self).undo_stack@.last())
                &&& final(self).information == old(self).undo_stack@.last().info
                &&& final(self).undo_stack@ == old(self).undo_stack@.drop_last()
            },
    {
        let popped: Option<UndoInfo> = self.undo_stack.pop();
        let u: UndoInfo = match popped {
            Option::Some(u) => u,
            Option::None => {
                return Result::Err(EngineError::IllegalUndo);
            },
        };
        proof {
            assert(wf_undo(u));
        }
        let frm: usize = u.frm as usize;
        let to: usize = u.to as usize;
        let moved: u8 = self.board[to];
        proof {
            lemma_bit_facts(moved);
            if moved != 0 && valid_piece_byte(moved) {
                lemma_valid_byte_decode(moved);
            }
        }
        let mc: Color = if moved & 32 != 0 {
            Color::WHITE
        } else {
            Color::BLACK
        };
        match u.flag {
            MoveFlag::QUIET | MoveFlag::DOUBLE_PUSH => {
                self.board[to] = 0;
                self.board[frm] = moved;
            },
            MoveFlag::CAPTURE => {
                self.board[to] = u.captured;
                self.board[frm] = moved;
            },
            MoveFlag::EN_PASSANT => {
                let capture_sq: usize = if moved & 32 != 0 {
                    (u.to - 16) as usize
                } else {
                    (u.to + 16) as usize
                };
                self.board[to] = 0;
                self.board[frm] = moved;
                self.board[capture_sq] = u.captured;
            },
            MoveFlag::OO => {
                let rook: u8 = self.board[to - 1];
                self.board[to] = 0;
                self.board[to - 1] = 0;
                self.board[frm] = moved;
                self.board[to + 1] = rook;
            },
            MoveFlag::OOO => {
                let rook: u8 = self.board[to + 1];
                self.board[to] = 0;
                self.board[to + 1] = 0;
                self.board[frm] = moved;
                self.board[to - 2] = rook;
            },
            MoveFlag::PR_KNIGHT | MoveFlag::PR_BISHOP | MoveFlag::PR_ROOK
                | MoveFlag::PR_QUEEN => {
                self.board[to] = u.captured;
                self.board[frm] = crate::peices::convert_color_and_type_to_u8(mc, Peice::PAWN);
            },
        }
        self.information = u.info;
        Result::Ok(())
    }
}

} // verus!
