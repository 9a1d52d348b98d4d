//! Legal-move generation: pseudo-legal moves per piece, an attack predicate
//! computed by walking rays and leaper offsets from the target square, a
//! king-safety filter built on the apply/undo engine, and the perft driver.

use vstd::prelude::*;
use crate::helpers::{valid_sq, file_of, rank_of};
use crate::peices::{
    Color, Peice, opponent, encode, decoded_color, decoded_kind, valid_piece_byte,
    lemma_codec_roundtrip, lemma_bit_facts, extract_color_and_type_from_u8,
    convert_color_and_type_to_u8,
};
use crate::move_and_undo::{
    MoveFlag, MoveInfo, piece_is, move_wf, apply_board, apply_info, ep_captured_sq,
    lemma_apply_undo_identity, lemma_valid_byte_decode,
};
use crate::position::{Position, Information, CastlingRights, wf_board, wf_info};

verus! {

/// One step from a square by a file and rank offset, `None` when it leaves
/// the board.
pub open spec fn step_sq(sq: u8, df: int, dr: int) -> Option<u8> {
    let f = file_of(sq) + df;
    let r = rank_of(sq) + dr;
    if 0 <= f < 8 && 0 <= r < 8 {
        Some((16 * r + f) as u8)
    } else {
        None
    }
}

/// The first occupied square reached by walking at most `fuel` steps from
/// `sq` in one direction, `None` when the ray leaves the board empty.
pub open spec fn ray_first(b: Seq<u8>, sq: u8, df: int, dr: int, fuel: nat) -> Option<u8>
    decreases fuel,
{
    if fuel == 0 {
        None
    } else {
        match step_sq(sq, df, dr) {
            Option::None => None,
            Option::Some(t) => if b[t as int] != 0 {
                Some(t)
            } else {
                ray_first(b, t, df, dr, (fuel - 1) as nat)
            },
        }
    }
}

/// True when the first piece along the ray from `sq` is one of the two given
/// kinds in color `c`: how a sliding piece attacks a square.
pub open spec fn ray_hits(b: Seq<u8>, sq: u8, df: int, dr: int, c: Color, p1: Peice, p2: Peice)
    -> bool {
    match ray_first(b, sq, df, dr, 8) {
        Option::Some(t) => piece_is(b[t as int], c, p1) || piece_is(b[t as int], c, p2),
        Option::None => false,
    }
}

/// True when one step from `sq` lands on exactly this colored piece: how a
/// leaper or a pawn attacks a square.
pub open spec fn step_is(b: Seq<u8>, sq: u8, df: int, dr: int, c: Color, p: Peice) -> bool {
    match step_sq(sq, df, dr) {
        Option::Some(t) => piece_is(b[t as int], c, p),
        Option::None => false,
    }
}

/// Square `sq` is attacked by color `c`: the first piece along one of the
/// four diagonal rays is a bishop or queen of `c`, or along one of the four
/// orthogonal rays a rook or queen of `c`, or a knight, king, or pawn of `c`
/// stands one of its own moves away from `sq`.
#[verifier::opaque]
pub open spec fn attacked(b: Seq<u8>, sq: u8, c: Color) -> bool {
    let pr: int = if c == Color::WHITE {
        -1
    } else {
        1
    };
    ||| ray_hits(b, sq, 1, 1, c, Peice::BISHOP, Peice::QUEEN)
    ||| ray_hits(b, sq, 1, -1, c, Peice::BISHOP, Peice::QUEEN)
    ||| ray_hits(b, sq, -1, 1, c, Peice::BISHOP, Peice::QUEEN)
    ||| ray_hits(b, sq, -1, -1, c, Peice::BISHOP, Peice::QUEEN)
    ||| ray_hits(b, sq, 1, 0, c, Peice::ROOK, Peice::QUEEN)
    ||| ray_hits(b, sq, -1, 0, c, Peice::ROOK, Peice::QUEEN)
    ||| ray_hits(b, sq, 0, 1, c, Peice::ROOK, Peice::QUEEN)
    ||| ray_hits(b, sq, 0, -1, c, Peice::ROOK, Peice::QUEEN)
    ||| step_is(b, sq, 1, 2, c, Peice::KNIGHT)
    ||| step_is(b, sq, 2, 1, c, Peice::KNIGHT)
    ||| step_is(b, sq, 2, -1, c, Peice::KNIGHT)
    ||| step_is(b, sq, 1, -2, c, Peice::KNIGHT)
    ||| step_is(b, sq, -1, -2, c, Peice::KNIGHT)
    ||| step_is(b, sq, -2, -1, c, Peice::KNIGHT)
    ||| step_is(b, sq, -2, 1, c, Peice::KNIGHT)
    ||| step_is(b, sq, -1, 2, c, Peice::KNIGHT)
    ||| step_is(b, sq, 1, 1, c, Peice::KING)
    ||| step_is(b, sq, 1, 0, c, Peice::KING)
    ||| step_is(b, sq, 1, -1, c, Peice::KING)
    ||| step_is(b, sq, 0, 1, c, Peice::KING)
    ||| step_is(b, sq, 0, -1, c, Peice::KING)
    ||| step_is(b, sq, -1, 1, c, Peice::KING)
    ||| step_is(b, sq, -1, 0, c, Peice::KING)
    ||| step_is(b, sq, -1, -1, c, Peice::KING)
    ||| step_is(b, sq, 1, pr, c, Peice::PAWN)
    ||| step_is(b, sq, -1, pr, c, Peice::PAWN)
}

/// One step from a square by a small file and rank offset, `None` off board.
fn try_step(sq: u8, df: i16, dr: i16) -> (r: Option<u8>)
    requires
        valid_sq(sq),
        -2 <= df <= 2,
        -2 <= dr <= 2,
        df != 0 || dr != 0,
    ensures
        r == step_sq(sq, df as int, dr as int),
        r matches Some(t) ==> valid_sq(t) && t != sq,
{
    let t: i16 = sq as i16 + (16 * dr + df);
    if t < 0 || t > 127 {
        return Option::None;
    }
    let u: u8 = t as u8;
    proof {
        lemma_bit_facts(u);
        assert(sq == 16 * rank_of(sq) + file_of(sq));
    }
    if u & 0x88 == 0 {
        Option::Some(u)
    } else {
        Option::None
    }
}

/// The first occupied square along a ray, walking at most `fuel` steps.
fn ray_first_exec(board: &Vec<u8>, sq: u8, df: i16, dr: i16, fuel: u8) -> (r: Option<u8>)
    requires
        board@.len() == 128,
        valid_sq(sq),
        -1 <= df <= 1,
        -1 <= dr <= 1,
        df != 0 || dr != 0,
    ensures
        r == ray_first(board@, sq, df as int, dr as int, fuel as nat),
        r matches Some(t) ==> valid_sq(t) && board@[t as int] != 0,
    decreases fuel,
{
    if fuel == 0 {
        return Option::None;
    }
    match try_step(sq, df, dr) {
        Option::None => Option::None,
        Option::Some(t) => {
            if board[t as usize] != 0 {
                Option::Some(t)
            } else {
                ray_first_exec(board, t, df, dr, fuel - 1)
            }
        },
    }
}

/// Whether the first piece along a ray is one of two kinds in color `c`.
fn check_ray(board: &Vec<u8>, sq: u8, df: i16, dr: i16, c: Color, p1: Peice, p2: Peice) -> (r:
    bool)
    requires
        board@.len() == 128,
        valid_sq(sq),
        -1 <= df <= 1,
        -1 <= dr <= 1,
        df != 0 || dr != 0,
    ensures
        r == ray_hits(board@, sq, df as int, dr as int, c, p1, p2),
{
    match ray_first_exec(board, sq, df, dr, 8) {
        Option::None => false,
        Option::Some(t) => {
            match extract_color_and_type_from_u8(board[t as usize]) {
                Option::None => false,
                Option::Some((cc, pp)) => cc == c && (pp == p1 || pp == p2),
            }
        },
    }
}

/// Whether one step from `sq` lands on exactly this colored piece.
fn check_step(board: &Vec<u8>, sq: u8, df: i16, dr: i16, c: Color, p: Peice) -> (r: bool)
    requires
        board@.len() == 128,
        valid_sq(sq),
        -2 <= df <= 2,
        -2 <= dr <= 2,
        df != 0 || dr != 0,
    ensures
        r == step_is(board@, sq, df as int, dr as int, c, p),
{
    match try_step(sq, df, dr) {
        Option::None => false,
        Option::Some(t) => {
            match extract_color_and_type_from_u8(board[t as usize]) {
                Option::None => false,
                Option::Some((cc, pp)) => cc == c && pp == p,
            }
        },
    }
}

/// Computes whether square `sq` is attacked by color `c`.
pub fn is_attacked(board: &Vec<u8>, sq: u8, c: Color) -> (r: bool)
    requires
        board@.len() == 128,
        valid_sq(sq),
    ensures
        r == attacked(board@, sq, c),
{
    proof {
        reveal(attacked);
    }
    let pr: i16 = match c {
        Color::WHITE => -1,
        Color::BLACK => 1,
    };
    if check_ray(board, sq, 1, 1, c, Peice::BISHOP, Peice::QUEEN) {
        return true;
    }
    if check_ray(board, sq, 1, -1, c, Peice::BISHOP, Peice::QUEEN) {
        return true;
    }
    if check_ray(board, sq, -1, 1, c, Peice::BISHOP, Peice::QUEEN) {
        return true;
    }
    if check_ray(board, sq, -1, -1, c, Peice::BISHOP, Peice::QUEEN) {
        return true;
    }
    if check_ray(board, sq, 1, 0, c, Peice::ROOK, Peice::QUEEN) {
        return true;
    }
    if check_ray(board, sq, -1, 0, c, Peice::ROOK, Peice::QUEEN) {
        return true;
    }
    if check_ray(board, sq, 0, 1, c, Peice::ROOK, Peice::QUEEN) {
        return true;
    }
    if check_ray(board, sq, 0, -1, c, Peice::ROOK, Peice::QUEEN) {
        return true;
    }
    if check_step(board, sq, 1, 2, c, Peice::KNIGHT) {
        return true;
    }
    if check_step(board, sq, 2, 1, c, Peice::KNIGHT) {
        return true;
    }
    if check_step(board, sq, 2, -1, c, Peice::KNIGHT) {
        return true;
    }
    if check_step(board, sq, 1, -2, c, Peice::KNIGHT) {
        return true;
    }
    if check_step(board, sq, -1, -2, c, Peice::KNIGHT) {
        return true;
    }
    if check_step(board, sq, -2, -1, c, Peice::KNIGHT) {
        return true;
    }
    if check_step(board, sq, -2, 1, c, Peice::KNIGHT) {
        return true;
    }
    if check_step(board, sq, -1, 2, c, Peice::KNIGHT) {
        return true;
    }
    if check_step(board, sq, 1, 1, c, Peice::KING) {
        return true;
    }
    if check_step(board, sq, 1, 0, c, Peice::KING) {
        return true;
    }
    if check_step(board, sq, 1, -1, c, Peice::KING) {
        return true;
    }
    if check_step(board, sq, 0, 1, c, Peice::KING) {
        return true;
    }
    if check_step(board, sq, 0, -1, c, Peice::KING) {
        return true;
    }
    if check_step(board, sq, -1, 1, c, Peice::KING) {
        return true;
    }
    if check_step(board, sq, -1, 0, c, Peice::KING) {
        return true;
    }
    if check_step(board, sq, -1, -1, c, Peice::KING) {
        return true;
    }
    if check_step(board, sq, 1, pr, c, Peice::PAWN) {
        return true;
    }
    if check_step(board, sq, -1, pr, c, Peice::PAWN) {
        return true;
    }
    false
}

/// All kings of color `c` on the board stand unattacked by the opponent.
pub open spec fn kings_safe_spec(b: Seq<u8>, c: Color) -> bool {
    forall|k: u8|
        k < 128 && valid_sq(k) && piece_is(#[trigger] b[k as int], c, Peice::KING) ==> !attacked(
            b,
            k,
            opponent(c),
        )
}

/// Scans the board and reports whether every king of color `c` is safe.
fn kings_safe(board: &Vec<u8>, c: Color) -> (r: bool)
    requires
        wf_board(board@),
    ensures
        r == kings_safe_spec(board@, c),
{
    let king_byte: u8 = convert_color_and_type_to_u8(c, Peice::KING);
    proof {
        lemma_codec_roundtrip(c, Peice::KING);
    }
    let mut k: usize = 0;
    while k < 128
        invariant
            k <= 128,
            wf_board(board@),
            king_byte == encode(c, Peice::KING),
            forall|j: u8|
                j < k && valid_sq(j) && piece_is(#[trigger] board@[j as int], c, Peice::KING)
                    ==> !attacked(board@, j, opponent(c)),
        decreases 128 - k,
    {
        if board[k] == king_byte {
            proof {
                lemma_codec_roundtrip(c, Peice::KING);
            }
            if crate::helpers::is_onboard(k as u8) {
                if is_attacked(board, k as u8, c.oponent_color()) {
                    return false;
                }
            }
        } else {
            proof {
                if valid_sq(k as u8) && piece_is(board@[k as int], c, Peice::KING) {
                    lemma_valid_byte_decode(board@[k as int]);
                    lemma_codec_roundtrip(c, Peice::KING);
                }
            }
        }
        k = k + 1;
    }
    true
}


/// The forward rank direction of a color's pawns.
pub open spec fn pawn_dir(c: Color) -> int {
    if c == Color::WHITE {
        1
    } else {
        -1
    }
}

/// The rank a color's pawns promote on.
pub open spec fn promo_rank(c: Color) -> u8 {
    if c == Color::WHITE {
        7
    } else {
        0
    }
}

/// The rank a color's pawns double-push from.
pub open spec fn pawn_start_rank(c: Color) -> u8 {
    if c == Color::WHITE {
        1
    } else {
        6
    }
}

/// The rank a color's pawn stands on when it can capture en passant.
pub open spec fn ep_from_rank(c: Color) -> u8 {
    if c == Color::WHITE {
        4
    } else {
        3
    }
}

/// The castling right of a color on one side of the board.
pub open spec fn has_right(cr: CastlingRights, c: Color, kingside: bool) -> bool {
    if c == Color::WHITE {
        if kingside {
            cr.white_kingside
        } else {
            cr.white_queenside
        }
    } else {
        if kingside {
            cr.black_kingside
        } else {
            cr.black_queenside
        }
    }
}

/// The king's home square of a color.
pub open spec fn king_home(c: Color) -> u8 {
    if c == Color::WHITE {
        0x04
    } else {
        0x74
    }
}

/// A castling move in the generator's output satisfies the castling
/// preconditions on the current board: the right remains, and the king
/// neither starts from nor crosses an attacked square (the landing square is
/// covered by the king-safety filter as well).
pub open spec fn castle_ok(b: Seq<u8>, info: Information, c: Color, m: MoveInfo) -> bool {
    &&& m.flag == MoveFlag::OO ==> {
        &&& has_right(info.castling_rights, c, true)
        &&& !attacked(b, m.frm, opponent(c))
        &&& !attacked(b, (m.frm + 1) as u8, opponent(c))
        &&& !attacked(b, (m.frm + 2) as u8, opponent(c))
    }
    &&& m.flag == MoveFlag::OOO ==> {
        &&& has_right(info.castling_rights, c, false)
        &&& !attacked(b, m.frm, opponent(c))
        &&& !attacked(b, (m.frm - 1) as u8, opponent(c))
        &&& !attacked(b, (m.frm - 2) as u8, opponent(c))
    }
}

/// A pawn in the generator's output promotes exactly on its last rank: a
/// plain pawn move never lands there.
pub open spec fn pawn_flag_ok(b: Seq<u8>, c: Color, m: MoveInfo) -> bool {
    decoded_kind(b[m.frm as int]) == Peice::PAWN && (m.flag == MoveFlag::QUIET || m.flag
        == MoveFlag::DOUBLE_PUSH || m.flag == MoveFlag::CAPTURE || m.flag
        == MoveFlag::EN_PASSANT) ==> rank_of(m.to) != promo_rank(c)
}

/// A generated move is sound: it is applicable on this board (so reversible
/// and on-board), it moves a piece of the generating color, a castling move
/// meets the castling preconditions, and a pawn promotes exactly on its last
/// rank.
pub open spec fn gen_ok(b: Seq<u8>, info: Information, c: Color, m: MoveInfo) -> bool {
    &&& move_wf(b, info, m)
    &&& decoded_color(b[m.frm as int]) == c
    &&& castle_ok(b, info, c, m)
    &&& pawn_flag_ok(b, c, m)
}

/// An emitter only appends, and everything it appends is sound.
pub open spec fn emits_ok(
    b: Seq<u8>,
    info: Information,
    c: Color,
    pre: Seq<MoveInfo>,
    post: Seq<MoveInfo>,
) -> bool {
    &&& post.len() >= pre.len()
    &&& forall|i: int| 0 <= i < pre.len() ==> post[i] == pre[i]
    &&& forall|i: int| pre.len() <= i < post.len() ==> gen_ok(b, info, c, #[trigger] post[i])
}

/// What every per-piece emitter assumes of the square it generates from.
pub open spec fn emitter_pre(b: Seq<u8>, c: Color, sq: u8) -> bool {
    &&& b.len() == 128
    &&& valid_sq(sq)
    &&& b[sq as int] != 0
    &&& valid_piece_byte(b[sq as int])
    &&& decoded_color(b[sq as int]) == c
}

/// The moves one leaper step contributes: a quiet move onto an empty square,
/// a capture onto an enemy piece, nothing otherwise.
pub open spec fn step_move_seq(b: Seq<u8>, c: Color, frm: u8, df: int, dr: int) -> Seq<MoveInfo> {
    match step_sq(frm, df, dr) {
        Option::None => Seq::empty(),
        Option::Some(t) => {
            if b[t as int] == 0 {
                seq![MoveInfo { to: t, frm, flag: MoveFlag::QUIET }]
            } else if decoded_color(b[t as int]) == opponent(c) {
                seq![MoveInfo { to: t, frm, flag: MoveFlag::CAPTURE }]
            } else {
                Seq::empty()
            }
        },
    }
}

/// The moves one sliding ray contributes: quiet moves over the empty squares
/// and a capture on the first enemy piece.
pub open spec fn slide_seq(
    b: Seq<u8>,
    c: Color,
    org: u8,
    sq: u8,
    df: int,
    dr: int,
    fuel: nat,
) -> Seq<MoveInfo>
    decreases fuel,
{
    if fuel == 0 {
        Seq::empty()
    } else {
        match step_sq(sq, df, dr) {
            Option::None => Seq::empty(),
            Option::Some(t) => {
                if b[t as int] == 0 {
                    seq![MoveInfo { to: t, frm: org, flag: MoveFlag::QUIET }] + slide_seq(
                        b,
                        c,
                        org,
                        t,
                        df,
                        dr,
                        (fuel - 1) as nat,
                    )
                } else if decoded_color(b[t as int]) == opponent(c) {
                    seq![MoveInfo { to: t, frm: org, flag: MoveFlag::CAPTURE }]
                } else {
                    Seq::empty()
                }
            },
        }
    }
}

/// The four promotion variants of a pawn arriving on its last rank.
pub open spec fn promo_seq(frm: u8, to: u8) -> Seq<MoveInfo> {
    seq![
        MoveInfo { to, frm, flag: MoveFlag::PR_KNIGHT },
        MoveInfo { to, frm, flag: MoveFlag::PR_BISHOP },
        MoveInfo { to, frm, flag: MoveFlag::PR_ROOK },
        MoveInfo { to, frm, flag: MoveFlag::PR_QUEEN },
    ]
}

/// The moves a pawn capture toward one file side contributes: promotions or
/// a plain capture onto an enemy piece, or the en-passant capture onto the
/// current target.
pub open spec fn pawn_capture_seq(
    b: Seq<u8>,
    info: Information,
    c: Color,
    sq: u8,
    df: int,
) -> Seq<MoveInfo> {
    match step_sq(sq, df, pawn_dir(c)) {
        Option::None => Seq::empty(),
        Option::Some(t) => {
            if b[t as int] != 0 {
                if decoded_color(b[t as int]) == opponent(c) {
                    if rank_of(t) == promo_rank(c) {
                        promo_seq(sq, t)
                    } else {
                        seq![MoveInfo { to: t, frm: sq, flag: MoveFlag::CAPTURE }]
                    }
                } else {
                    Seq::empty()
                }
            } else {
                if info.enpassant_square == Some(t) && rank_of(sq) == ep_from_rank(c) && b[
                    ep_captured_sq(t, c) as int] == encode(opponent(c), Peice::PAWN) {
                    seq![MoveInfo { to: t, frm: sq, flag: MoveFlag::EN_PASSANT }]
                } else {
                    Seq::empty()
                }
            }
        },
    }
}

/// All moves of the pawn on `sq`: the single push (expanding into the four
/// promotions on the last rank), the double push from the starting rank, and
/// the two diagonal captures.
pub open spec fn pawn_seq(b: Seq<u8>, info: Information, c: Color, sq: u8) -> Seq<MoveInfo> {
    let push = match step_sq(sq, 0, pawn_dir(c)) {
        Option::None => Seq::empty(),
        Option::Some(t) => {
            if b[t as int] == 0 {
                if rank_of(t) == promo_rank(c) {
                    promo_seq(sq, t)
                } else {
                    seq![MoveInfo { to: t, frm: sq, flag: MoveFlag::QUIET }] + (if rank_of(sq)
                        == pawn_start_rank(c) {
                        match step_sq(t, 0, pawn_dir(c)) {
                            Option::None => Seq::empty(),
                            Option::Some(t2) => if b[t2 as int] == 0 {
                                seq![MoveInfo { to: t2, frm: sq, flag: MoveFlag::DOUBLE_PUSH }]
                            } else {
                                Seq::empty()
                            },
                        }
                    } else {
                        Seq::empty()
                    })
                }
            } else {
                Seq::empty()
            }
        },
    };
    push + pawn_capture_seq(b, info, c, sq, 1) + pawn_capture_seq(b, info, c, sq, -1)
}

/// The kingside castling move, when the right remains, the two squares
/// toward the rook are empty, the rook stands on its corner, and the king
/// neither is in check nor crosses or enters an attacked square.
pub open spec fn castle_kingside_seq(
    b: Seq<u8>,
    info: Information,
    c: Color,
    home: u8,
) -> Seq<MoveInfo> {
    if has_right(info.castling_rights, c, true) && b[home as int + 1] == 0 && b[home as int + 2]
        == 0 && b[home as int + 3] == encode(c, Peice::ROOK) && !attacked(b, home, opponent(c))
        && !attacked(b, (home + 1) as u8, opponent(c)) && !attacked(
        b,
        (home + 2) as u8,
        opponent(c),
    ) {
        seq![MoveInfo { to: (home + 2) as u8, frm: home, flag: MoveFlag::OO }]
    } else {
        Seq::empty()
    }
}

/// The queenside castling move, under the mirror conditions with the extra
/// empty square beside the rook.
pub open spec fn castle_queenside_seq(
    b: Seq<u8>,
    info: Information,
    c: Color,
    home: u8,
) -> Seq<MoveInfo> {
    if has_right(info.castling_rights, c, false) && b[home as int - 1] == 0 && b[home as int - 2]
        == 0 && b[home as int - 3] == 0 && b[home as int - 4] == encode(c, Peice::ROOK)
        && !attacked(b, home, opponent(c)) && !attacked(b, (home - 1) as u8, opponent(c))
        && !attacked(b, (home - 2) as u8, opponent(c)) {
        seq![MoveInfo { to: (home - 2) as u8, frm: home, flag: MoveFlag::OOO }]
    } else {
        Seq::empty()
    }
}

/// Both castling moves of the king, when it stands on its home square.
pub open spec fn castle_seq(b: Seq<u8>, info: Information, c: Color, sq: u8) -> Seq<MoveInfo> {
    if sq == king_home(c) {
        castle_kingside_seq(b, info, c, sq) + castle_queenside_seq(b, info, c, sq)
    } else {
        Seq::empty()
    }
}

/// The eight knight jumps from a square.
pub open spec fn knight_seq(b: Seq<u8>, c: Color, sq: u8) -> Seq<MoveInfo> {
    step_move_seq(b, c, sq, 1, 2) + step_move_seq(b, c, sq, 2, 1) + step_move_seq(b, c, sq, 2, -1)
        + step_move_seq(b, c, sq, 1, -2) + step_move_seq(b, c, sq, -1, -2) + step_move_seq(
        b,
        c,
        sq,
        -2,
        -1,
    ) + step_move_seq(b, c, sq, -2, 1) + step_move_seq(b, c, sq, -1, 2)
}

/// The four diagonal rays of a bishop.
pub open spec fn bishop_seq(b: Seq<u8>, c: Color, sq: u8) -> Seq<MoveInfo> {
    slide_seq(b, c, sq, sq, 1, 1, 8) + slide_seq(b, c, sq, sq, 1, -1, 8) + slide_seq(
        b,
        c,
        sq,
        sq,
        -1,
        1,
        8,
    ) + slide_seq(b, c, sq, sq, -1, -1, 8)
}

/// The four orthogonal rays of a rook.
pub open spec fn rook_seq(b: Seq<u8>, c: Color, sq: u8) -> Seq<MoveInfo> {
    slide_seq(b, c, sq, sq, 1, 0, 8) + slide_seq(b, c, sq, sq, -1, 0, 8) + slide_seq(
        b,
        c,
        sq,
        sq,
        0,
        1,
        8,
    ) + slide_seq(b, c, sq, sq, 0, -1, 8)
}

/// The queen's eight rays: the bishop's, then the rook's.
pub open spec fn queen_seq(b: Seq<u8>, c: Color, sq: u8) -> Seq<MoveInfo> {
    bishop_seq(b, c, sq) + rook_seq(b, c, sq)
}

/// The king's eight steps, then its castling moves.
pub open spec fn king_seq(b: Seq<u8>, info: Information, c: Color, sq: u8) -> Seq<MoveInfo> {
    step_move_seq(b, c, sq, 1, 1) + step_move_seq(b, c, sq, 1, 0) + step_move_seq(b, c, sq, 1, -1)
        + step_move_seq(b, c, sq, 0, 1) + step_move_seq(b, c, sq, 0, -1) + step_move_seq(
        b,
        c,
        sq,
        -1,
        1,
    ) + step_move_seq(b, c, sq, -1, 0) + step_move_seq(b, c, sq, -1, -1) + castle_seq(
        b,
        info,
        c,
        sq,
    )
}

/// The moves the piece on one square contributes to the pseudo-legal list.
pub open spec fn square_seq(b: Seq<u8>, info: Information, c: Color, k: int) -> Seq<MoveInfo> {
    if 0 <= k < 128 && valid_sq(k as u8) && b[k] != 0 && decoded_color(b[k]) == c {
        match decoded_kind(b[k]) {
            Peice::PAWN => pawn_seq(b, info, c, k as u8),
            Peice::KNIGHT => knight_seq(b, c, k as u8),
            Peice::BISHOP => bishop_seq(b, c, k as u8),
            Peice::ROOK => rook_seq(b, c, k as u8),
            Peice::QUEEN => queen_seq(b, c, k as u8),
            Peice::KING => king_seq(b, info, c, k as u8),
            Peice::EMPTY => Seq::empty(),
        }
    } else {
        Seq::empty()
    }
}

/// The pseudo-legal moves contributed by the squares from `k` upward.
pub open spec fn pseudo_seq_from(b: Seq<u8>, info: Information, c: Color, k: int) -> Seq<MoveInfo>
    decreases 128 - k,
{
    if k >= 128 {
        Seq::empty()
    } else {
        square_seq(b, info, c, k) + pseudo_seq_from(b, info, c, k + 1)
    }
}

/// Every pseudo-legal move of a color, squares in index order: the exact
/// sequence the generator produces.
pub open spec fn spec_pseudo_moves(b: Seq<u8>, info: Information, c: Color) -> Seq<MoveInfo> {
    pseudo_seq_from(b, info, c, 0)
}

/// The king-safety filter at spec level: keeps, in order, exactly the moves
/// whose application leaves every king of the mover unattacked.
pub open spec fn safe_filter(b: Seq<u8>, c: Color, ms: Seq<MoveInfo>) -> Seq<MoveInfo>
    decreases ms.len(),
{
    if ms.len() == 0 {
        Seq::empty()
    } else {
        safe_filter(b, c, ms.drop_last()) + (if king_safe_after(b, ms.last(), c) {
            seq![ms.last()]
        } else {
            Seq::empty()
        })
    }
}

/// The legal moves of a color: the pseudo-legal moves in square order, kept
/// exactly when the mover's kings stay safe after the move.
pub open spec fn spec_legal_moves(b: Seq<u8>, info: Information, c: Color) -> Seq<MoveInfo> {
    safe_filter(b, c, spec_pseudo_moves(b, info, c))
}

/// Emits the quiet move or capture one leaper step away, if the step stays
/// on the board and does not land on a friendly piece.
fn push_step_move(
    moves: &mut Vec<MoveInfo>,
    board: &Vec<u8>,
    info: Information,
    c: Color,
    frm: u8,
    df: i16,
    dr: i16,
)
    requires
        emitter_pre(board@, c, frm),
        wf_info(info),
        decoded_kind(board@[frm as int]) != Peice::PAWN,
        -2 <= df <= 2,
        -2 <= dr <= 2,
        df != 0 || dr != 0,
    ensures
        emits_ok(board@, info, c, old(moves)@, final(moves)@),
        final(moves)@ == old(moves)@ + step_move_seq(board@, c, frm, df as int, dr as int),
{
    match try_step(frm, df, dr) {
        Option::None => {},
        Option::Some(t) => {
            let byte: u8 = board[t as usize];
            if byte == 0 {
                moves.push(MoveInfo { to: t, frm, flag: MoveFlag::QUIET });
            } else {
                match extract_color_and_type_from_u8(byte) {
                    Option::Some((cc, _pp)) => {
                        if cc == c.oponent_color() {
                            moves.push(MoveInfo { to: t, frm, flag: MoveFlag::CAPTURE });
                        }
                    },
                    Option::None => {},
                }
            }
        },
    }
    proof {
        assert(moves@ =~= old(moves)@ + step_move_seq(board@, c, frm, df as int, dr as int));
    }
}

/// Walks one ray for a sliding piece standing on `org`, emitting a quiet
/// move for every empty square and a capture on the first enemy piece.
#[verifier::rlimit(100)]
#[verifier::spinoff_prover]
fn slide_from(
    moves: &mut Vec<MoveInfo>,
    board: &Vec<u8>,
    info: Information,
    c: Color,
    org: u8,
    sq: u8,
    df: i16,
    dr: i16,
    fuel: u8,
)
    requires
        emitter_pre(board@, c, org),
        wf_info(info),
        decoded_kind(board@[org as int]) != Peice::PAWN,
        valid_sq(sq),
        -1 <= df <= 1,
        -1 <= dr <= 1,
        df != 0 || dr != 0,
        df == 1 ==> file_of(sq) >= file_of(org),
        df == -1 ==> file_of(sq) <= file_of(org),
        df == 0 && dr == 1 ==> rank_of(sq) >= rank_of(org),
        df == 0 && dr == -1 ==> rank_of(sq) <= rank_of(org),
    ensures
        emits_ok(board@, info, c, old(moves)@, final(moves)@),
        final(moves)@ == old(moves)@ + slide_seq(board@, c, org, sq, df as int, dr as int, fuel as nat),
    decreases fuel,
{
    if fuel == 0 {
        return;
    }
    match try_step(sq, df, dr) {
        Option::None => {},
        Option::Some(t) => {
            let byte: u8 = board[t as usize];
            if byte == 0 {
                moves.push(MoveInfo { to: t, frm: org, flag: MoveFlag::QUIET });
                slide_from(moves, board, info, c, org, t, df, dr, fuel - 1);
                proof {
                    assert(slide_seq(board@, c, org, sq, df as int, dr as int, fuel as nat)
                        == seq![MoveInfo { to: t, frm: org, flag: MoveFlag::QUIET }]
                        + slide_seq(board@, c, org, t, df as int, dr as int, (fuel - 1) as nat));
                }
            } else {
                match extract_color_and_type_from_u8(byte) {
                    Option::Some((cc, _pp)) => {
                        if cc == c.oponent_color() {
                            moves.push(MoveInfo { to: t, frm: org, flag: MoveFlag::CAPTURE });
                        }
                    },
                    Option::None => {},
                }
            }
        },
    }
    proof {
        assert(moves@ =~= old(moves)@ + slide_seq(board@, c, org, sq, df as int, dr as int,
        fuel as nat));
    }
}

/// Emits the four promotion variants of a pawn arriving on the last rank.
fn push_promotions(
    moves: &mut Vec<MoveInfo>,
    board: &Vec<u8>,
    info: Information,
    c: Color,
    frm: u8,
    to: u8,
    Ghost(b): Ghost<Seq<u8>>,
)
    requires
        b == board@,
        emitter_pre(b, c, frm),
        wf_info(info),
        move_wf(b, info, MoveInfo { to, frm, flag: MoveFlag::PR_KNIGHT }),
        move_wf(b, info, MoveInfo { to, frm, flag: MoveFlag::PR_BISHOP }),
        move_wf(b, info, MoveInfo { to, frm, flag: MoveFlag::PR_ROOK }),
        move_wf(b, info, MoveInfo { to, frm, flag: MoveFlag::PR_QUEEN }),
    ensures
        emits_ok(board@, info, c, old(moves)@, final(moves)@),
        final(moves)@ == old(moves)@ + promo_seq(frm, to),
{
    moves.push(MoveInfo { to, frm, flag: MoveFlag::PR_KNIGHT });
    moves.push(MoveInfo { to, frm, flag: MoveFlag::PR_BISHOP });
    moves.push(MoveInfo { to, frm, flag: MoveFlag::PR_ROOK });
    moves.push(MoveInfo { to, frm, flag: MoveFlag::PR_QUEEN });
    proof {
        assert(moves@ =~= old(moves)@ + promo_seq(frm, to));
    }
}

/// Emits a pawn capture toward one file side, including the promotion
/// variants on the last rank and the en-passant capture onto the current
/// en-passant target.
fn pawn_capture(
    moves: &mut Vec<MoveInfo>,
    board: &Vec<u8>,
    info: Information,
    c: Color,
    sq: u8,
    df: i16,
)
    requires
        emitter_pre(board@, c, sq),
        wf_info(info),
        piece_is(board@[sq as int], c, Peice::PAWN),
        df == 1 || df == -1,
    ensures
        emits_ok(board@, info, c, old(moves)@, final(moves)@),
        final(moves)@ == old(moves)@ + pawn_capture_seq(board@, info, c, sq, df as int),
{
    let white: bool = match c {
        Color::WHITE => true,
        Color::BLACK => false,
    };
    let pr: i16 = if white {
        1
    } else {
        -1
    };
    let promo_rank: u8 = if white {
        7
    } else {
        0
    };
    match try_step(sq, df, pr) {
        Option::None => {},
        Option::Some(t) => {
            let byte: u8 = board[t as usize];
            if byte != 0 {
                match extract_color_and_type_from_u8(byte) {
                    Option::Some((cc, _pp)) => {
                        if cc == c.oponent_color() {
                            if crate::helpers::sq_rank(t) == promo_rank {
                                push_promotions(moves, board, info, c, sq, t, Ghost(board@));
                            } else {
                                moves.push(MoveInfo { to: t, frm: sq, flag: MoveFlag::CAPTURE });
                            }
                        }
                    },
                    Option::None => {},
                }
            } else {
                let ep_match: bool = match info.enpassant_square {
                    Option::Some(e) => e == t,
                    Option::None => false,
                };
                let ep_rank: u8 = if white {
                    4
                } else {
                    3
                };
                if ep_match && crate::helpers::sq_rank(sq) == ep_rank {
                    let capsq: u8 = if white {
                        t - 16
                    } else {
                        t + 16
                    };
                    let enemy_pawn: u8 = convert_color_and_type_to_u8(
                        c.oponent_color(),
                        Peice::PAWN,
                    );
                    if board[capsq as usize] == enemy_pawn {
                        proof {
                            lemma_codec_roundtrip(opponent(c), Peice::PAWN);
                        }
                        moves.push(MoveInfo { to: t, frm: sq, flag: MoveFlag::EN_PASSANT });
                    }
                }
            }
        },
    }
    proof {
        assert(moves@ =~= old(moves)@ + pawn_capture_seq(board@, info, c, sq, df as int));
    }
}

/// Emits every pawn move from `sq`: the single push, the double push from
/// the starting rank, the two diagonal captures, the en-passant capture, and
/// the promotion variants on the last rank.
fn pawn_moves(moves: &mut Vec<MoveInfo>, board: &Vec<u8>, info: Information, c: Color, sq: u8)
    requires
        emitter_pre(board@, c, sq),
        wf_info(info),
        piece_is(board@[sq as int], c, Peice::PAWN),
    ensures
        emits_ok(board@, info, c, old(moves)@, final(moves)@),
        final(moves)@ == old(moves)@ + pawn_seq(board@, info, c, sq),
{
    let white: bool = match c {
        Color::WHITE => true,
        Color::BLACK => false,
    };
    let pr: i16 = if white {
        1
    } else {
        -1
    };
    let start_rank: u8 = if white {
        1
    } else {
        6
    };
    let promo_rank: u8 = if white {
        7
    } else {
        0
    };
    match try_step(sq, 0, pr) {
        Option::None => {},
        Option::Some(t) => {
            if board[t as usize] == 0 {
                if crate::helpers::sq_rank(t) == promo_rank {
                    push_promotions(moves, board, info, c, sq, t, Ghost(board@));
                } else {
                    moves.push(MoveInfo { to: t, frm: sq, flag: MoveFlag::QUIET });
                    if crate::helpers::sq_rank(sq) == start_rank {
                        match try_step(t, 0, pr) {
                            Option::None => {},
                            Option::Some(t2) => {
                                if board[t2 as usize] == 0 {
                                    moves.push(
                                        MoveInfo { to: t2, frm: sq, flag: MoveFlag::DOUBLE_PUSH },
                                    );
                                }
                            },
                        }
                    }
                }
            }
        },
    }
    pawn_capture(moves, board, info, c, sq, 1);
    pawn_capture(moves, board, info, c, sq, -1);
    proof {
        assert(moves@ =~= old(moves)@ + pawn_seq(board@, info, c, sq));
    }
}

/// Emits the kingside castling move of the king on its home square, when
/// the right remains, the two squares toward the rook are empty, the rook
/// stands on its corner, and the king neither is in check nor crosses or
/// enters an attacked square.
#[verifier::rlimit(100)]
#[verifier::spinoff_prover]
fn castle_kingside(moves: &mut Vec<MoveInfo>, board: &Vec<u8>, info: Information, c: Color, home: u8)
    requires
        emitter_pre(board@, c, home),
        wf_info(info),
        piece_is(board@[home as int], c, Peice::KING),
        home == 0x04 || home == 0x74,
        home == 0x04 <==> c == Color::WHITE,
    ensures
        emits_ok(board@, info, c, old(moves)@, final(moves)@),
        final(moves)@ == old(moves)@ + castle_kingside_seq(board@, info, c, home),
{
    let allowed: bool = match c {
        Color::WHITE => info.castling_rights.white_kingside,
        Color::BLACK => info.castling_rights.black_kingside,
    };
    if !allowed {
        return;
    }
    let rook: u8 = convert_color_and_type_to_u8(c, Peice::ROOK);
    proof {
        lemma_codec_roundtrip(c, Peice::ROOK);
    }
    if board[(home + 1) as usize] == 0 && board[(home + 2) as usize] == 0 && board[(home
        + 3) as usize] == rook {
        let opp: Color = c.oponent_color();
        if !is_attacked(board, home, opp) && !is_attacked(board, home + 1, opp) && !is_attacked(
            board,
            home + 2,
            opp,
        ) {
            let m: MoveInfo = MoveInfo { to: home + 2, frm: home, flag: MoveFlag::OO };
            proof {
                assert(move_wf(board@, info, m));
            }
            moves.push(m);
        }
    }
    proof {
        assert(moves@ =~= old(moves)@ + castle_kingside_seq(board@, info, c, home));
    }
}

/// Emits the queenside castling move, under the mirror conditions of the
/// kingside one, with the extra empty square beside the rook.
#[verifier::rlimit(100)]
#[verifier::spinoff_prover]
fn castle_queenside(moves: &mut Vec<MoveInfo>, board: &Vec<u8>, info: Information, c: Color, home: u8)
    requires
        emitter_pre(board@, c, home),
        wf_info(info),
        piece_is(board@[home as int], c, Peice::KING),
        home == 0x04 || home == 0x74,
        home == 0x04 <==> c == Color::WHITE,
    ensures
        emits_ok(board@, info, c, old(moves)@, final(moves)@),
        final(moves)@ == old(moves)@ + castle_queenside_seq(board@, info, c, home),
{
    let allowed: bool = match c {
        Color::WHITE => info.castling_rights.white_queenside,
        Color::BLACK => info.castling_rights.black_queenside,
    };
    if !allowed {
        return;
    }
    let rook: u8 = convert_color_and_type_to_u8(c, Peice::ROOK);
    proof {
        lemma_codec_roundtrip(c, Peice::ROOK);
    }
    if board[(home - 1) as usize] == 0 && board[(home - 2) as usize] == 0 && board[(home
        - 3) as usize] == 0 && board[(home - 4) as usize] == rook {
        let opp: Color = c.oponent_color();
        if !is_attacked(board, home, opp) && !is_attacked(board, home - 1, opp) && !is_attacked(
            board,
            home - 2,
            opp,
        ) {
            let m: MoveInfo = MoveInfo { to: home - 2, frm: home, flag: MoveFlag::OOO };
            proof {
                assert(move_wf(board@, info, m));
            }
            moves.push(m);
        }
    }
    proof {
        assert(moves@ =~= old(moves)@ + castle_queenside_seq(board@, info, c, home));
    }
}

/// Emits both castling moves of the king when it stands on its home square.
fn castle_moves(moves: &mut Vec<MoveInfo>, board: &Vec<u8>, info: Information, c: Color, sq: u8)
    requires
        emitter_pre(board@, c, sq),
        wf_info(info),
        piece_is(board@[sq as int], c, Peice::KING),
    ensures
        emits_ok(board@, info, c, old(moves)@, final(moves)@),
        final(moves)@ == old(moves)@ + castle_seq(board@, info, c, sq),
{
    let white: bool = match c {
        Color::WHITE => true,
        Color::BLACK => false,
    };
    let home: u8 = if white {
        0x04
    } else {
        0x74
    };
    if sq != home {
        proof {
            assert(moves@ =~= old(moves)@ + castle_seq(board@, info, c, sq));
        }
        return;
    }
    castle_kingside(moves, board, info, c, home);
    castle_queenside(moves, board, info, c, home);
    proof {
        assert(moves@ =~= old(moves)@ + castle_seq(board@, info, c, sq));
    }
}

/// Generates every pseudo-legal move of color `c`: piece-movement rules and
/// castling preconditions hold, but the mover's king may still be left
/// attacked.
#[verifier::rlimit(100)]
fn gen_pseudo(board: &Vec<u8>, info: Information, c: Color) -> (r: Vec<MoveInfo>)
    requires
        wf_board(board@),
        wf_info(info),
    ensures
        forall|i: int| 0 <= i < r@.len() ==> gen_ok(board@, info, c, #[trigger] r@[i]),
        r@ == spec_pseudo_moves(board@, info, c),
{
    let mut moves: Vec<MoveInfo> = Vec::new();
    let mut k: usize = 0;
    while k < 128
        invariant
            k <= 128,
            wf_board(board@),
            wf_info(info),
            forall|i: int| 0 <= i < moves@.len() ==> gen_ok(board@, info, c, #[trigger] moves@[i]),
            moves@ + pseudo_seq_from(board@, info, c, k as int) == spec_pseudo_moves(
                board@,
                info,
                c,
            ),
        decreases 128 - k,
    {
        let ghost before = moves@;
        emit_square(&mut moves, board, info, c, k as u8);
        proof {
            assert(pseudo_seq_from(board@, info, c, k as int) == square_seq(
                board@,
                info,
                c,
                k as int,
            ) + pseudo_seq_from(board@, info, c, k as int + 1));
            assert(moves@ + pseudo_seq_from(board@, info, c, k as int + 1) =~= before
                + pseudo_seq_from(board@, info, c, k as int));
        }
        k = k + 1;
    }
    proof {
        assert(moves@ =~= spec_pseudo_moves(board@, info, c));
    }
    moves
}

/// Rebrackets a chain of eight appended sequences around its head.
proof fn lemma_flatten8<T>(
    o: Seq<T>,
    s1: Seq<T>,
    s2: Seq<T>,
    s3: Seq<T>,
    s4: Seq<T>,
    s5: Seq<T>,
    s6: Seq<T>,
    s7: Seq<T>,
    s8: Seq<T>,
)
    ensures
        o + s1 + s2 + s3 + s4 + s5 + s6 + s7 + s8 == o + (s1 + s2 + s3 + s4 + s5 + s6 + s7
            + s8),
{
    assert(o + s1 + s2 + s3 + s4 + s5 + s6 + s7 + s8 =~= o + (s1 + s2 + s3 + s4 + s5 + s6 + s7
        + s8));
}

/// Rebrackets a chain of nine appended sequences around its head.
proof fn lemma_flatten9<T>(
    o: Seq<T>,
    s1: Seq<T>,
    s2: Seq<T>,
    s3: Seq<T>,
    s4: Seq<T>,
    s5: Seq<T>,
    s6: Seq<T>,
    s7: Seq<T>,
    s8: Seq<T>,
    s9: Seq<T>,
)
    ensures
        o + s1 + s2 + s3 + s4 + s5 + s6 + s7 + s8 + s9 == o + (s1 + s2 + s3 + s4 + s5 + s6 + s7
            + s8 + s9),
{
    assert(o + s1 + s2 + s3 + s4 + s5 + s6 + s7 + s8 + s9 =~= o + (s1 + s2 + s3 + s4 + s5 + s6
        + s7 + s8 + s9));
}

/// Emits the eight knight jumps from `sq`.
#[verifier::rlimit(100)]
#[verifier::spinoff_prover]
fn knight_moves(moves: &mut Vec<MoveInfo>, board: &Vec<u8>, info: Information, c: Color, sq: u8)
    requires
        emitter_pre(board@, c, sq),
        wf_info(info),
        decoded_kind(board@[sq as int]) == Peice::KNIGHT,
    ensures
        emits_ok(board@, info, c, old(moves)@, final(moves)@),
        final(moves)@ == old(moves)@ + knight_seq(board@, c, sq),
{
    push_step_move(moves, board, info, c, sq, 1, 2);
    push_step_move(moves, board, info, c, sq, 2, 1);
    push_step_move(moves, board, info, c, sq, 2, -1);
    push_step_move(moves, board, info, c, sq, 1, -2);
    push_step_move(moves, board, info, c, sq, -1, -2);
    push_step_move(moves, board, info, c, sq, -2, -1);
    push_step_move(moves, board, info, c, sq, -2, 1);
    push_step_move(moves, board, info, c, sq, -1, 2);
    proof {
        lemma_flatten8(
            old(moves)@,
            step_move_seq(board@, c, sq, 1, 2),
            step_move_seq(board@, c, sq, 2, 1),
            step_move_seq(board@, c, sq, 2, -1),
            step_move_seq(board@, c, sq, 1, -2),
            step_move_seq(board@, c, sq, -1, -2),
            step_move_seq(board@, c, sq, -2, -1),
            step_move_seq(board@, c, sq, -2, 1),
            step_move_seq(board@, c, sq, -1, 2),
        );
        assert(moves@ == old(moves)@ + knight_seq(board@, c, sq));
    }
}

/// Emits the four diagonal rays of the bishop on `sq`.
#[verifier::rlimit(100)]
#[verifier::spinoff_prover]
fn bishop_moves(moves: &mut Vec<MoveInfo>, board: &Vec<u8>, info: Information, c: Color, sq: u8)
    requires
        emitter_pre(board@, c, sq),
        wf_info(info),
        decoded_kind(board@[sq as int]) != Peice::PAWN,
    ensures
        emits_ok(board@, info, c, old(moves)@, final(moves)@),
        final(moves)@ == old(moves)@ + bishop_seq(board@, c, sq),
{
    slide_from(moves, board, info, c, sq, sq, 1, 1, 8);
    slide_from(moves, board, info, c, sq, sq, 1, -1, 8);
    slide_from(moves, board, info, c, sq, sq, -1, 1, 8);
    slide_from(moves, board, info, c, sq, sq, -1, -1, 8);
    proof {
        assert(moves@ =~= old(moves)@ + bishop_seq(board@, c, sq));
    }
}

/// Emits the four orthogonal rays of the rook on `sq`.
#[verifier::rlimit(100)]
#[verifier::spinoff_prover]
fn rook_moves(moves: &mut Vec<MoveInfo>, board: &Vec<u8>, info: Information, c: Color, sq: u8)
    requires
        emitter_pre(board@, c, sq),
        wf_info(info),
        decoded_kind(board@[sq as int]) != Peice::PAWN,
    ensures
        emits_ok(board@, info, c, old(moves)@, final(moves)@),
        final(moves)@ == old(moves)@ + rook_seq(board@, c, sq),
{
    slide_from(moves, board, info, c, sq, sq, 1, 0, 8);
    slide_from(moves, board, info, c, sq, sq, -1, 0, 8);
    slide_from(moves, board, info, c, sq, sq, 0, 1, 8);
    slide_from(moves, board, info, c, sq, sq, 0, -1, 8);
    proof {
        assert(moves@ =~= old(moves)@ + rook_seq(board@, c, sq));
    }
}

/// Emits the king's eight steps and its castling moves.
#[verifier::rlimit(100)]
#[verifier::spinoff_prover]
fn king_moves(moves: &mut Vec<MoveInfo>, board: &Vec<u8>, info: Information, c: Color, sq: u8)
    requires
        emitter_pre(board@, c, sq),
        wf_info(info),
        piece_is(board@[sq as int], c, Peice::KING),
    ensures
        emits_ok(board@, info, c, old(moves)@, final(moves)@),
        final(moves)@ == old(moves)@ + king_seq(board@, info, c, sq),
{
    push_step_move(moves, board, info, c, sq, 1, 1);
    push_step_move(moves, board, info, c, sq, 1, 0);
    push_step_move(moves, board, info, c, sq, 1, -1);
    push_step_move(moves, board, info, c, sq, 0, 1);
    push_step_move(moves, board, info, c, sq, 0, -1);
    push_step_move(moves, board, info, c, sq, -1, 1);
    push_step_move(moves, board, info, c, sq, -1, 0);
    push_step_move(moves, board, info, c, sq, -1, -1);
    castle_moves(moves, board, info, c, sq);
    proof {
        lemma_flatten9(
            old(moves)@,
            step_move_seq(board@, c, sq, 1, 1),
            step_move_seq(board@, c, sq, 1, 0),
            step_move_seq(board@, c, sq, 1, -1),
            step_move_seq(board@, c, sq, 0, 1),
            step_move_seq(board@, c, sq, 0, -1),
            step_move_seq(board@, c, sq, -1, 1),
            step_move_seq(board@, c, sq, -1, 0),
            step_move_seq(board@, c, sq, -1, -1),
            castle_seq(board@, info, c, sq),
        );
        assert(moves@ == old(moves)@ + king_seq(board@, info, c, sq));
    }
}

/// Emits every pseudo-legal move of the piece standing on square `sq`, if a
/// piece of color `c` stands there.
#[verifier::rlimit(100)]
#[verifier::spinoff_prover]
fn emit_square(moves: &mut Vec<MoveInfo>, board: &Vec<u8>, info: Information, c: Color, sq: u8)
    requires
        wf_board(board@),
        wf_info(info),
        sq < 128,
    ensures
        emits_ok(board@, info, c, old(moves)@, final(moves)@),
        final(moves)@ == old(moves)@ + square_seq(board@, info, c, sq as int),
{
    if crate::helpers::is_onboard(sq) {
        let byte: u8 = board[sq as usize];
        if byte != 0 {
            match extract_color_and_type_from_u8(byte) {
                Option::None => {},
                Option::Some((cc, kind)) => {
                    if cc == c {
                        match kind {
                            Peice::PAWN => {
                                pawn_moves(moves, board, info, c, sq);
                            },
                            Peice::KNIGHT => {
                                knight_moves(moves, board, info, c, sq);
                            },
                            Peice::BISHOP => {
                                bishop_moves(moves, board, info, c, sq);
                            },
                            Peice::ROOK => {
                                rook_moves(moves, board, info, c, sq);
                            },
                            Peice::QUEEN => {
                                bishop_moves(moves, board, info, c, sq);
                                rook_moves(moves, board, info, c, sq);
                                proof {
                                    assert(moves@ =~= old(moves)@ + queen_seq(board@, c, sq));
                                }
                            },
                            Peice::KING => {
                                king_moves(moves, board, info, c, sq);
                            },
                            Peice::EMPTY => {},
                        }
                    }
                },
            }
        }
    }
    proof {
        assert(moves@ =~= old(moves)@ + square_seq(board@, info, c, sq as int));
    }
}

/// A move is safe for color `c` when, once applied, no king of `c` stands
/// attacked by the opponent.
pub open spec fn king_safe_after(b: Seq<u8>, m: MoveInfo, c: Color) -> bool {
    kings_safe_spec(apply_board(b, m), c)
}

/// One step of the king-safety filter: extending the filtered prefix by the
/// next move keeps or drops it exactly as its king safety says.
proof fn lemma_filter_step(b: Seq<u8>, c: Color, ms: Seq<MoveInfo>, i: int, legal: Seq<MoveInfo>)
    requires
        0 <= i < ms.len(),
        legal == safe_filter(b, c, ms.take(i)),
    ensures
        king_safe_after(b, ms[i], c) ==> legal.push(ms[i]) == safe_filter(b, c, ms.take(i + 1)),
        !king_safe_after(b, ms[i], c) ==> legal == safe_filter(b, c, ms.take(i + 1)),
{
    assert(ms.take(i + 1).drop_last() =~= ms.take(i));
    assert(ms.take(i + 1).last() == ms[i]);
    assert(safe_filter(b, c, ms.take(i + 1)) == safe_filter(b, c, ms.take(i)) + (
    if king_safe_after(b, ms[i], c) {
        seq![ms[i]]
    } else {
        Seq::<MoveInfo>::empty()
    }));
    if king_safe_after(b, ms[i], c) {
        assert(legal.push(ms[i]) =~= safe_filter(b, c, ms.take(i + 1)));
    } else {
        assert(legal =~= safe_filter(b, c, ms.take(i + 1)));
    }
}

/// The legal moves of color `c` on this board: pseudo-legal moves filtered
/// through the apply/undo engine, keeping those that leave every king of the
/// mover unattacked.
#[verifier::rlimit(100)]
#[verifier::spinoff_prover]
fn legal_moves_for(board: &Vec<u8>, info: Information, c: Color) -> (r: Vec<MoveInfo>)
    requires
        wf_board(board@),
        wf_info(info),
    ensures
        forall|i: int|
            0 <= i < r@.len() ==> gen_ok(board@, info, c, #[trigger] r@[i]) && king_safe_after(
                board@,
                r@[i],
                c,
            ),
        r@ == spec_legal_moves(board@, info, c),
{
    let pseudo: Vec<MoveInfo> = gen_pseudo(board, info, c);
    let mut legal: Vec<MoveInfo> = Vec::new();
    let mut scratch: Position = Position {
        board: board.clone(),
        information: info,
        undo_stack: Vec::new(),
    };
    proof {
        assert(scratch.board@ =~= board@);
        assert(pseudo@.take(0) =~= Seq::<MoveInfo>::empty());
    }
    let mut i: usize = 0;
    while i < pseudo.len()
        invariant
            i <= pseudo@.len(),
            wf_board(board@),
            wf_info(info),
            scratch.wf(),
            scratch.board@ == board@,
            scratch.information == info,
            scratch.undo_stack@.len() == 0,
            pseudo@ == spec_pseudo_moves(board@, info, c),
            forall|j: int|
                0 <= j < pseudo@.len() ==> gen_ok(board@, info, c, #[trigger] pseudo@[j]),
            forall|j: int|
                0 <= j < legal@.len() ==> gen_ok(board@, info, c, #[trigger] legal@[j])
                    && king_safe_after(board@, legal@[j], c),
            legal@ == safe_filter(board@, c, pseudo@.take(i as int)),
        decreases pseudo@.len() - i,
    {
        let m: MoveInfo = pseudo[i];
        proof {
            lemma_filter_step(board@, c, pseudo@, i as int, legal@);
        }
        scratch.make_move(m);
        let safe: bool = kings_safe(&scratch.board, c);
        if safe {
            legal.push(m);
        }
        proof {
            lemma_apply_undo_identity(board@, info, m);
        }
        let undone: Result<(), crate::EngineError> = scratch.undo_move();
        proof {
            assert(undone is Ok);
            assert(scratch.undo_stack@ =~= Seq::<crate::move_and_undo::UndoInfo>::empty());
        }
        i = i + 1;
    }
    proof {
        assert(pseudo@.take(pseudo@.len() as int) =~= pseudo@);
    }
    legal
}

/// Returns a vector containing the legal moves of `color`: exactly the
/// pseudo-legal moves of the movement rules, in square order, whose
/// application leaves no king of the mover attacked.
pub fn get_moves(pos: &Position, color: &Color) -> (r: Vec<MoveInfo>)
    requires
        pos.wf(),
    ensures
        forall|i: int|
            0 <= i < r@.len() ==> gen_ok(pos.board@, pos.information, *color, #[trigger] r@[i])
                && king_safe_after(pos.board@, r@[i], *color),
        r@ == spec_legal_moves(pos.board@, pos.information, *color),
{
    legal_moves_for(&pos.board, pos.information, *color)
}

/// Caps a running count at the machine's maximum, as the perft driver's
/// saturating accumulator does.
pub open spec fn clip_count(n: int) -> int {
    if n > usize::MAX as int {
        usize::MAX as int
    } else {
        n
    }
}

/// The number of leaf nodes of the legal-move tree to the given depth: the
/// count of legal moves at depth one, else the fold of the recursive counts
/// over the legal moves, each addition capped as the driver's accumulator
/// caps it.
pub open spec fn spec_perft(b: Seq<u8>, info: Information, depth: int) -> int
    decreases depth + 1, 0int,
{
    let ms = spec_legal_moves(b, info, info.active_color);
    if depth <= 1 {
        ms.len() as int
    } else {
        perft_acc(b, info, ms, 0, depth, 0)
    }
}

/// Folds the recursive perft counts of the moves from index `k` onward into
/// the accumulator `acc`.
pub open spec fn perft_acc(
    b: Seq<u8>,
    info: Information,
    ms: Seq<MoveInfo>,
    k: int,
    depth: int,
    acc: int,
) -> int
    decreases depth, ms.len() - k,
{
    if k < 0 || k >= ms.len() || depth <= 1 {
        acc
    } else {
        let sub = spec_perft(
            apply_board(b, ms[k]),
            apply_info(info, ms[k], b[ms[k].frm as int]),
            depth - 1,
        );
        perft_acc(b, info, ms, k + 1, depth, clip_count(acc + sub))
    }
}

/// A perft performance test: counts the leaf nodes of the legal-move tree to
/// the given depth (the count saturating at the machine's maximum), and
/// hands the position back bit for bit as it was.
pub fn perft(pos: &mut Position, depth: usize) -> (r: usize)
    requires
        old(pos).wf(),
        depth >= 1,
    ensures
        final(pos).wf(),
        final(pos).board@ == old(pos).board@,
        final(pos).information == old(pos).information,
        final(pos).undo_stack@ == old(pos).undo_stack@,
        r as int == spec_perft(old(pos).board@, old(pos).information, depth as int),
    decreases depth,
{
    let active: Color = pos.information.active_color;
    let moves: Vec<MoveInfo> = legal_moves_for(&pos.board, pos.information, active);
    if depth == 1 {
        return moves.len();
    }

    let mut counter: usize = 0;
    let mut i: usize = 0;
    while i < moves.len()
        invariant
            2 <= depth,
            i <= moves@.len(),
            pos.wf(),
            pos.board@ == old(pos).board@,
            pos.information == old(pos).information,
            pos.undo_stack@ == old(pos).undo_stack@,
            moves@ == spec_legal_moves(old(pos).board@, old(pos).information, old(
                pos,
            ).information.active_color),
            forall|j: int|
                0 <= j < moves@.len() ==> gen_ok(
                    old(pos).board@,
                    old(pos).information,
                    old(pos).information.active_color,
                    #[trigger] moves@[j],
                ),
            perft_acc(
                old(pos).board@,
                old(pos).information,
                moves@,
                i as int,
                depth as int,
                counter as int,
            ) == spec_perft(old(pos).board@, old(pos).information, depth as int),
        decreases moves@.len() - i,
    {
        let m: MoveInfo = moves[i];
        let ghost prev_counter = counter as int;
        pos.make_move(m);
        let sub: usize = perft(pos, depth - 1);
        counter = if counter <= usize::MAX - sub {
            counter + sub
        } else {
            usize::MAX
        };
        proof {
            lemma_apply_undo_identity(old(pos).board@, old(pos).information, m);
            assert(counter as int == clip_count(
                prev_counter + spec_perft(
                    apply_board(old(pos).board@, m),
                    apply_info(old(pos).information, m, old(pos).board@[m.frm as int]),
                    depth as int - 1,
                ),
            ));
        }
        let undone: Result<(), crate::EngineError> = pos.undo_move();
        proof {
            assert(undone is Ok);
            assert(pos.undo_stack@ =~= old(pos).undo_stack@);
        }
        i = i + 1;
    }
    counter
}

} // verus!
