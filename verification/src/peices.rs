//! Piece and color definitions for the 0x88 board, together with the packed
//! one-byte codec that stores a color tag and piece-type bits in one square.

use vstd::prelude::*;

verus! {

/// The two sides. The color tag occupies the high bits of a packed square
/// byte: bit 5 for White, bit 6 for Black.
#[allow(non_camel_case_types)]
#[derive(Clone, Copy, PartialEq, Eq, Structural, Debug)]
pub enum Color {
    WHITE,
    BLACK,
}

/// Piece kinds. `QUEEN` is represented in the packed byte as the union of the
/// `ROOK` and `BISHOP` bits, so decoding tests bits in a fixed order.
#[allow(non_camel_case_types)]
#[derive(Clone, Copy, PartialEq, Eq, Structural, Debug)]
pub enum Peice {
    EMPTY,
    PAWN,
    ROOK,
    BISHOP,
    QUEEN,
    KING,
    KNIGHT,
}

/// The opposite side of `c`.
pub open spec fn opponent(c: Color) -> Color {
    if c == Color::WHITE {
        Color::BLACK
    } else {
        Color::WHITE
    }
}

/// Index of a color into two-entry tables: White is 0, Black is 1.
pub open spec fn color_bit(c: Color) -> usize {
    if c == Color::WHITE {
        0
    } else {
        1
    }
}

/// The color-tag bits of the packed byte.
pub open spec fn color_mask(c: Color) -> u8 {
    if c == Color::WHITE {
        32
    } else {
        64
    }
}

/// The piece-type bits of the packed byte.
pub open spec fn piece_bits(p: Peice) -> u8 {
    match p {
        Peice::EMPTY => 0,
        Peice::PAWN => 1,
        Peice::ROOK => 2,
        Peice::BISHOP => 4,
        Peice::QUEEN => 6,
        Peice::KING => 8,
        Peice::KNIGHT => 16,
    }
}

/// The packed byte for a colored piece. The color and type bits are disjoint,
/// so the bitwise union equals the sum.
pub open spec fn encode(c: Color, p: Peice) -> u8 {
    (color_mask(c) + piece_bits(p)) as u8
}

/// True when the power-of-two bit `v` is set in `b`.
pub open spec fn bit_set(b: u8, v: u8) -> bool {
    b / v % 2 == 1
}

/// The color a nonzero packed byte decodes to: the White tag bit decides.
pub open spec fn decoded_color(b: u8) -> Color {
    if bit_set(b, 32) {
        Color::WHITE
    } else {
        Color::BLACK
    }
}

/// The piece kind a nonzero packed byte decodes to. The knight bit is tested
/// first, then rook and bishop together (the queen), then each alone, then
/// the king bit; a byte with no type bits set reads as a pawn.
pub open spec fn decoded_kind(b: u8) -> Peice {
    if bit_set(b, 16) {
        Peice::KNIGHT
    } else if bit_set(b, 2) && bit_set(b, 4) {
        Peice::QUEEN
    } else if bit_set(b, 2) {
        Peice::ROOK
    } else if bit_set(b, 4) {
        Peice::BISHOP
    } else if bit_set(b, 8) {
        Peice::KING
    } else {
        Peice::PAWN
    }
}

/// Total decoding of a packed square byte: zero is an empty square, anything
/// else yields a color and a piece kind.
pub open spec fn decode(b: u8) -> Option<(Color, Peice)> {
    if b == 0 {
        None
    } else {
        Some((decoded_color(b), decoded_kind(b)))
    }
}

/// The bytes the encoder can produce for a real (non-empty) piece.
pub open spec fn valid_piece_byte(b: u8) -> bool {
    exists|c: Color, p: Peice| p != Peice::EMPTY && b == #[trigger] encode(c, p)
}

/// Bitwise tests on a byte restated as arithmetic, so the rest of the
/// development can reason about the packed codec without bit vectors.
pub proof fn lemma_bit_facts(b: u8)
    by (bit_vector)
    ensures
        (b & 64 != 0) == (b / 64 % 2 == 1),
        (b & 32 != 0) == (b / 32 % 2 == 1),
        (b & 16 != 0) == (b / 16 % 2 == 1),
        (b & 8 != 0) == (b / 8 % 2 == 1),
        (b & 4 != 0) == (b / 4 % 2 == 1),
        (b & 2 != 0) == (b / 2 % 2 == 1),
        (b & 0x88 == 0) == (b % 16 < 8 && b < 128),
        (b & 7) == b % 8,
        (b & 15) == b % 16,
        (b >> 4) == b / 16,
{
}

/// The bitwise union of a color tag and piece-type bits equals their sum,
/// because the two bit ranges are disjoint.
pub proof fn lemma_or_is_sum(m: u8, t: u8)
    by (bit_vector)
    requires
        m == 32 || m == 64,
        t <= 16,
    ensures
        (m | t) == (m + t) as u8,
{
}

impl Color {
    /// Simply flips the color.
    pub fn oponent_color(&self) -> (r: Color)
        ensures
            r == opponent(*self),
    {
        match *self {
            Color::WHITE => Color::BLACK,
            Color::BLACK => Color::WHITE,
        }
    }

    /// Converts a color to a bit, which can be used to index castling-rights
    /// information and other two-entry tables.
    pub fn convert_to_bit(&self) -> (r: usize)
        ensures
            r == color_bit(*self),
    {
        match *self {
            Color::WHITE => 0,
            Color::BLACK => 1,
        }
    }
}

/// The letter a piece prints as: uppercase for White, lowercase for Black,
/// a space for the empty marker.
pub open spec fn piece_char(p: Peice, c: Color) -> char {
    match p {
        Peice::EMPTY => ' ',
        Peice::PAWN => if c == Color::WHITE { 'P' } else { 'p' },
        Peice::ROOK => if c == Color::WHITE { 'R' } else { 'r' },
        Peice::BISHOP => if c == Color::WHITE { 'B' } else { 'b' },
        Peice::QUEEN => if c == Color::WHITE { 'Q' } else { 'q' },
        Peice::KING => if c == Color::WHITE { 'K' } else { 'k' },
        Peice::KNIGHT => if c == Color::WHITE { 'N' } else { 'n' },
    }
}

impl Peice {
    /// The letter this piece prints as in the given color.
    pub fn convert_to_char(&self, color: Color) -> (r: char)
        ensures
            r == piece_char(*self, color),
    {
        match *self {
            Peice::EMPTY => ' ',
            Peice::PAWN => {
                if color == Color::WHITE {
                    'P'
                } else {
                    'p'
                }
            }
            Peice::ROOK => {
                if color == Color::WHITE {
                    'R'
                } else {
                    'r'
                }
            }
            Peice::BISHOP => {
                if color == Color::WHITE {
                    'B'
                } else {
                    'b'
                }
            }
            Peice::QUEEN => {
                if color == Color::WHITE {
                    'Q'
                } else {
                    'q'
                }
            }
            Peice::KING => {
                if color == Color::WHITE {
                    'K'
                } else {
                    'k'
                }
            }
            Peice::KNIGHT => {
                if color == Color::WHITE {
                    'N'
                } else {
                    'n'
                }
            }
        }
    }
}

/// The letter shown for a packed square byte, a space when it is empty.
pub open spec fn square_char(b: u8) -> char {
    match decode(b) {
        Option::None => ' ',
        Option::Some((c, p)) => piece_char(p, c),
    }
}

/// Converts a 0x88 square byte, containing information about piece occupancy
/// and color, to the appropriate ascii char.
pub fn convert_0x88_square_to_char(information: u8) -> (r: char)
    ensures
        r == square_char(information),
{
    match extract_color_and_type_from_u8(information) {
        Option::None => ' ',
        Option::Some((color, peice)) => peice.convert_to_char(color),
    }
}

/// Converts a color and peice type to an u8.
pub fn convert_color_and_type_to_u8(color: Color, peice: Peice) -> (r: u8)
    ensures
        r == encode(color, peice),
{
    let m: u8 = match color {
        Color::WHITE => 32,
        Color::BLACK => 64,
    };
    let t: u8 = match peice {
        Peice::EMPTY => 0,
        Peice::PAWN => 1,
        Peice::ROOK => 2,
        Peice::BISHOP => 4,
        Peice::QUEEN => 6,
        Peice::KING => 8,
        Peice::KNIGHT => 16,
    };
    proof {
        lemma_or_is_sum(m, t);
    }
    m | t
}

/// Extracts the color and type from a u8, if possible.
pub fn extract_color_and_type_from_u8(information: u8) -> (r: Option<(Color, Peice)>)
    ensures
        r == decode(information),
{
    proof {
        lemma_bit_facts(information);
    }
    if information != 0 {
        let color: Color = if information & 32 != 0 {
            Color::WHITE
        } else {
            Color::BLACK
        };

        if information & 16 != 0 {
            return Option::Some((color, Peice::KNIGHT));
        } else if information & 2 != 0 && information & 4 != 0 {
            return Option::Some((color, Peice::QUEEN));
        } else if information & 2 != 0 {
            return Option::Some((color, Peice::ROOK));
        } else if information & 4 != 0 {
            return Option::Some((color, Peice::BISHOP));
        } else if information & 8 != 0 {
            return Option::Some((color, Peice::KING));
        }
        return Option::Some((color, Peice::PAWN));
    }
    return Option::None;
}

/// Decoding inverts encoding: every real piece survives a round trip through
/// the packed byte unchanged.
pub proof fn lemma_codec_roundtrip(c: Color, p: Peice)
    requires
        p != Peice::EMPTY,
    ensures
        decode(encode(c, p)) == Some((c, p)),
{
}

} // verus!
