//! The square and offset model: an 8-by-8 board embedded in a 128-slot
//! addressable space, sixteen slots per rank, so that a square is off the
//! board exactly when `square & 0x88 != 0`.

use vstd::prelude::*;
use crate::EngineError;

verus! {

/// A square index addresses the board when it lies in the low 128 slots and
/// its file nibble stays below 8.
pub open spec fn valid_sq(sq: u8) -> bool {
    sq < 128 && sq % 16 < 8
}

/// The file (column) of a square, 0 for the a-file through 7 for the h-file.
pub open spec fn file_of(sq: u8) -> u8 {
    (sq % 16) as u8
}

/// The rank (row) of a square, 0 for rank 1 through 7 for rank 8.
pub open spec fn rank_of(sq: u8) -> u8 {
    (sq / 16) as u8
}

/// The square index at a file and rank.
pub open spec fn sq_at(file: u8, rank: u8) -> u8 {
    (16 * rank + file) as u8
}

/// True for the eight algebraic file letters.
pub open spec fn is_file_char(c: char) -> bool {
    c == 'a' || c == 'b' || c == 'c' || c == 'd' || c == 'e' || c == 'f' || c == 'g' || c == 'h'
}

/// True for the eight algebraic rank digits.
pub open spec fn is_rank_char(c: char) -> bool {
    c == '1' || c == '2' || c == '3' || c == '4' || c == '5' || c == '6' || c == '7' || c == '8'
}

/// The file index named by a file letter.
pub open spec fn file_of_char(c: char) -> u8 {
    if c == 'a' { 0 } else if c == 'b' { 1 } else if c == 'c' { 2 } else if c == 'd' { 3 }
    else if c == 'e' { 4 } else if c == 'f' { 5 } else if c == 'g' { 6 } else { 7 }
}

/// The rank index named by a rank digit.
pub open spec fn rank_of_char(c: char) -> u8 {
    if c == '1' { 0 } else if c == '2' { 1 } else if c == '3' { 2 } else if c == '4' { 3 }
    else if c == '5' { 4 } else if c == '6' { 5 } else if c == '7' { 6 } else { 7 }
}

/// The letter of a file index below 8.
pub open spec fn char_of_file(f: u8) -> char {
    if f == 0 { 'a' } else if f == 1 { 'b' } else if f == 2 { 'c' } else if f == 3 { 'd' }
    else if f == 4 { 'e' } else if f == 5 { 'f' } else if f == 6 { 'g' } else { 'h' }
}

/// The digit of a rank index below 8.
pub open spec fn char_of_rank(r: u8) -> char {
    if r == 0 { '1' } else if r == 1 { '2' } else if r == 2 { '3' } else if r == 3 { '4' }
    else if r == 4 { '5' } else if r == 5 { '6' } else if r == 6 { '7' } else { '8' }
}

/// The two algebraic characters naming a valid square.
pub open spec fn alg_of_sq(sq: u8) -> Seq<char> {
    seq![char_of_file(file_of(sq)), char_of_rank(rank_of(sq))]
}

/// The square named by a file letter and a rank digit.
pub open spec fn sq_of_chars(fc: char, rc: char) -> u8 {
    sq_at(file_of_char(fc), rank_of_char(rc))
}

/// Coordinate round trip: converting a valid algebraic name to a square index
/// and back yields the same two characters.
pub proof fn lemma_coordinate_roundtrip(fc: char, rc: char)
    requires
        is_file_char(fc),
        is_rank_char(rc),
    ensures
        valid_sq(sq_of_chars(fc, rc)),
        alg_of_sq(sq_of_chars(fc, rc)) == seq![fc, rc],
{
    assert(alg_of_sq(sq_of_chars(fc, rc)) =~= seq![fc, rc]);
}

/// Converts a set of algebraic cordinates to a square index
pub fn convert_alg_to_0x88(cords: String) -> (r: Result<u8, EngineError>)
    ensures
        match r {
            Result::Ok(sq) => cords@.len() == 2 && is_file_char(cords@[0]) && is_rank_char(
                cords@[1],
            ) && sq == sq_of_chars(cords@[0], cords@[1]) && valid_sq(sq),
            Result::Err(e) => e == EngineError::InvalidCoordinate && !(cords@.len() == 2
                && is_file_char(cords@[0]) && is_rank_char(cords@[1])),
        },
{
    let s = cords.as_str();
    if s.unicode_len() != 2 {
        return Result::Err(EngineError::InvalidCoordinate);
    }
    let file_c = s.get_char(0);
    let rank_c = s.get_char(1);
    let file: u8 = match file_c {
        'a' => 0, 'b' => 1, 'c' => 2, 'd' => 3, 'e' => 4, 'f' => 5, 'g' => 6, 'h' => 7,
        _ => { return Result::Err(EngineError::InvalidCoordinate); },
    };
    let rank: u8 = match rank_c {
        '1' => 0, '2' => 1, '3' => 2, '4' => 3, '5' => 4, '6' => 5, '7' => 6, '8' => 7,
        _ => { return Result::Err(EngineError::InvalidCoordinate); },
    };
    Result::Ok(16 * rank + file)
}

/// Converts a square index to a set of algebraic cordinates
pub fn convert_0x88_to_alg(sq0x88: u8) -> (r: String)
    ensures
        valid_sq(sq0x88) ==> r@ == alg_of_sq(sq0x88),
{
    proof {
        crate::peices::lemma_bit_facts(sq0x88);
        reveal_strlit("a"); reveal_strlit("b"); reveal_strlit("c"); reveal_strlit("d");
        reveal_strlit("e"); reveal_strlit("f"); reveal_strlit("g"); reveal_strlit("h");
        reveal_strlit("1"); reveal_strlit("2"); reveal_strlit("3"); reveal_strlit("4");
        reveal_strlit("5"); reveal_strlit("6"); reveal_strlit("7"); reveal_strlit("8");
    }
    let file: u8 = sq0x88 & 7;
    let rank: u8 = sq0x88 >> 4;
    let mut out = String::new();
    out.append(
        match file {
            0 => "a", 1 => "b", 2 => "c", 3 => "d", 4 => "e", 5 => "f", 6 => "g", _ => "h",
        },
    );
    out.append(
        match rank {
            0 => "1", 1 => "2", 2 => "3", 3 => "4", 4 => "5", 5 => "6", 6 => "7", _ => "8",
        },
    );
    proof {
        if valid_sq(sq0x88) {
            assert(out@ =~= alg_of_sq(sq0x88));
        }
    }
    out
}

/// Ray and leaper offsets over the sixteen-wide square index space.
#[allow(non_camel_case_types)]
#[derive(Clone, Copy, PartialEq, Eq, Structural, Debug)]
pub enum Direction {
    NORTH,
    SOUTH,
    EAST,
    WEST,
    NORTH_EAST,
    NORTH_WEST,
    SOUTH_EAST,
    SOUTH_WEST,
}

/// The change in file a direction makes.
pub open spec fn dir_df(d: Direction) -> int {
    match d {
        Direction::NORTH => 0,
        Direction::SOUTH => 0,
        Direction::EAST => 1,
        Direction::WEST => -1,
        Direction::NORTH_EAST => 1,
        Direction::NORTH_WEST => -1,
        Direction::SOUTH_EAST => 1,
        Direction::SOUTH_WEST => -1,
    }
}

/// The change in rank a direction makes.
pub open spec fn dir_dr(d: Direction) -> int {
    match d {
        Direction::NORTH => 1,
        Direction::SOUTH => -1,
        Direction::EAST => 0,
        Direction::WEST => 0,
        Direction::NORTH_EAST => 1,
        Direction::NORTH_WEST => 1,
        Direction::SOUTH_EAST => -1,
        Direction::SOUTH_WEST => -1,
    }
}

impl Direction {
    /// The index offset this direction adds to a square.
    pub fn offset(&self) -> (r: i16)
        ensures
            r == 16 * dir_dr(*self) + dir_df(*self),
    {
        match *self {
            Direction::NORTH => 16,
            Direction::SOUTH => -16,
            Direction::EAST => 1,
            Direction::WEST => -1,
            Direction::NORTH_EAST => 17,
            Direction::NORTH_WEST => 15,
            Direction::SOUTH_EAST => -15,
            Direction::SOUTH_WEST => -17,
        }
    }
}

/// The sixty-four board squares by name.
#[derive(Clone, Copy, PartialEq, Eq, Structural, Debug)]
pub enum Sq0x88 {
    A8, B8, C8, D8, E8, F8, G8, H8,
    A7, B7, C7, D7, E7, F7, G7, H7,
    A6, B6, C6, D6, E6, F6, G6, H6,
    A5, B5, C5, D5, E5, F5, G5, H5,
    A4, B4, C4, D4, E4, F4, G4, H4,
    A3, B3, C3, D3, E3, F3, G3, H3,
    A2, B2, C2, D2, E2, F2, G2, H2,
    A1, B1, C1, D1, E1, F1, G1, H1,
}

/// The 0x88 index each named square stands for.
pub open spec fn sq_index(s: Sq0x88) -> u8 {
    match s {
        Sq0x88::A8 => 0x70,
        Sq0x88::B8 => 0x71,
        Sq0x88::C8 => 0x72,
        Sq0x88::D8 => 0x73,
        Sq0x88::E8 => 0x74,
        Sq0x88::F8 => 0x75,
        Sq0x88::G8 => 0x76,
        Sq0x88::H8 => 0x77,
        Sq0x88::A7 => 0x60,
        Sq0x88::B7 => 0x61,
        Sq0x88::C7 => 0x62,
        Sq0x88::D7 => 0x63,
        Sq0x88::E7 => 0x64,
        Sq0x88::F7 => 0x65,
        Sq0x88::G7 => 0x66,
        Sq0x88::H7 => 0x67,
        Sq0x88::A6 => 0x50,
        Sq0x88::B6 => 0x51,
        Sq0x88::C6 => 0x52,
        Sq0x88::D6 => 0x53,
        Sq0x88::E6 => 0x54,
        Sq0x88::F6 => 0x55,
        Sq0x88::G6 => 0x56,
        Sq0x88::H6 => 0x57,
        Sq0x88::A5 => 0x40,
        Sq0x88::B5 => 0x41,
        Sq0x88::C5 => 0x42,
        Sq0x88::D5 => 0x43,
        Sq0x88::E5 => 0x44,
        Sq0x88::F5 => 0x45,
        Sq0x88::G5 => 0x46,
        Sq0x88::H5 => 0x47,
        Sq0x88::A4 => 0x30,
        Sq0x88::B4 => 0x31,
        Sq0x88::C4 => 0x32,
        Sq0x88::D4 => 0x33,
        Sq0x88::E4 => 0x34,
        Sq0x88::F4 => 0x35,
        Sq0x88::G4 => 0x36,
        Sq0x88::H4 => 0x37,
        Sq0x88::A3 => 0x20,
        Sq0x88::B3 => 0x21,
        Sq0x88::C3 => 0x22,
        Sq0x88::D3 => 0x23,
        Sq0x88::E3 => 0x24,
        Sq0x88::F3 => 0x25,
        Sq0x88::G3 => 0x26,
        Sq0x88::H3 => 0x27,
        Sq0x88::A2 => 0x10,
        Sq0x88::B2 => 0x11,
        Sq0x88::C2 => 0x12,
        Sq0x88::D2 => 0x13,
        Sq0x88::E2 => 0x14,
        Sq0x88::F2 => 0x15,
        Sq0x88::G2 => 0x16,
        Sq0x88::H2 => 0x17,
        Sq0x88::A1 => 0x00,
        Sq0x88::B1 => 0x01,
        Sq0x88::C1 => 0x02,
        Sq0x88::D1 => 0x03,
        Sq0x88::E1 => 0x04,
        Sq0x88::F1 => 0x05,
        Sq0x88::G1 => 0x06,
        Sq0x88::H1 => 0x07,
    }
}

impl Sq0x88 {
    /// The 0x88 index of this named square.
    pub fn index(&self) -> (r: u8)
        ensures
            r == sq_index(*self),
            valid_sq(r),
    {
        match *self {
            Sq0x88::A8 => 0x70,
            Sq0x88::B8 => 0x71,
            Sq0x88::C8 => 0x72,
            Sq0x88::D8 => 0x73,
            Sq0x88::E8 => 0x74,
            Sq0x88::F8 => 0x75,
            Sq0x88::G8 => 0x76,
            Sq0x88::H8 => 0x77,
            Sq0x88::A7 => 0x60,
            Sq0x88::B7 => 0x61,
            Sq0x88::C7 => 0x62,
            Sq0x88::D7 => 0x63,
            Sq0x88::E7 => 0x64,
            Sq0x88::F7 => 0x65,
            Sq0x88::G7 => 0x66,
            Sq0x88::H7 => 0x67,
            Sq0x88::A6 => 0x50,
            Sq0x88::B6 => 0x51,
            Sq0x88::C6 => 0x52,
            Sq0x88::D6 => 0x53,
            Sq0x88::E6 => 0x54,
            Sq0x88::F6 => 0x55,
            Sq0x88::G6 => 0x56,
            Sq0x88::H6 => 0x57,
            Sq0x88::A5 => 0x40,
            Sq0x88::B5 => 0x41,
            Sq0x88::C5 => 0x42,
            Sq0x88::D5 => 0x43,
            Sq0x88::E5 => 0x44,
            Sq0x88::F5 => 0x45,
            Sq0x88::G5 => 0x46,
            Sq0x88::H5 => 0x47,
            Sq0x88::A4 => 0x30,
            Sq0x88::B4 => 0x31,
            Sq0x88::C4 => 0x32,
            Sq0x88::D4 => 0x33,
            Sq0x88::E4 => 0x34,
            Sq0x88::F4 => 0x35,
            Sq0x88::G4 => 0x36,
            Sq0x88::H4 => 0x37,
            Sq0x88::A3 => 0x20,
            Sq0x88::B3 => 0x21,
            Sq0x88::C3 => 0x22,
            Sq0x88::D3 => 0x23,
            Sq0x88::E3 => 0x24,
            Sq0x88::F3 => 0x25,
            Sq0x88::G3 => 0x26,
            Sq0x88::H3 => 0x27,
            Sq0x88::A2 => 0x10,
            Sq0x88::B2 => 0x11,
            Sq0x88::C2 => 0x12,
            Sq0x88::D2 => 0x13,
            Sq0x88::E2 => 0x14,
            Sq0x88::F2 => 0x15,
            Sq0x88::G2 => 0x16,
            Sq0x88::H2 => 0x17,
            Sq0x88::A1 => 0x00,
            Sq0x88::B1 => 0x01,
            Sq0x88::C1 => 0x02,
            Sq0x88::D1 => 0x03,
            Sq0x88::E1 => 0x04,
            Sq0x88::F1 => 0x05,
            Sq0x88::G1 => 0x06,
            Sq0x88::H1 => 0x07,
        }
    }
}

/// The rank of a square index.
pub fn sq_rank(sq: u8) -> (r: u8)
    ensures
        r == rank_of(sq),
{
    proof {
        crate::peices::lemma_bit_facts(sq);
    }
    sq >> 4
}

/// Tests whether a square index addresses the board, with the single 0x88
/// mask check that makes this layout worthwhile.
pub fn is_onboard(sq: u8) -> (r: bool)
    ensures
        r == valid_sq(sq),
{
    proof {
        crate::peices::lemma_bit_facts(sq);
    }
    sq & 0x88 == 0
}

} // verus!
