use chess0x88::helpers::{convert_0x88_to_alg, convert_alg_to_0x88, Direction, Sq0x88};
use chess0x88::move_and_undo::{MoveFlag, MoveInfo};
use chess0x88::move_generator::get_moves;
use chess0x88::peices::{
    convert_0x88_square_to_char, convert_color_and_type_to_u8, extract_color_and_type_from_u8,
    Color, Peice,
};
use chess0x88::position::Position;
use chess0x88::EngineError;

#[test]
fn test_coordinate_roundtrip_all_squares() {
    for file in ["a", "b", "c", "d", "e", "f", "g", "h"] {
        for rank in ["1", "2", "3", "4", "5", "6", "7", "8"] {
            let alg = format!("{}{}", file, rank);
            let sq = convert_alg_to_0x88(alg.clone()).unwrap();
            assert_eq!(convert_0x88_to_alg(sq), alg);
        }
    }
    assert_eq!(convert_alg_to_0x88(String::from("e4")), Ok(0x34));
    assert_eq!(
        convert_alg_to_0x88(String::from("z9")),
        Err(EngineError::InvalidCoordinate)
    );
    assert_eq!(
        convert_alg_to_0x88(String::from("e")),
        Err(EngineError::InvalidCoordinate)
    );
    assert_eq!(
        convert_alg_to_0x88(String::from("e44")),
        Err(EngineError::InvalidCoordinate)
    );
}

#[test]
fn test_piece_codec_roundtrip() {
    let pieces = [
        Peice::PAWN,
        Peice::ROOK,
        Peice::BISHOP,
        Peice::QUEEN,
        Peice::KING,
        Peice::KNIGHT,
    ];
    for color in [Color::WHITE, Color::BLACK] {
        for piece in pieces {
            let byte = convert_color_and_type_to_u8(color, piece);
            assert_eq!(extract_color_and_type_from_u8(byte), Some((color, piece)));
        }
    }
    assert_eq!(extract_color_and_type_from_u8(0), None);
    assert_eq!(convert_color_and_type_to_u8(Color::WHITE, Peice::QUEEN), 38);
    assert_eq!(convert_color_and_type_to_u8(Color::BLACK, Peice::KNIGHT), 80);
    assert_eq!(convert_0x88_square_to_char(33), 'P');
    assert_eq!(convert_0x88_square_to_char(72), 'k');
    assert_eq!(convert_0x88_square_to_char(0), ' ');
    assert_eq!(Peice::QUEEN.convert_to_char(Color::WHITE), 'Q');
    assert_eq!(Peice::KNIGHT.convert_to_char(Color::BLACK), 'n');
    assert_eq!(Color::WHITE.oponent_color(), Color::BLACK);
    assert_eq!(Color::BLACK.oponent_color(), Color::WHITE);
    assert_eq!(Color::WHITE.convert_to_bit(), 0);
    assert_eq!(Color::BLACK.convert_to_bit(), 1);
}

#[test]
fn test_named_squares_and_directions() {
    assert_eq!(Sq0x88::A1.index(), 0x00);
    assert_eq!(Sq0x88::E4.index(), 0x34);
    assert_eq!(Sq0x88::H8.index(), 0x77);
    assert_eq!(Direction::NORTH.offset(), 16);
    assert_eq!(Direction::SOUTH_WEST.offset(), -17);
}

#[test]
fn test_apply_undo_identity_over_all_legal_moves() {
    let fen = String::from("r3k2r/p1ppqpb1/bn2pnp1/3PN3/1p2P3/2N2Q1p/PPPBBPPP/R3K2R w KQkq - 0 1");
    let pos = Position::load_from_fen(fen.clone()).unwrap();
    let color = pos.information.active_color;
    let moves = get_moves(&pos, &color);
    assert_eq!(moves.len(), 48);
    for m in moves {
        let mut p = Position::load_from_fen(fen.clone()).unwrap();
        p.make_move(m);
        p.undo_move().unwrap();
        assert_eq!(p.convert_to_fen_string(), fen);
    }
}

#[test]
fn test_illegal_undo_is_rejected() {
    let mut pos = Position::new();
    assert_eq!(pos.undo_move(), Err(EngineError::IllegalUndo));
    // The failed undo leaves the position untouched.
    assert_eq!(
        pos.convert_to_fen_string(),
        "rnbqkbnr/pppppppp/8/8/8/8/PPPPPPPP/RNBQKBNR w KQkq - 0 1"
    );
}

#[test]
fn test_double_push_sets_en_passant_target() {
    let mut pos = Position::new();
    pos.make_move(MoveInfo {
        frm: 0x14,
        to: 0x34,
        flag: MoveFlag::DOUBLE_PUSH,
    });
    assert_eq!(
        pos.convert_to_fen_string(),
        "rnbqkbnr/pppppppp/8/8/4P3/8/PPPP1PPP/RNBQKBNR b KQkq e3 0 1"
    );
}

#[test]
fn test_en_passant_removes_the_passed_pawn() {
    // After a black double push d7-d5 beside the white pawn on e5.
    let fen = String::from("rnbqkbnr/ppp1pppp/8/3pP3/8/8/PPPP1PPP/RNBQKBNR w KQkq d6 0 3");
    let mut pos = Position::load_from_fen(fen).unwrap();
    let color = pos.information.active_color;
    let moves = get_moves(&pos, &color);
    let ep = MoveInfo {
        frm: 0x44,
        to: 0x53,
        flag: MoveFlag::EN_PASSANT,
    };
    assert!(moves.contains(&ep));
    pos.make_move(ep);
    // The capture empties d5, the square behind the target, not the target d6.
    assert_eq!(pos.board[0x43], 0);
    assert_eq!(pos.board[0x53], 33);
    assert_eq!(pos.board[0x44], 0);
    assert_eq!(
        pos.convert_to_fen_string(),
        "rnbqkbnr/ppp1pppp/3P4/8/8/8/PPPP1PPP/RNBQKBNR b KQkq - 0 3"
    );
}

#[test]
fn test_castling_moves_king_and_rook() {
    let fen = String::from("r3k2r/p1ppqpb1/bn2pnp1/3PN3/1p2P3/2N2Q1p/PPPBBPPP/R3K2R w KQkq - 0 1");
    let mut pos = Position::load_from_fen(fen).unwrap();
    pos.make_move(MoveInfo {
        frm: 0x04,
        to: 0x06,
        flag: MoveFlag::OO,
    });
    assert_eq!(
        pos.convert_to_fen_string(),
        "r3k2r/p1ppqpb1/bn2pnp1/3PN3/1p2P3/2N2Q1p/PPPBBPPP/R4RK1 b kq - 1 1"
    );
}

#[test]
fn test_rook_capture_clears_castling_right() {
    let fen = String::from("4k3/8/8/8/8/8/r7/R3K2R b KQ - 0 1");
    let mut pos = Position::load_from_fen(fen).unwrap();
    pos.make_move(MoveInfo {
        frm: 0x10,
        to: 0x00,
        flag: MoveFlag::CAPTURE,
    });
    assert_eq!(
        pos.convert_to_fen_string(),
        "4k3/8/8/8/8/8/8/r3K2R w K - 0 2"
    );
}

#[test]
fn test_promotion_replaces_the_pawn() {
    let fen = String::from("8/P7/8/8/8/8/k6K/8 w - - 0 1");
    let mut pos = Position::load_from_fen(fen).unwrap();
    pos.make_move(MoveInfo {
        frm: 0x60,
        to: 0x70,
        flag: MoveFlag::PR_QUEEN,
    });
    assert_eq!(pos.convert_to_fen_string(), "Q7/8/8/8/8/8/k6K/8 b - - 0 1");
}

#[test]
fn test_stalemate_and_checkmate_have_no_moves() {
    let stalemate = Position::load_from_fen(String::from("7k/5Q2/6K1/8/8/8/8/8 b - - 0 1")).unwrap();
    assert_eq!(get_moves(&stalemate, &Color::BLACK).len(), 0);
    let mated = Position::load_from_fen(String::from(
        "rnb1kbnr/pppp1ppp/8/4p3/6Pq/5P2/PPPPP2P/RNBQKBNR w KQkq - 0 3",
    ))
    .unwrap();
    assert_eq!(get_moves(&mated, &Color::WHITE).len(), 0);
}

#[test]
fn test_start_position_has_twenty_moves() {
    let pos = Position::new();
    let moves = get_moves(&pos, &Color::WHITE);
    assert_eq!(moves.len(), 20);
}

#[test]
fn test_describe_names_squares_and_flag() {
    let m = MoveInfo {
        frm: 0x14,
        to: 0x34,
        flag: MoveFlag::DOUBLE_PUSH,
    };
    assert_eq!(m.describe(), "e2e4 DOUBLE_PUSH");
    let c = MoveInfo {
        frm: 0x74,
        to: 0x72,
        flag: MoveFlag::OOO,
    };
    assert_eq!(c.describe(), "e8c8 OOO");
}

#[test]
fn test_black_queenside_castle() {
    let fen = String::from("r3k2r/p1ppqpb1/bn2pnp1/3PN3/1p2P3/2N2Q1p/PPPBBPPP/R3K2R b KQkq - 0 1");
    let mut pos = Position::load_from_fen(fen).unwrap();
    let moves = get_moves(&pos, &Color::BLACK);
    let castle = MoveInfo {
        frm: 0x74,
        to: 0x72,
        flag: MoveFlag::OOO,
    };
    assert!(moves.contains(&castle));
    pos.make_move(castle);
    assert_eq!(
        pos.convert_to_fen_string(),
        "2kr3r/p1ppqpb1/bn2pnp1/3PN3/1p2P3/2N2Q1p/PPPBBPPP/R3K2R w KQ - 1 2"
    );
}

#[test]
fn test_promotion_capture_offers_four_pieces() {
    // A white pawn on b7 can capture the rook on a8 or c8, or push to b8.
    let pos = Position::load_from_fen(String::from("r1r5/1P6/8/8/8/8/k6K/8 w - - 0 1")).unwrap();
    let moves = get_moves(&pos, &Color::WHITE);
    // Three destinations with four promotion pieces each, plus five king moves.
    assert_eq!(moves.len(), 12 + 5);
    let captures = moves
        .iter()
        .filter(|m| m.frm == 0x61 && m.to == 0x70)
        .count();
    assert_eq!(captures, 4);
}

#[test]
fn test_castling_rights_table_access() {
    let pos = Position::load_from_fen(String::from(
        "rnbq1k1r/pp1Pbppp/2p5/8/2B5/8/PPP1NnPP/RNBQK2R w KQ - 1 8",
    ))
    .unwrap();
    let cr = pos.information.castling_rights;
    // Row by color bit, column 0 queenside and 1 kingside.
    assert!(cr.get(Color::WHITE.convert_to_bit(), 0));
    assert!(cr.get(Color::WHITE.convert_to_bit(), 1));
    assert!(!cr.get(Color::BLACK.convert_to_bit(), 0));
    assert!(!cr.get(Color::BLACK.convert_to_bit(), 1));
}

#[test]
fn test_half_move_clock_counts_and_resets() {
    let mut pos = Position::load_from_fen(String::from(
        "rnbqkbnr/pppppppp/8/8/8/8/PPPPPPPP/RNBQKBNR w KQkq - 7 5",
    ))
    .unwrap();
    // A knight move counts toward the fifty-move rule.
    pos.make_move(MoveInfo {
        frm: 0x06,
        to: 0x25,
        flag: MoveFlag::QUIET,
    });
    assert_eq!(pos.information.half_move_clock, 8);
    // A pawn move resets the clock.
    pos.make_move(MoveInfo {
        frm: 0x64,
        to: 0x54,
        flag: MoveFlag::QUIET,
    });
    assert_eq!(pos.information.half_move_clock, 0);
    assert_eq!(pos.information.full_move_clock, 6);
}
