use protobot_chess::board::PieceType;
use protobot_chess::error::ChessError;
use protobot_chess::notation::{parse_move, MoveIntent, ParsedMove};
use protobot_chess::square::Square;

fn piece_move(typ: PieceType, x: u8, y: u8, f: Option<u8>, r: Option<u8>) -> MoveIntent {
    MoveIntent::Piece { typ, dst: Square::new(x, y), src_file: f, src_rank: r }
}

#[test]
fn parses_pawn_moves() {
    assert_eq!(parse_move("e4"), Ok(ParsedMove { intent: piece_move(PieceType::Pawn, 4, 3, None, None), promotion: None }));
    assert_eq!(parse_move("exd5").unwrap().intent, piece_move(PieceType::Pawn, 3, 4, Some(4), None));
    assert_eq!(parse_move("ed5").unwrap().intent, piece_move(PieceType::Pawn, 3, 4, Some(4), None));
    assert_eq!(parse_move("bxc3").unwrap().intent, piece_move(PieceType::Pawn, 2, 2, Some(1), None));
    assert_eq!(parse_move("Pe4").unwrap().intent, piece_move(PieceType::Pawn, 4, 3, None, None));
}

#[test]
fn parses_piece_moves_and_qualifiers() {
    assert_eq!(parse_move("Nf3").unwrap().intent, piece_move(PieceType::Knight, 5, 2, None, None));
    assert_eq!(parse_move("nf3").unwrap().intent, piece_move(PieceType::Knight, 5, 2, None, None));
    assert_eq!(parse_move("Bxc4").unwrap().intent, piece_move(PieceType::Bishop, 2, 3, None, None));
    assert_eq!(parse_move("Nge4").unwrap().intent, piece_move(PieceType::Knight, 4, 3, Some(6), None));
    assert_eq!(parse_move("N3e4").unwrap().intent, piece_move(PieceType::Knight, 4, 3, None, Some(2)));
    assert_eq!(parse_move("Rhxe1").unwrap().intent, piece_move(PieceType::Rook, 4, 0, Some(7), None));
    assert_eq!(parse_move("Qh4#").unwrap().intent, piece_move(PieceType::Queen, 7, 3, None, None));
    assert_eq!(parse_move("Kd2++").unwrap().intent, piece_move(PieceType::King, 3, 1, None, None));
}

#[test]
fn parses_castling_longest_first() {
    assert_eq!(parse_move("0-0").unwrap().intent, MoveIntent::Castle { kingside: true });
    assert_eq!(parse_move("0-0-0").unwrap().intent, MoveIntent::Castle { kingside: false });
    assert_eq!(parse_move("0-0+").unwrap().intent, MoveIntent::Castle { kingside: true });
}

#[test]
fn parses_promotion() {
    let m = parse_move("e8=Q+").unwrap();
    assert_eq!(m.intent, piece_move(PieceType::Pawn, 4, 7, None, None));
    assert_eq!(m.promotion, Some(PieceType::Queen));
    assert_eq!(parse_move("a1=n").unwrap().promotion, Some(PieceType::Knight));
    let s = parse_move("e7e8=R").unwrap();
    assert_eq!(s.intent, MoveIntent::Squares { src: Square::new(4, 6), dst: Square::new(4, 7) });
    assert_eq!(s.promotion, Some(PieceType::Rook));
}

#[test]
fn parses_simple_notation() {
    let want = MoveIntent::Squares { src: Square::new(6, 0), dst: Square::new(5, 2) };
    for text in ["g1f3", "g1-f3", "g1 f3", "g1xf3", "g1Xf3"] {
        assert_eq!(parse_move(text).unwrap().intent, want);
    }
    assert_eq!(parse_move("b1c3").unwrap().intent, MoveIntent::Squares { src: Square::new(1, 0), dst: Square::new(2, 2) });
}

#[test]
fn rejects_malformed_text() {
    for text in ["", "e", "e9", "i4", "Nf", "Zf3", "0-0-0-0", "e4=K", "e2e4+", "g1/f3", "e4 ", "Nbc1d2", "é4"] {
        assert_eq!(parse_move(text), Err(ChessError::SyntaxError), "{}", text);
    }
}

#[test]
fn squares_pack_file_and_rank() {
    let s = Square::new(4, 1);
    assert!(s.is_valid());
    assert_eq!((s.x(), s.y()), (4, 1));
    assert_eq!(Square::new(7, 7).0, 0x77);
    assert!(Square::invalid().is_invalid());
}
