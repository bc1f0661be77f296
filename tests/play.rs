use protobot_chess::board::{board_fen, Piece, PieceType};
use protobot_chess::error::ChessError;
use protobot_chess::rules::{checked_king_square, is_attacked, CastleState, ChessGame};
use protobot_chess::session::{new_game, ChessState};
use protobot_chess::square::Square;
use protobot_chess::status::{classify, GameStatus};

const WHITE: u64 = 11;
const BLACK: u64 = 22;

fn started() -> ChessState {
    let mut state = ChessState::new();
    assert_eq!(state.start_game(WHITE, BLACK, true), Ok(()));
    state
}

fn play(state: &mut ChessState, moves: &[&str]) {
    for (i, m) in moves.iter().enumerate() {
        let user = if i % 2 == 0 { WHITE } else { BLACK };
        let result = state.apply_move(user, m);
        assert!(result.is_ok(), "move {} ({}) failed: {:?}", i, m, result.err());
    }
}

fn piece(typ: PieceType, black: bool) -> Option<Piece> {
    Some(Piece { typ, black })
}

fn at(game: &ChessGame, x: u8, y: u8) -> Option<Piece> {
    *Square::new(x, y).get(&game.board)
}

fn empty_game(black_to_move: bool) -> ChessGame {
    let mut game = new_game(WHITE, BLACK);
    game.board = [[None; 8]; 8];
    game.castle_state = (
        CastleState { queenside: false, kingside: false },
        CastleState { queenside: false, kingside: false },
    );
    game.black_to_move = black_to_move;
    game
}

#[test]
fn pawn_double_step_sets_en_passant_for_one_ply() {
    let mut state = started();
    let report = state.apply_move(WHITE, "e4").unwrap();
    assert_eq!(report.status, GameStatus::Ongoing);
    assert_eq!(report.game.en_passant_square, Square::new(4, 2));
    assert_eq!(at(&report.game, 4, 3), piece(PieceType::Pawn, false));
    assert_eq!(at(&report.game, 4, 1), None);
    assert!(report.game.black_to_move);
    assert_eq!(report.game.last_move, (Square::new(4, 1), Square::new(4, 3)));
    let reply = state.apply_move(BLACK, "Nf6").unwrap();
    assert!(reply.game.en_passant_square.is_invalid());
    assert!(!reply.game.black_to_move);
}

#[test]
fn en_passant_capture_right_after_double_step() {
    let mut state = started();
    play(&mut state, &["e4", "a6", "e5", "d5"]);
    let report = state.apply_move(WHITE, "exd6").unwrap();
    assert_eq!(at(&report.game, 3, 5), piece(PieceType::Pawn, false));
    assert_eq!(at(&report.game, 3, 4), None);
    assert_eq!(at(&report.game, 4, 4), None);
}

#[test]
fn en_passant_capture_not_one_ply_late() {
    let mut state = started();
    play(&mut state, &["e4", "a6", "e5", "d5", "Nf3", "a5"]);
    assert_eq!(state.apply_move(WHITE, "exd6").err(), Some(ChessError::InvalidMove));
    assert_eq!(state.apply_move(WHITE, "e5d6").err(), Some(ChessError::IllegalMove));
}

#[test]
fn kingside_castling_moves_king_and_rook() {
    let mut state = started();
    play(&mut state, &["e4", "e5", "Nf3", "Nc6", "Bc4", "Bc5"]);
    let report = state.apply_move(WHITE, "0-0").unwrap();
    assert_eq!(at(&report.game, 6, 0), piece(PieceType::King, false));
    assert_eq!(at(&report.game, 5, 0), piece(PieceType::Rook, false));
    assert_eq!(at(&report.game, 4, 0), None);
    assert_eq!(at(&report.game, 7, 0), None);
    assert!(!report.game.castle_state.0.kingside);
    assert!(!report.game.castle_state.0.queenside);
    assert!(report.game.castle_state.1.kingside);
}

#[test]
fn castling_through_attacked_square_is_illegal() {
    let mut state = started();
    play(&mut state, &["e4", "b6", "Be2", "Ba6", "Bg4", "e6", "Nf3", "Nc6"]);
    let before = state.clone();
    assert_eq!(state.apply_move(WHITE, "0-0").err(), Some(ChessError::IllegalMove));
    assert_eq!(state, before);
}

#[test]
fn queenside_castling_needs_its_right() {
    let mut state = started();
    play(&mut state, &["d4", "d5", "Nc3", "Nc6", "Bf4", "Bf5", "Qd2", "Qd7", "Rb1", "Rb8"]);
    assert_eq!(state.apply_move(WHITE, "0-0-0").err(), Some(ChessError::IllegalMove));
    play(&mut state, &["Ra1"]);
    assert_eq!(state.apply_move(BLACK, "0-0-0").err(), Some(ChessError::IllegalMove));
}

#[test]
fn fools_mate_is_checkmate() {
    let mut state = started();
    play(&mut state, &["f3", "e5", "g4"]);
    let report = state.apply_move(BLACK, "Qh4#").unwrap();
    assert_eq!(report.status, GameStatus::Checkmate);
    assert!(state.get_game(WHITE).is_none());
    assert!(state.get_game(BLACK).is_none());
    assert_eq!(classify(&report.game), GameStatus::Checkmate);
    assert_eq!(checked_king_square(&report.game), Some(Square::new(4, 0)));
}

#[test]
fn classify_twice_gives_the_same_status() {
    let mut state = started();
    play(&mut state, &["e4", "e5"]);
    let game = *state.get_game(WHITE).unwrap();
    assert_eq!(classify(&game), GameStatus::Ongoing);
    assert_eq!(classify(&game), classify(&game));
}

#[test]
fn stalemate_is_detected() {
    let mut game = empty_game(true);
    game.board[7][0] = piece(PieceType::King, true);
    game.board[5][1] = piece(PieceType::Queen, false);
    game.board[0][7] = piece(PieceType::King, false);
    assert_eq!(classify(&game), GameStatus::Stalemate);
}

#[test]
fn promotion_needs_and_uses_its_piece() {
    let mut game = empty_game(false);
    game.board[6][0] = piece(PieceType::Pawn, false);
    game.board[0][4] = piece(PieceType::King, false);
    game.board[7][7] = piece(PieceType::King, true);
    let mut state = ChessState::new();
    state.games.push(game);
    assert_eq!(state.apply_move(WHITE, "a8").err(), Some(ChessError::MissingPromotion));
    assert_eq!(state.apply_move(WHITE, "Ke2=Q").err(), Some(ChessError::UnexpectedPromotion));
    let report = state.apply_move(WHITE, "a8=N").unwrap();
    assert_eq!(at(&report.game, 0, 7), piece(PieceType::Knight, false));
    assert_eq!(report.game.promote_piece, None);
}

#[test]
fn moving_into_check_is_illegal() {
    let mut game = empty_game(false);
    game.board[0][4] = piece(PieceType::King, false);
    game.board[7][5] = piece(PieceType::Rook, true);
    game.board[7][7] = piece(PieceType::King, true);
    let mut state = ChessState::new();
    state.games.push(game);
    assert_eq!(state.apply_move(WHITE, "Kf1").err(), Some(ChessError::IllegalMove));
    assert!(state.apply_move(WHITE, "Kd1").is_ok());
}

#[test]
fn two_knights_need_a_qualifier() {
    let mut state = started();
    play(&mut state, &["d4", "a6", "Nf3", "a5"]);
    assert_eq!(state.apply_move(WHITE, "Nd2").err(), Some(ChessError::AmbiguousMove));
    assert_eq!(state.apply_move(WHITE, "Ned2").err(), Some(ChessError::InvalidMove));
    assert_eq!(state.apply_move(WHITE, "N2d2").err(), Some(ChessError::InvalidMove));
    let report = state.apply_move(WHITE, "Nbd2").unwrap();
    assert_eq!(at(&report.game, 3, 1), piece(PieceType::Knight, false));
    assert_eq!(at(&report.game, 1, 0), None);
    assert_eq!(at(&report.game, 5, 2), piece(PieceType::Knight, false));
}

#[test]
fn rank_qualifier_picks_a_knight() {
    let mut state = started();
    play(&mut state, &["d4", "a6", "Nf3", "a5"]);
    let report = state.apply_move(WHITE, "N3d2").unwrap();
    assert_eq!(at(&report.game, 3, 1), piece(PieceType::Knight, false));
    assert_eq!(at(&report.game, 5, 2), None);
    assert_eq!(at(&report.game, 1, 0), piece(PieceType::Knight, false));
}

#[test]
fn wrong_turn_and_not_in_game() {
    let mut state = started();
    assert_eq!(state.apply_move(BLACK, "e5").err(), Some(ChessError::WrongTurn));
    assert_eq!(state.apply_move(99, "e4").err(), Some(ChessError::NotInGame));
    assert_eq!(state.apply_move(WHITE, "e5").err(), Some(ChessError::InvalidMove));
    assert_eq!(state.apply_move(WHITE, "hello").err(), Some(ChessError::SyntaxError));
    assert_eq!(state.apply_move(WHITE, "e3e4").err(), Some(ChessError::InvalidMove));
    assert_eq!(state.apply_move(WHITE, "e7e5").err(), Some(ChessError::InvalidMove));
}

#[test]
fn simple_notation_moves() {
    let mut state = started();
    play(&mut state, &["e2e4", "e7-e5", "g1 f3", "b8c6"]);
    let game = state.get_game(WHITE).unwrap();
    assert_eq!(at(game, 5, 2), piece(PieceType::Knight, false));
    assert_eq!(at(game, 2, 5), piece(PieceType::Knight, true));
}

#[test]
fn fen_of_start_and_after_e4() {
    let game = new_game(WHITE, BLACK);
    assert_eq!(board_fen(&game.board), "rnbqkbnr/pppppppp/8/8/8/8/PPPPPPPP/RNBQKBNR");
    let mut state = started();
    let report = state.apply_move(WHITE, "e4").unwrap();
    assert_eq!(board_fen(&report.game.board), "rnbqkbnr/pppppppp/8/8/4P3/8/PPPP1PPP/RNBQKBNR");
}

#[test]
fn fen_of_empty_board() {
    let game = empty_game(false);
    assert_eq!(board_fen(&game.board), "8/8/8/8/8/8/8/8");
}

#[test]
fn get_mut_writes_one_cell() {
    let mut board = new_game(WHITE, BLACK).board;
    *Square::new(4, 1).get_mut(&mut board) = None;
    Square::new(4, 3).set(&mut board, piece(PieceType::Pawn, false));
    assert_eq!(board[1][4], None);
    assert_eq!(board[3][4], piece(PieceType::Pawn, false));
    assert_eq!(*Square::new(4, 3).get(&board), piece(PieceType::Pawn, false));
    assert_eq!(board_fen(&board), "rnbqkbnr/pppppppp/8/8/4P3/8/PPPP1PPP/RNBQKBNR");
}

#[test]
fn attacks_seen_from_the_side_to_move() {
    let game = new_game(WHITE, BLACK);
    assert!(is_attacked(Square::new(5, 5), &game));
    assert!(is_attacked(Square::new(7, 5), &game));
    assert!(!is_attacked(Square::new(4, 3), &game));
    assert!(!is_attacked(Square::new(4, 2), &game));
    assert_eq!(checked_king_square(&game), None);
}
