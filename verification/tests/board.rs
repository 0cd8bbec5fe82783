use boids::model::{
    can_eat, can_move, create_board, is_diagonal_movement, try_move, Game, MoveResult, Piece,
    PieceType, TileColor,
};

fn white(x: i16, y: i16) -> Piece {
    Piece { piece_type: PieceType::WhitePiece, x, y }
}

fn black(x: i16, y: i16) -> Piece {
    Piece { piece_type: PieceType::BlackPiece, x, y }
}

#[test]
fn diagonal_steps_change_both_coordinates() {
    assert!(is_diagonal_movement(1, -1));
    assert!(is_diagonal_movement(-2, 2));
    assert!(!is_diagonal_movement(0, 1));
    assert!(!is_diagonal_movement(1, 0));
    assert!(!is_diagonal_movement(0, 0));
}

#[test]
fn white_walks_straight_and_captures_diagonally() {
    assert!(can_move(PieceType::WhitePiece, false));
    assert!(!can_move(PieceType::WhitePiece, true));
    assert!(can_eat(PieceType::WhitePiece, true));
    assert!(!can_eat(PieceType::WhitePiece, false));
}

#[test]
fn black_walks_diagonally_and_captures_straight() {
    assert!(can_move(PieceType::BlackPiece, true));
    assert!(!can_move(PieceType::BlackPiece, false));
    assert!(can_eat(PieceType::BlackPiece, false));
    assert!(!can_eat(PieceType::BlackPiece, true));
}

#[test]
fn new_board_is_chequered_with_white_corners() {
    let game = create_board();
    for row in 0..3 {
        for column in 0..3 {
            let tile = game.tiles[row][column];
            let expected = if (row + column) % 2 == 0 { TileColor::White } else { TileColor::Black };
            assert_eq!(tile.color(), expected);
            assert_eq!(tile.color, expected);
            assert_eq!(tile.advice(), None);
            assert!(tile.passable());
        }
    }
}

#[test]
fn new_board_has_the_three_opening_pieces() {
    let game = create_board();
    assert_eq!(game.pieces, vec![white(1, 1), white(2, 2), black(2, 1)]);
    assert_eq!(Game::MAX_X, 2);
    assert_eq!(Game::MAX_Y, 2);
}

#[test]
fn step_off_the_board_does_nothing() {
    let pieces: Vec<(u32, Piece)> = vec![(1, white(2, 2))];
    assert_eq!(try_move(white(2, 2), 1, 0, pieces.clone().into_iter()), MoveResult::Nothing);
    assert_eq!(try_move(white(0, 0), 0, -1, pieces.clone().into_iter()), MoveResult::Nothing);
    assert_eq!(try_move(white(0, 0), -1, 0, pieces.clone().into_iter()), MoveResult::Nothing);
    assert_eq!(try_move(white(2, 2), 0, 1, pieces.into_iter()), MoveResult::Nothing);
}

#[test]
fn step_far_beyond_the_number_range_does_nothing() {
    let pieces: Vec<(u32, Piece)> = Vec::new();
    assert_eq!(
        try_move(white(i16::MAX, 0), i16::MAX, 0, pieces.clone().into_iter()),
        MoveResult::Nothing
    );
    assert_eq!(
        try_move(white(i16::MIN, 0), -i16::MAX, 0, pieces.into_iter()),
        MoveResult::Nothing
    );
}

#[test]
fn white_moves_straight_to_a_free_square() {
    let pieces: Vec<(u32, Piece)> = vec![(1, white(1, 1)), (2, black(2, 2))];
    assert_eq!(try_move(white(1, 1), 1, 0, pieces.clone().into_iter()), MoveResult::Move);
    assert_eq!(try_move(white(1, 1), 0, -1, pieces.clone().into_iter()), MoveResult::Move);
    assert_eq!(try_move(white(1, 1), -1, 1, pieces.into_iter()), MoveResult::Nothing);
}

#[test]
fn black_moves_diagonally_to_a_free_square() {
    let pieces: Vec<(u32, Piece)> = vec![(1, black(1, 1))];
    assert_eq!(try_move(black(1, 1), 1, 1, pieces.clone().into_iter()), MoveResult::Move);
    assert_eq!(try_move(black(1, 1), 1, 0, pieces.into_iter()), MoveResult::Nothing);
}

#[test]
fn white_captures_black_diagonally() {
    let pieces: Vec<(u32, Piece)> = vec![(1, white(1, 1)), (7, black(2, 2))];
    assert_eq!(
        try_move(white(1, 1), 1, 1, pieces.into_iter()),
        MoveResult::Control { id_to_control: 7 }
    );
}

#[test]
fn black_captures_white_straight() {
    let pieces: Vec<(&str, Piece)> = vec![("a", black(2, 1)), ("b", white(1, 1))];
    assert_eq!(
        try_move(black(2, 1), -1, 0, pieces.into_iter()),
        MoveResult::Control { id_to_control: "b" }
    );
}

#[test]
fn no_piece_captures_its_own_side_or_the_wrong_way() {
    let pieces: Vec<(u32, Piece)> = vec![(1, white(1, 1)), (2, white(2, 2)), (3, black(2, 1))];
    assert_eq!(try_move(white(1, 1), 1, 1, pieces.clone().into_iter()), MoveResult::Nothing);
    assert_eq!(try_move(white(1, 1), 1, 0, pieces.into_iter()), MoveResult::Nothing);
}

#[test]
fn the_first_piece_on_the_square_decides() {
    let pieces: Vec<(u32, Piece)> = vec![(4, white(2, 2)), (5, black(2, 2))];
    assert_eq!(try_move(white(1, 1), 1, 1, pieces.into_iter()), MoveResult::Nothing);
    let pieces: Vec<(u32, Piece)> = vec![(5, black(2, 2)), (4, white(2, 2))];
    assert_eq!(
        try_move(white(1, 1), 1, 1, pieces.into_iter()),
        MoveResult::Control { id_to_control: 5 }
    );
}

#[test]
fn a_piece_that_stays_meets_itself() {
    let pieces: Vec<(u32, Piece)> = vec![(1, white(1, 1))];
    assert_eq!(try_move(white(1, 1), 0, 0, pieces.into_iter()), MoveResult::Nothing);
}
