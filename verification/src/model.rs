//! The board, its pieces, and the rule that decides what a step of a piece does.
//!
//! The board has three columns and three rows. A white piece walks along a
//! row or a column and captures along a diagonal; a black piece does the
//! opposite. Squares are addressed by `(x, y)` with both coordinates between
//! zero and [`Game::MAX_X`] / [`Game::MAX_Y`].

use vstd::prelude::*;
use vstd::std_specs::iter::IteratorSpec;

verus! {

/// Colour of a square.
#[derive(Clone, Copy, Debug, PartialEq, Eq, Structural)]
pub enum TileColor {
    Black,
    White,
}

/// Hint that a square may show to the player.
#[derive(Clone, Copy, Debug, PartialEq, Eq, Structural)]
pub enum Advice {
    GetToCornerToWin,
    DoSomething,
    DoSomethingElse,
}

/// Side that a piece plays for.
#[derive(Clone, Copy, Debug, PartialEq, Eq, Structural)]
pub enum PieceType {
    BlackPiece,
    WhitePiece,
}

/// A piece and the square it stands on.
#[derive(Clone, Copy, Debug, PartialEq, Eq, Structural)]
pub struct Piece {
    pub piece_type: PieceType,
    pub x: i16,
    pub y: i16,
}

/// One square of the board.
#[derive(Clone, Copy, Debug)]
pub struct Tile {
    pub color: TileColor,
    advice: Option<Advice>,
    passable: bool,
}

/// The squares, row by row, and the pieces in play.
pub struct Game {
    pub tiles: [[Tile; 3]; 3],
    pub pieces: Vec<Piece>,
}

/// What a step of the selected piece leads to.
#[derive(Debug, PartialEq, Eq)]
pub enum MoveResult<PieceID> {
    /// The step captures the piece with this identity.
    Control { id_to_control: PieceID },
    /// The step goes to a free square.
    Move,
    /// The step is not allowed.
    Nothing,
}

impl Tile {
    /// The colour of this square.
    pub closed spec fn color_of(self) -> TileColor {
        self.color
    }

    /// The hint on this square, if it has one.
    pub closed spec fn advice_of(self) -> Option<Advice> {
        self.advice
    }

    /// Whether a piece may enter this square.
    pub closed spec fn is_passable(self) -> bool {
        self.passable
    }

    /// The colour of this square.
    pub fn color(&self) -> (color: TileColor)
        ensures
            color == self.color_of(),
    {
        self.color
    }

    /// The hint on this square, if it has one.
    pub fn advice(&self) -> (advice: Option<Advice>)
        ensures
            advice == self.advice_of(),
    {
        self.advice
    }

    /// Whether a piece may enter this square.
    pub fn passable(&self) -> (passable: bool)
        ensures
            passable == self.is_passable(),
    {
        self.passable
    }
}

impl Game {
    /// Largest column index of the board.
    pub const MAX_X: i16 = 2;

    /// Largest row index of the board.
    pub const MAX_Y: i16 = 2;
}

/// The colour of the square in row `row` and column `column`: the corners and
/// the centre are white, the other squares black.
pub open spec fn square_color(row: int, column: int) -> TileColor {
    if (row + column) % 2 == 0 {
        TileColor::White
    } else {
        TileColor::Black
    }
}

/// The pieces a new game starts with, in the order in which they are stored.
pub open spec fn opening_pieces() -> Seq<Piece> {
    seq![
        Piece { piece_type: PieceType::WhitePiece, x: 1, y: 1 },
        Piece { piece_type: PieceType::WhitePiece, x: 2, y: 2 },
        Piece { piece_type: PieceType::BlackPiece, x: 2, y: 1 },
    ]
}

/// Whether `(x, y)` is a square of the board.
pub open spec fn on_board(x: int, y: int) -> bool {
    0 <= x <= Game::MAX_X && 0 <= y <= Game::MAX_Y
}

/// Whether a step changes both coordinates.
pub open spec fn diagonal(x_offset: int, y_offset: int) -> bool {
    x_offset != 0 && y_offset != 0
}

/// Whether `player` may walk to a free square with a step of the given kind.
pub open spec fn walks(player: PieceType, is_diagonal_movement: bool) -> bool {
    match player {
        PieceType::BlackPiece => is_diagonal_movement,
        PieceType::WhitePiece => !is_diagonal_movement,
    }
}

/// Whether `player` may capture with a step of the given kind.
pub open spec fn captures(player: PieceType, is_diagonal_movement: bool) -> bool {
    match player {
        PieceType::BlackPiece => !is_diagonal_movement,
        PieceType::WhitePiece => is_diagonal_movement,
    }
}

/// Whether `piece` stands on `(x, y)`.
pub open spec fn stands_on(piece: Piece, x: int, y: int) -> bool {
    piece.x == x && piece.y == y
}

/// Whether no piece of `pieces` stands on `(x, y)`.
pub open spec fn square_is_free<PieceID>(pieces: Seq<(PieceID, Piece)>, x: int, y: int) -> bool {
    forall|k: int| 0 <= k < pieces.len() ==> !stands_on((#[trigger] pieces[k]).1, x, y)
}

/// Whether `pieces[at]` is the first piece of `pieces` that stands on `(x, y)`.
pub open spec fn first_on_square<PieceID>(
    pieces: Seq<(PieceID, Piece)>,
    at: int,
    x: int,
    y: int,
) -> bool {
    &&& 0 <= at < pieces.len()
    &&& stands_on(pieces[at].1, x, y)
    &&& forall|k: int| 0 <= k < at ==> !stands_on((#[trigger] pieces[k]).1, x, y)
}

/// What the step of `selected` by `(x_offset, y_offset)` leads to when the
/// target square is free.
pub open spec fn outcome_on_free_square<PieceID>(
    selected: Piece,
    x_offset: int,
    y_offset: int,
) -> MoveResult<PieceID> {
    if walks(selected.piece_type, diagonal(x_offset, y_offset)) {
        MoveResult::Move
    } else {
        MoveResult::Nothing
    }
}

/// What the step of `selected` by `(x_offset, y_offset)` leads to when
/// `occupant`, known as `id`, stands on the target square.
pub open spec fn outcome_on_occupied_square<PieceID>(
    selected: Piece,
    x_offset: int,
    y_offset: int,
    id: PieceID,
    occupant: Piece,
) -> MoveResult<PieceID> {
    if selected.piece_type != occupant.piece_type && captures(
        selected.piece_type,
        diagonal(x_offset, y_offset),
    ) {
        MoveResult::Control { id_to_control: id }
    } else {
        MoveResult::Nothing
    }
}

fn plain_tile(color: TileColor) -> (tile: Tile)
    ensures
        tile.color_of() == color,
        tile.advice_of() is None,
        tile.is_passable(),
{
    Tile { color, advice: None, passable: true }
}

/// Sets up a new game: a chequered board whose corners are white, every
/// square passable and without a hint, and the three opening pieces.
pub fn create_board() -> (game: Game)
    ensures
        game.pieces@ == opening_pieces(),
        forall|row: int, column: int|
            0 <= row < 3 && 0 <= column < 3 ==> {
                let tile = #[trigger] game.tiles[row][column];
                &&& tile.color_of() == square_color(row, column)
                &&& tile.advice_of() is None
                &&& tile.is_passable()
            },
{
    let white = plain_tile(TileColor::White);
    let black = plain_tile(TileColor::Black);
    let mut pieces: Vec<Piece> = Vec::new();
    pieces.push(Piece { piece_type: PieceType::WhitePiece, x: 1, y: 1 });
    pieces.push(Piece { piece_type: PieceType::WhitePiece, x: 2, y: 2 });
    pieces.push(Piece { piece_type: PieceType::BlackPiece, x: 2, y: 1 });
    let game = Game {
        tiles: [[white, black, white], [black, white, black], [white, black, white]],
        pieces,
    };
    assert(game.pieces@ =~= opening_pieces());
    game
}

/// Tells whether a step changes both coordinates.
pub fn is_diagonal_movement(x_offset: i16, y_offset: i16) -> (is_diagonal: bool)
    ensures
        is_diagonal == diagonal(x_offset as int, y_offset as int),
{
    x_offset != 0 && y_offset != 0
}

/// Tells whether `player` may walk to a free square: black along a diagonal,
/// white along a row or a column.
pub fn can_move(player: PieceType, is_diagonal_movement: bool) -> (allowed: bool)
    ensures
        allowed == walks(player, is_diagonal_movement),
{
    match player {
        PieceType::BlackPiece => is_diagonal_movement,
        PieceType::WhitePiece => !is_diagonal_movement,
    }
}

/// Tells whether `player` may capture: black along a row or a column, white
/// along a diagonal.
pub fn can_eat(player: PieceType, is_diagonal_movement: bool) -> (allowed: bool)
    ensures
        allowed == captures(player, is_diagonal_movement),
{
    match player {
        PieceType::BlackPiece => !is_diagonal_movement,
        PieceType::WhitePiece => is_diagonal_movement,
    }
}

/// Decides what the step of `selected` by `(x_offset, y_offset)` leads to,
/// given every piece in play together with its identity.
///
/// A step that leaves the board does nothing. A step to a free square is a
/// move if the piece may walk that way. A step to an occupied square looks at
/// the first piece of `pieces` found there: it is captured if it belongs to
/// the other side and the selected piece may capture that way.
pub fn try_move<EntityID, I>(selected: Piece, x_offset: i16, y_offset: i16, pieces: I) -> (result:
    MoveResult<EntityID>) where I: Iterator<Item = (EntityID, Piece)>
    requires
        pieces.obeys_prophetic_iter_laws(),
        pieces.decrease() is Some,
    ensures
        !on_board(selected.x + x_offset, selected.y + y_offset) ==> result == MoveResult::<
            EntityID,
        >::Nothing,
        on_board(selected.x + x_offset, selected.y + y_offset) && square_is_free(
            pieces.remaining(),
            selected.x + x_offset,
            selected.y + y_offset,
        ) ==> result == outcome_on_free_square::<EntityID>(
            selected,
            x_offset as int,
            y_offset as int,
        ),
        forall|at: int|
            on_board(selected.x + x_offset, selected.y + y_offset) && first_on_square(
                pieces.remaining(),
                at,
                selected.x + x_offset,
                selected.y + y_offset,
            ) ==> result == outcome_on_occupied_square(
                selected,
                x_offset as int,
                y_offset as int,
                pieces.remaining()[at].0,
                pieces.remaining()[at].1,
            ),
{
    let next_x: i32 = selected.x as i32 + x_offset as i32;
    let next_y: i32 = selected.y as i32 + y_offset as i32;
    let is_diagonal = is_diagonal_movement(x_offset, y_offset);
    if next_x > Game::MAX_X as i32 || next_x < 0 || next_y > Game::MAX_Y as i32 || next_y < 0 {
        return MoveResult::Nothing;
    }
    let mut rest = pieces;
    let ghost all = rest.remaining();
    let ghost mut seen: int = 0;
    loop
        invariant
            rest.obeys_prophetic_iter_laws(),
            rest.decrease() is Some,
            all == pieces.remaining(),
            0 <= seen <= all.len(),
            rest.remaining() == all.subrange(seen, all.len() as int),
            forall|k: int| 0 <= k < seen ==> !stands_on((#[trigger] all[k]).1, next_x as int, next_y as int),
            next_x == selected.x + x_offset,
            next_y == selected.y + y_offset,
            on_board(next_x as int, next_y as int),
            is_diagonal == diagonal(x_offset as int, y_offset as int),
        decreases rest.decrease()->0,
    {
        match rest.next() {
            None => {
                return if can_move(selected.piece_type, is_diagonal) {
                    MoveResult::Move
                } else {
                    MoveResult::Nothing
                };
            },
            Some((entity, piece)) => {
                assert(all[seen] == (entity, piece));
                if piece.x as i32 == next_x && piece.y as i32 == next_y {
                    assert(first_on_square(all, seen, next_x as int, next_y as int));
                    return if selected.piece_type != piece.piece_type && can_eat(
                        selected.piece_type,
                        is_diagonal,
                    ) {
                        MoveResult::Control { id_to_control: entity }
                    } else {
                        MoveResult::Nothing
                    };
                }
                proof {
                    seen = seen + 1;
                }
            },
        }
    }
}

} // verus!
