//! The board, the pieces and the state of a game.

use vstd::prelude::*;

pub mod laws;
pub mod model;

mod check;
mod moves;
mod play;

verus! {

/// The two sides.
#[derive(Clone, Copy, PartialEq, Eq, Debug, Structural)]
pub enum Color {
    White,
    Black,
}

impl Color {
    /// 0 for White, 1 for Black: the slot of this side in per-side tables.
    pub open spec fn index(self) -> int {
        match self {
            Color::White => 0,
            Color::Black => 1,
        }
    }

    /// The other side.
    pub open spec fn opponent_spec(self) -> Color {
        match self {
            Color::White => Color::Black,
            Color::Black => Color::White,
        }
    }

    /// The other side.
    #[verifier::when_used_as_spec(opponent_spec)]
    pub fn opponent(self) -> (c: Color)
        ensures
            c == self.opponent_spec(),
    {
        match self {
            Color::White => Color::Black,
            Color::Black => Color::White,
        }
    }
}

impl From<Color> for usize {
    /// The slot of a side in per-side tables: 0 for White, 1 for Black.
    fn from(color: Color) -> (i: usize) {
        match color {
            Color::White => 0,
            Color::Black => 1,
        }
    }
}

impl vstd::std_specs::convert::FromSpecImpl<Color> for usize {
    open spec fn obeys_from_spec() -> bool {
        true
    }

    open spec fn from_spec(color: Color) -> usize {
        color.index() as usize
    }
}

/// The six kinds of piece.
#[derive(Clone, Copy, PartialEq, Eq, Debug, Structural)]
pub enum PieceType {
    Pawn,
    Bishop,
    Knight,
    Rook,
    Queen,
    King,
}

/// A piece of a side.
#[derive(Clone, Copy, PartialEq, Eq, Debug, Structural)]
pub struct Piece {
    pub color: Color,
    pub piece_type: PieceType,
}

impl Piece {
    pub fn new(color: Color, piece_type: PieceType) -> (p: Piece)
        ensures
            p == (Piece { color, piece_type }),
    {
        Piece { color, piece_type }
    }
}

/// What a square holds: a piece, or nothing.
pub type Square = Option<Piece>;

/// A square by its file and its rank, each counted from 0; file 0 is the
/// a-file and rank 0 is White's back rank.
pub type Position = (u8, u8);

/// A move from one square to another. Promotion is not represented.
#[derive(Clone, Copy, PartialEq, Eq, Debug)]
pub struct Move {
    pub src: Position,
    pub dst: Position,
}

/// Sixty-four squares; the square on file `x` and rank `y` is cell `y * 8 + x`.
#[derive(Clone, Debug)]
pub struct Board(pub [Square; 64]);

impl View for Board {
    type V = Seq<Square>;

    open spec fn view(&self) -> Seq<Square> {
        self.0@
    }
}

impl Board {
    /// A board with no piece on it.
    pub fn new() -> (b: Board)
        ensures
            b@ == model::empty_grid(),
    {
        Board([None;64])
    }

    /// Sets up the starting position.
    pub fn init(&mut self)
        ensures
            final(self)@ == model::initial_grid(),
    {
        let mut x: u8 = 0;
        while x < 8
            invariant
                x <= 8,
                forall|a: int, b: int|
                    0 <= a < x && (b == 0 || b == 1 || b == 6 || b == 7) ==> model::at(self@, a, b)
                        == model::initial_square(a, b),
            decreases 8 - x,
        {
            let piece_type = if x == 0 || x == 7 {
                PieceType::Rook
            } else if x == 1 || x == 6 {
                PieceType::Knight
            } else if x == 2 || x == 5 {
                PieceType::Bishop
            } else if x == 3 {
                PieceType::Queen
            } else {
                PieceType::King
            };
            self.set_square(x, 0, Some(Piece::new(Color::White, piece_type)));
            self.set_square(x, 1, Some(Piece::new(Color::White, PieceType::Pawn)));
            self.set_square(x, 7, Some(Piece::new(Color::Black, piece_type)));
            self.set_square(x, 6, Some(Piece::new(Color::Black, PieceType::Pawn)));
            x = x + 1;
        }
        let mut x: u8 = 0;
        while x < 8
            invariant
                x <= 8,
                forall|a: int, b: int|
                    0 <= a < 8 && (b == 0 || b == 1 || b == 6 || b == 7) ==> model::at(self@, a, b)
                        == model::initial_square(a, b),
                forall|a: int, b: int|
                    0 <= a < x && 2 <= b < 6 ==> model::at(self@, a, b) == model::initial_square(
                        a,
                        b,
                    ),
            decreases 8 - x,
        {
            let mut y: u8 = 2;
            while y < 6
                invariant
                    x < 8,
                    2 <= y <= 6,
                    forall|a: int, b: int|
                        0 <= a < 8 && (b == 0 || b == 1 || b == 6 || b == 7) ==> model::at(
                            self@,
                            a,
                            b,
                        ) == model::initial_square(a, b),
                    forall|a: int, b: int|
                        0 <= a < x && 2 <= b < 6 ==> model::at(self@, a, b)
                            == model::initial_square(a, b),
                    forall|b: int|
                        2 <= b < y ==> model::at(self@, x as int, b) == model::initial_square(
                            x as int,
                            b,
                        ),
                decreases 6 - y,
            {
                self.set_square(x, y, None);
                y = y + 1;
            }
            x = x + 1;
        }
    }

    /// What stands on file `x`, rank `y`.
    pub fn get_square(&self, x: u8, y: u8) -> (s: Square)
        requires
            x < 8,
            y < 8,
        ensures
            s == model::at(self@, x as int, y as int),
    {
        self.0[(y * 8 + x) as usize]
    }

    /// Puts `square` on file `x`, rank `y`, in place of what stands there.
    pub fn set_square(&mut self, x: u8, y: u8, square: Square)
        requires
            x < 8,
            y < 8,
        ensures
            final(self)@ == model::put(old(self)@, x as int, y as int, square),
    {
        self.0[(y * 8 + x) as usize] = square;
    }
}

/// A game in progress. `castling_rights` has one entry per side, at
/// `Color::index`; `until_stalemate` counts the plies since the last capture
/// or pawn move.
#[derive(Clone, Debug)]
pub struct Game {
    pub board: Board,
    pub total_moves: usize,
    pub until_stalemate: usize,
    pub en_passant: u8,
    pub castling_rights: [bool; 2],
    pub turn: Color,
    pub moves: Vec<Move>,
}

impl Default for Game {
    /// The starting position, White to move, both sides free to castle.
    fn default() -> (g: Game)
        ensures
            g.board@ == model::initial_grid(),
            g.total_moves == 0,
            g.until_stalemate == 0,
            g.en_passant == 0,
            g.castling_rights@ == seq![true, true],
            g.turn == Color::White,
            g.moves@ == Seq::<Move>::empty(),
    {
        let mut board = Board::new();
        board.init();
        Game {
            board,
            total_moves: 0,
            until_stalemate: 0,
            turn: Color::White,
            en_passant: 0,
            castling_rights: [true, true],
            moves: Vec::new(),
        }
    }
}

impl Game {
    /// The move is pseudo-legal in this position.
    pub open spec fn legal(&self, sx: int, sy: int, dx: int, dy: int) -> bool {
        model::pseudo_legal(self.board@, self.castling_rights@, sx, sy, dx, dy)
    }

    /// The side's king is attacked in this position.
    pub open spec fn in_check(&self, color: Color) -> bool {
        model::in_check(self.board@, self.castling_rights@, color)
    }

    /// Each side has its one king, and the side that has just moved is not
    /// in check. This holds at the start of a game and after every safe
    /// move made in turn.
    pub open spec fn sound(&self) -> bool {
        &&& model::lone_king(self.board@, Color::White)
        &&& model::lone_king(self.board@, Color::Black)
        &&& !self.in_check(self.turn.opponent())
    }

    /// This game is `prev` after the move has been played in it.
    pub open spec fn follows(&self, prev: Game, sx: int, sy: int, dx: int, dy: int) -> bool {
        &&& self.board@ == model::played(prev.board@, sx, sy, dx, dy)
        &&& forall|c: Color|
            (#[trigger] self.castling_rights@[c.index()]) == (prev.castling_rights@[c.index()]
                && model::keeps_right(model::at(prev.board@, sx, sy)->0, c))
        &&& self.until_stalemate == (if model::irreversible(prev.board@, sx, sy, dx, dy) {
            0
        } else {
            prev.until_stalemate + 1
        })
        &&& self.total_moves == prev.total_moves + 1
        &&& self.moves@ == prev.moves@.push(Move { src: (sx as u8, sy as u8), dst: (dx as u8, dy as u8) })
        &&& self.turn == prev.turn.opponent()
        &&& self.en_passant == prev.en_passant
    }

    /// The move is pseudo-legal and does not leave the mover's king in check.
    pub open spec fn safe(&self, sx: int, sy: int, dx: int, dy: int) -> bool {
        model::safe(self.board@, self.castling_rights@, sx, sy, dx, dy)
    }
}

} // verus!
