//! The rules of movement, stated over a grid of sixty-four squares.
//!
//! Coordinates are mathematical integers here; a file `x` and a rank `y`
//! name a square of the board when both lie in `0..8`.

use vstd::prelude::*;
use crate::chess::{Color, Piece, PieceType, Square};

verus! {

/// File `x` and rank `y` name a square of the board.
pub open spec fn on_board(x: int, y: int) -> bool {
    0 <= x < 8 && 0 <= y < 8
}

/// The place of a square in a grid: a grid is the view of a board, and lists
/// the squares rank by rank.
pub open spec fn cell(x: int, y: int) -> int {
    y * 8 + x
}

/// What stands on file `x`, rank `y`.
pub open spec fn at(g: Seq<Square>, x: int, y: int) -> Square {
    g[cell(x, y)]
}

/// The grid with `s` on file `x`, rank `y`, and all else as it was.
pub open spec fn put(g: Seq<Square>, x: int, y: int, s: Square) -> Seq<Square> {
    g.update(cell(x, y), s)
}

/// The grid of a board with no piece on it.
pub open spec fn empty_grid() -> Seq<Square> {
    Seq::new(64, |i: int| None::<Piece>)
}

/// The distance of a number from zero.
pub open spec fn abs(i: int) -> int {
    if i < 0 {
        -i
    } else {
        i
    }
}

/// How many steps a piece that moves along a line takes from the first
/// square to the second.
pub open spec fn reach(sx: int, sy: int, dx: int, dy: int) -> int {
    if abs(dx - sx) >= abs(dy - sy) {
        abs(dx - sx)
    } else {
        abs(dy - sy)
    }
}

/// The coordinate `k` steps from `s` in the direction of `d`.
pub open spec fn toward(s: int, d: int, k: int) -> int {
    if d > s {
        s + k
    } else if d < s {
        s - k
    } else {
        s
    }
}

/// What stands `k` steps along the line from the first square to the second.
pub open spec fn waypoint(g: Seq<Square>, sx: int, sy: int, dx: int, dy: int, k: int) -> Square {
    at(g, toward(sx, dx, k), toward(sy, dy, k))
}

/// Every square strictly between the two ends of the line is empty.
pub open spec fn path_clear(g: Seq<Square>, sx: int, sy: int, dx: int, dy: int) -> bool {
    forall|k: int| 1 <= k < reach(sx, sy, dx, dy) ==> (#[trigger] waypoint(g, sx, sy, dx, dy, k)) is None
}

/// The direction in which a side's pawns advance.
pub open spec fn advance(color: Color) -> int {
    match color {
        Color::White => 1,
        Color::Black => -1,
    }
}

/// The rank on which a side's pawns start.
pub open spec fn pawn_rank(color: Color) -> int {
    match color {
        Color::White => 1,
        Color::Black => 6,
    }
}

/// A pawn steps straight ahead onto an empty square, two squares from its
/// starting rank if the square it passes is empty too, and takes one square
/// diagonally ahead. En passant does not exist.
pub open spec fn pawn_rule(g: Seq<Square>, color: Color, sx: int, sy: int, dx: int, dy: int) -> bool {
    if at(g, dx, dy) is None {
        &&& dx == sx
        &&& {
            ||| dy - sy == advance(color)
            ||| {
                &&& dy - sy == 2 * advance(color)
                &&& sy == pawn_rank(color)
                &&& at(g, sx, sy + advance(color)) is None
            }
        }
    } else {
        abs(dx - sx) == 1 && dy - sy == advance(color)
    }
}

/// A knight goes two squares one way and one the other, over whatever
/// stands between.
pub open spec fn knight_rule(sx: int, sy: int, dx: int, dy: int) -> bool {
    ||| abs(dx - sx) == 2 && abs(dy - sy) == 1
    ||| abs(dx - sx) == 1 && abs(dy - sy) == 2
}

/// A bishop goes any number of squares along a diagonal, over empty squares
/// only.
pub open spec fn bishop_rule(g: Seq<Square>, sx: int, sy: int, dx: int, dy: int) -> bool {
    &&& abs(dx - sx) == abs(dy - sy)
    &&& abs(dx - sx) > 0
    &&& path_clear(g, sx, sy, dx, dy)
}

/// A rook goes any number of squares along a rank or a file, over empty
/// squares only.
pub open spec fn rook_rule(g: Seq<Square>, sx: int, sy: int, dx: int, dy: int) -> bool {
    &&& (dx == sx) != (dy == sy)
    &&& path_clear(g, sx, sy, dx, dy)
}

/// A queen goes as a bishop or as a rook.
pub open spec fn queen_rule(g: Seq<Square>, sx: int, sy: int, dx: int, dy: int) -> bool {
    bishop_rule(g, sx, sy, dx, dy) || rook_rule(g, sx, sy, dx, dy)
}

/// One square in any direction.
pub open spec fn king_step(sx: int, sy: int, dx: int, dy: int) -> bool {
    &&& abs(dx - sx) <= 1
    &&& abs(dy - sy) <= 1
    &&& !(dx == sx && dy == sy)
}

/// The file of the rook that castles with a king bound for file `dx`.
pub open spec fn corner(sx: int, dx: int) -> int {
    if dx < sx {
        0
    } else {
        7
    }
}

/// The king goes two files along its rank from the e-file, the side still
/// has the right, its own rook stands on the corner file on that side, and
/// every square between the two is empty. Whether a square is attacked is
/// not asked here.
pub open spec fn castling(
    g: Seq<Square>,
    rights: Seq<bool>,
    color: Color,
    sx: int,
    sy: int,
    dx: int,
    dy: int,
) -> bool {
    &&& rights[color.index()]
    &&& dy == sy
    &&& abs(dx - sx) == 2
    &&& sx == 4
    &&& at(g, corner(sx, dx), sy) == Some(Piece { color, piece_type: PieceType::Rook })
    &&& path_clear(g, sx, sy, corner(sx, dx), sy)
}

/// A king goes one square, or castles.
pub open spec fn king_rule(
    g: Seq<Square>,
    rights: Seq<bool>,
    color: Color,
    sx: int,
    sy: int,
    dx: int,
    dy: int,
) -> bool {
    king_step(sx, sy, dx, dy) || castling(g, rights, color, sx, sy, dx, dy)
}

/// The rule of movement of the piece `p`, standing on the first square.
pub open spec fn piece_rule(
    g: Seq<Square>,
    rights: Seq<bool>,
    p: Piece,
    sx: int,
    sy: int,
    dx: int,
    dy: int,
) -> bool {
    match p.piece_type {
        PieceType::Pawn => pawn_rule(g, p.color, sx, sy, dx, dy),
        PieceType::Bishop => bishop_rule(g, sx, sy, dx, dy),
        PieceType::Knight => knight_rule(sx, sy, dx, dy),
        PieceType::Rook => rook_rule(g, sx, sy, dx, dy),
        PieceType::Queen => queen_rule(g, sx, sy, dx, dy),
        PieceType::King => king_rule(g, rights, p.color, sx, sy, dx, dy),
    }
}

/// A move is pseudo-legal when both squares are on the board and differ,
/// the first holds a piece, the second does not hold a piece of the same
/// side, and the piece moves that way. The side to move is not asked, nor
/// whether the mover's king is left in check.
pub open spec fn pseudo_legal(
    g: Seq<Square>,
    rights: Seq<bool>,
    sx: int,
    sy: int,
    dx: int,
    dy: int,
) -> bool {
    &&& on_board(sx, sy)
    &&& on_board(dx, dy)
    &&& !(sx == dx && sy == dy)
    &&& at(g, sx, sy) matches Some(p)
    &&& (at(g, dx, dy) matches Some(q) ==> q.color != p.color)
    &&& piece_rule(g, rights, p, sx, sy, dx, dy)
}

/// The piece on file `x` of a side's back rank at the start of a game.
pub open spec fn back_rank(x: int) -> PieceType {
    if x == 0 || x == 7 {
        PieceType::Rook
    } else if x == 1 || x == 6 {
        PieceType::Knight
    } else if x == 2 || x == 5 {
        PieceType::Bishop
    } else if x == 3 {
        PieceType::Queen
    } else {
        PieceType::King
    }
}

/// What stands on a square at the start of a game.
pub open spec fn initial_square(x: int, y: int) -> Square {
    if y == 0 {
        Some(Piece { color: Color::White, piece_type: back_rank(x) })
    } else if y == 1 {
        Some(Piece { color: Color::White, piece_type: PieceType::Pawn })
    } else if y == 6 {
        Some(Piece { color: Color::Black, piece_type: PieceType::Pawn })
    } else if y == 7 {
        Some(Piece { color: Color::Black, piece_type: back_rank(x) })
    } else {
        None
    }
}

/// The grid at the start of a game.
pub open spec fn initial_grid() -> Seq<Square> {
    Seq::new(64, |i: int| initial_square(i % 8, i / 8))
}

/// The square holds a king of the side.
pub open spec fn is_king(g: Seq<Square>, color: Color, x: int, y: int) -> bool {
    at(g, x, y) == Some(Piece { color, piece_type: PieceType::King })
}

/// Some square of the board holds a king of the side.
pub open spec fn has_king(g: Seq<Square>, color: Color) -> bool {
    exists|x: int, y: int| on_board(x, y) && is_king(g, color, x, y)
}

/// The side has one king and no more.
pub open spec fn lone_king(g: Seq<Square>, color: Color) -> bool {
    exists|x: int, y: int|
        on_board(x, y) && #[trigger] is_king(g, color, x, y) && forall|a: int, b: int|
            on_board(a, b) && #[trigger] is_king(g, color, a, b) ==> a == x && b == y
}

/// The order in which the board is searched: file by file, and up each file.
pub open spec fn scans_before(x1: int, y1: int, x2: int, y2: int) -> bool {
    x1 < x2 || (x1 == x2 && y1 < y2)
}

/// The square holds a king of that side, and no square searched earlier does.
pub open spec fn first_king(g: Seq<Square>, color: Color, x: int, y: int) -> bool {
    &&& on_board(x, y)
    &&& is_king(g, color, x, y)
    &&& forall|a: int, b: int|
        on_board(a, b) && scans_before(a, b, x, y) ==> !#[trigger] is_king(g, color, a, b)
}

/// A piece of the other side stands on the first square and has a
/// pseudo-legal move to the second.
pub open spec fn threat(
    g: Seq<Square>,
    rights: Seq<bool>,
    color: Color,
    x: int,
    y: int,
    kx: int,
    ky: int,
) -> bool {
    &&& on_board(x, y)
    &&& at(g, x, y) matches Some(q)
    &&& q.color != color
    &&& pseudo_legal(g, rights, x, y, kx, ky)
}

/// Some piece of the other side threatens the square.
pub open spec fn attacked(g: Seq<Square>, rights: Seq<bool>, color: Color, kx: int, ky: int) -> bool {
    exists|x: int, y: int| threat(g, rights, color, x, y, kx, ky)
}

/// The side's king, the first one found if the board holds several, stands
/// on a square to which a piece of the other side has a pseudo-legal move.
/// A side without a king is never in check.
pub open spec fn in_check(g: Seq<Square>, rights: Seq<bool>, color: Color) -> bool {
    exists|kx: int, ky: int|
        first_king(g, color, kx, ky) && attacked(g, rights, color, kx, ky)
}

/// The grid after the piece on the first square has gone to the second.
pub open spec fn after_move(g: Seq<Square>, sx: int, sy: int, dx: int, dy: int) -> Seq<Square> {
    put(put(g, dx, dy, at(g, sx, sy)), sx, sy, None)
}

/// The grid with the piece of the first square standing on file `x` of the
/// same rank instead.
pub open spec fn shifted(g: Seq<Square>, sx: int, sy: int, x: int) -> Seq<Square> {
    put(put(g, sx, sy, None), x, sy, at(g, sx, sy))
}

/// `x` lies between `a` and `b`, both included, whichever is the larger.
pub open spec fn spans(a: int, b: int, x: int) -> bool {
    (a <= x <= b) || (b <= x <= a)
}

/// A move is safe when it is pseudo-legal and does not leave the mover's
/// king in check. A king that castles must not be in check on any square
/// from its own to its rook's, both included, standing there in turn with
/// the rest of the board as it is.
pub open spec fn safe(g: Seq<Square>, rights: Seq<bool>, sx: int, sy: int, dx: int, dy: int) -> bool {
    &&& pseudo_legal(g, rights, sx, sy, dx, dy)
    &&& at(g, sx, sy) matches Some(p)
    &&& if p.piece_type == PieceType::King && abs(dx - sx) == 2 {
        forall|x: int|
            spans(sx, corner(sx, dx), x) ==> !in_check(
                #[trigger] shifted(g, sx, sy, x),
                rights,
                p.color,
            )
    } else {
        !in_check(after_move(g, sx, sy, dx, dy), rights, p.color)
    }
}

/// The piece on the first square is a king bound two files away.
pub open spec fn king_leaps(g: Seq<Square>, sx: int, sy: int, dx: int) -> bool {
    at(g, sx, sy) matches Some(p) && p.piece_type == PieceType::King && abs(dx - sx) == 2
}

/// The grid once a move has been played: the piece stands on the second
/// square in place of what was there, and when a king has gone two files
/// the rook of that side's corner has come to stand next to it, from the
/// h-file to the f-file or from the a-file to the d-file.
pub open spec fn played(g: Seq<Square>, sx: int, sy: int, dx: int, dy: int) -> Seq<Square> {
    let moved = after_move(g, sx, sy, dx, dy);
    if king_leaps(g, sx, sy, dx) {
        if dx > sx {
            after_move(moved, 7, sy, 5, sy)
        } else {
            after_move(moved, 0, sy, 3, sy)
        }
    } else {
        moved
    }
}

/// A side keeps its right to castle until its king or one of its rooks moves.
pub open spec fn keeps_right(p: Piece, color: Color) -> bool {
    p.color != color || (p.piece_type != PieceType::King && p.piece_type != PieceType::Rook)
}

/// The move takes a piece or is made by a pawn.
pub open spec fn irreversible(g: Seq<Square>, sx: int, sy: int, dx: int, dy: int) -> bool {
    at(g, dx, dy) is Some || (at(g, sx, sy) matches Some(p) && p.piece_type == PieceType::Pawn)
}

} // verus!
