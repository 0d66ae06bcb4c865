//! What holds of every game that is played by safe moves.

use vstd::prelude::*;
use crate::chess::{Color, Game, Piece, PieceType, Square};
use crate::chess::model::{
    abs, at, attacked, castling, corner, first_king, in_check, initial_grid, initial_square,
    is_king, lone_king, on_board, path_clear, played, pseudo_legal, reach, shifted, threat,
    waypoint,
};

verus! {

/// The king that the search finds is one and the same however often it is
/// asked: no two squares are both the first to hold a king of a side.
pub proof fn lemma_first_king_unique(
    g: Seq<Square>,
    color: Color,
    x1: int,
    y1: int,
    x2: int,
    y2: int,
)
    requires
        first_king(g, color, x1, y1),
        first_king(g, color, x2, y2),
    ensures
        x1 == x2,
        y1 == y2,
{
}

/// A right to castle that is lost is never had again.
pub proof fn lemma_rights_never_return(prev: Game, next: Game, sx: int, sy: int, dx: int, dy: int)
    requires
        next.follows(prev, sx, sy, dx, dy),
    ensures
        forall|c: Color|
            #[trigger] next.castling_rights@[c.index()] ==> prev.castling_rights@[c.index()],
{
}

/// Whether a piece threatens a square does not depend on whether the side
/// of the square may still castle.
pub proof fn lemma_threat_ignores_own_right(
    g: Seq<Square>,
    r1: Seq<bool>,
    r2: Seq<bool>,
    color: Color,
    x: int,
    y: int,
    kx: int,
    ky: int,
)
    requires
        r1[color.opponent().index()] == r2[color.opponent().index()],
    ensures
        threat(g, r1, color, x, y, kx, ky) == threat(g, r2, color, x, y, kx, ky),
{
}

/// Whether a side is in check does not depend on whether it may still castle.
pub proof fn lemma_check_ignores_own_right(
    g: Seq<Square>,
    r1: Seq<bool>,
    r2: Seq<bool>,
    color: Color,
)
    requires
        r1[color.opponent().index()] == r2[color.opponent().index()],
    ensures
        in_check(g, r1, color) == in_check(g, r2, color),
{
    if in_check(g, r1, color) {
        let (kx, ky) = choose|kx: int, ky: int|
            first_king(g, color, kx, ky) && attacked(g, r1, color, kx, ky);
        let (x, y) = choose|x: int, y: int| threat(g, r1, color, x, y, kx, ky);
        lemma_threat_ignores_own_right(g, r1, r2, color, x, y, kx, ky);
    }
    if in_check(g, r2, color) {
        let (kx, ky) = choose|kx: int, ky: int|
            first_king(g, color, kx, ky) && attacked(g, r2, color, kx, ky);
        let (x, y) = choose|x: int, y: int| threat(g, r2, color, x, y, kx, ky);
        lemma_threat_ignores_own_right(g, r1, r2, color, x, y, kx, ky);
    }
}

/// The file on which a rook stands after it has castled with a king bound
/// for file `dx`.
pub open spec fn rook_home(dx: int) -> int {
    if dx > 4 {
        5
    } else {
        3
    }
}

/// Two grids that differ only in that a rook of `color` has gone from the
/// corner of rank `sy` to its place next to a king that has castled to file
/// `dx`: the first is the grid before the rook has gone, the second after.
spec fn rook_tucked(before: Seq<Square>, after: Seq<Square>, color: Color, sy: int, dx: int) -> bool {
    let rook = Some(Piece { color, piece_type: PieceType::Rook });
    &&& before.len() == 64
    &&& after.len() == 64
    &&& 0 <= sy < 8
    &&& (dx == 6 || dx == 2)
    &&& is_king(before, color, dx, sy)
    &&& at(before, corner(4, dx), sy) == rook
    &&& at(before, rook_home(dx), sy) is None
    &&& forall|a: int, b: int|
        on_board(a, b) ==> #[trigger] at(after, a, b) == (if a == rook_home(dx) && b == sy {
            rook
        } else if a == corner(4, dx) && b == sy {
            None
        } else {
            at(before, a, b)
        })
}

/// A line to the castled king that is clear once the rook stands next to
/// the king was clear while the rook stood in the corner: the corner lies on
/// no line that ends on the king's square.
proof fn lemma_tucked_path(
    before: Seq<Square>,
    after: Seq<Square>,
    color: Color,
    sy: int,
    dx: int,
    x: int,
    y: int,
)
    requires
        rook_tucked(before, after, color, sy, dx),
        on_board(x, y),
        x == dx || y == sy || abs(dx - x) == abs(sy - y),
        path_clear(after, x, y, dx, sy),
    ensures
        path_clear(before, x, y, dx, sy),
{
    assert forall|k: int| 1 <= k < reach(x, y, dx, sy) implies (#[trigger] waypoint(
        before,
        x,
        y,
        dx,
        sy,
        k,
    )) is None by {
        assert(waypoint(after, x, y, dx, sy, k) is None);
    }
}

/// What threatens the castled king once the rook stands next to it
/// threatened it while the rook stood in the corner.
proof fn lemma_tucked_threat(
    before: Seq<Square>,
    after: Seq<Square>,
    rights: Seq<bool>,
    color: Color,
    sy: int,
    dx: int,
    x: int,
    y: int,
)
    requires
        rook_tucked(before, after, color, sy, dx),
        threat(after, rights, color, x, y, dx, sy),
    ensures
        threat(before, rights, color, x, y, dx, sy),
{
    let q = at(after, x, y)->0;
    match q.piece_type {
        PieceType::Pawn | PieceType::Knight => {},
        PieceType::Bishop | PieceType::Rook | PieceType::Queen => {
            lemma_tucked_path(before, after, color, sy, dx, x, y);
        },
        PieceType::King => {
            // A king that castles lands on an empty square, not on a king.
            if castling(after, rights, q.color, x, y, dx, sy) {
                assert(waypoint(after, x, y, corner(x, dx), y, 2) is Some);
            }
        },
    }
}

/// A king that was not in check on its new square before its rook came to
/// stand next to it is not in check afterwards, if it is the only king of
/// its side.
proof fn lemma_tucked_check(
    before: Seq<Square>,
    after: Seq<Square>,
    rights: Seq<bool>,
    color: Color,
    sy: int,
    dx: int,
)
    requires
        rook_tucked(before, after, color, sy, dx),
        forall|a: int, b: int|
            on_board(a, b) && #[trigger] is_king(before, color, a, b) ==> a == dx && b == sy,
        !in_check(before, rights, color),
    ensures
        !in_check(after, rights, color),
{
    if in_check(after, rights, color) {
        let (kx, ky) = choose|kx: int, ky: int|
            first_king(after, color, kx, ky) && attacked(after, rights, color, kx, ky);
        let (x, y) = choose|x: int, y: int| threat(after, rights, color, x, y, kx, ky);
        assert(first_king(before, color, kx, ky));
        lemma_tucked_threat(before, after, rights, color, sy, dx, x, y);
    }
}

/// A player never leaves its own king in check: after a safe move by a side
/// that has one king, that side is not in check.
pub proof fn lemma_safe_move_keeps_king_safe(
    prev: Game,
    next: Game,
    sx: int,
    sy: int,
    dx: int,
    dy: int,
)
    requires
        prev.safe(sx, sy, dx, dy),
        next.follows(prev, sx, sy, dx, dy),
        lone_king(prev.board@, at(prev.board@, sx, sy)->0.color),
    ensures
        !next.in_check(at(prev.board@, sx, sy)->0.color),
{
    let g = prev.board@;
    let r = prev.castling_rights@;
    let p = at(g, sx, sy)->0;
    let c = p.color;
    lemma_check_ignores_own_right(next.board@, next.castling_rights@, r, c);
    if p.piece_type == PieceType::King && abs(dx - sx) == 2 {
        let before = shifted(g, sx, sy, dx);
        let after = next.board@;
        assert(waypoint(g, sx, sy, corner(sx, dx), sy, 1) is None);
        assert(is_king(g, c, sx, sy));
        assert forall|a: int, b: int|
            on_board(a, b) && #[trigger] is_king(before, c, a, b) implies a == dx && b == sy by {
            if !(a == dx && b == sy) {
                assert(is_king(g, c, a, b));
            }
        }
        lemma_tucked_check(before, after, r, c, sy, dx);
    }
}

/// A pseudo-legal move leaves the mover with its one king: the king has
/// gone with the move if it is the piece that moved, and stands where it
/// stood if not.
proof fn lemma_own_king_follows(
    g: Seq<Square>,
    r: Seq<bool>,
    sx: int,
    sy: int,
    dx: int,
    dy: int,
)
    requires
        g.len() == 64,
        pseudo_legal(g, r, sx, sy, dx, dy),
        lone_king(g, at(g, sx, sy)->0.color),
    ensures
        lone_king(played(g, sx, sy, dx, dy), at(g, sx, sy)->0.color),
{
    let after = played(g, sx, sy, dx, dy);
    let p = at(g, sx, sy)->0;
    let c = p.color;
    let (cx, cy) = choose|x: int, y: int|
        on_board(x, y) && #[trigger] is_king(g, c, x, y) && forall|a: int, b: int|
            on_board(a, b) && #[trigger] is_king(g, c, a, b) ==> a == x && b == y;
    if p.piece_type == PieceType::King {
        assert(is_king(g, c, sx, sy));
        if abs(dx - sx) == 2 {
            // A king that castles finds the square next to it empty.
            assert(waypoint(g, sx, sy, corner(sx, dx), sy, 1) is None);
        }
    }
    let (nx, ny) = if p.piece_type == PieceType::King {
        (dx, dy)
    } else {
        (cx, cy)
    };
    assert(is_king(after, c, nx, ny));
    assert forall|a: int, b: int| on_board(a, b) && #[trigger] is_king(after, c, a, b) implies a
        == nx && b == ny by {
        if !(a == nx && b == ny) {
            assert(is_king(g, c, a, b));
        }
    }
}

/// A pseudo-legal move leaves the other side with its one king, if that
/// king is not in check: the move does not land on it, and no square gains a
/// king of that side.
proof fn lemma_other_king_stays(
    g: Seq<Square>,
    r: Seq<bool>,
    sx: int,
    sy: int,
    dx: int,
    dy: int,
)
    requires
        g.len() == 64,
        pseudo_legal(g, r, sx, sy, dx, dy),
        lone_king(g, at(g, sx, sy)->0.color.opponent()),
        !in_check(g, r, at(g, sx, sy)->0.color.opponent()),
    ensures
        lone_king(played(g, sx, sy, dx, dy), at(g, sx, sy)->0.color.opponent()),
{
    let after = played(g, sx, sy, dx, dy);
    let p = at(g, sx, sy)->0;
    let o = p.color.opponent();
    let (ox, oy) = choose|x: int, y: int|
        on_board(x, y) && #[trigger] is_king(g, o, x, y) && forall|a: int, b: int|
            on_board(a, b) && #[trigger] is_king(g, o, a, b) ==> a == x && b == y;
    if ox == dx && oy == dy {
        assert(first_king(g, o, ox, oy));
        assert(threat(g, r, o, sx, sy, ox, oy));
    }
    if p.piece_type == PieceType::King && abs(dx - sx) == 2 {
        assert(waypoint(g, sx, sy, corner(sx, dx), sy, 1) is None);
    }
    assert(is_king(after, o, ox, oy));
    assert forall|a: int, b: int| on_board(a, b) && #[trigger] is_king(after, o, a, b) implies a
        == ox && b == oy by {
        assert(is_king(g, o, a, b));
    }
}

/// A safe move does not take a king that is not in check, and so leaves each
/// side with its one king.
pub proof fn lemma_kings_survive(prev: Game, next: Game, sx: int, sy: int, dx: int, dy: int)
    requires
        lone_king(prev.board@, Color::White),
        lone_king(prev.board@, Color::Black),
        prev.safe(sx, sy, dx, dy),
        !prev.in_check(at(prev.board@, sx, sy)->0.color.opponent()),
        next.follows(prev, sx, sy, dx, dy),
    ensures
        lone_king(next.board@, Color::White),
        lone_king(next.board@, Color::Black),
{
    lemma_own_king_follows(prev.board@, prev.castling_rights@, sx, sy, dx, dy);
    lemma_other_king_stays(prev.board@, prev.castling_rights@, sx, sy, dx, dy);
}

/// A game that is sound stays sound when the side to play makes a safe move.
pub proof fn lemma_safe_moves_keep_a_game_sound(
    prev: Game,
    next: Game,
    sx: int,
    sy: int,
    dx: int,
    dy: int,
)
    requires
        prev.sound(),
        prev.safe(sx, sy, dx, dy),
        at(prev.board@, sx, sy)->0.color == prev.turn,
        next.follows(prev, sx, sy, dx, dy),
    ensures
        next.sound(),
{
    lemma_kings_survive(prev, next, sx, sy, dx, dy);
    lemma_safe_move_keeps_king_safe(prev, next, sx, sy, dx, dy);
}

/// A game is sound at its start.
pub proof fn lemma_the_start_is_sound(game: Game)
    requires
        game.board@ == initial_grid(),
    ensures
        game.sound(),
{
    let g = game.board@;
    assert forall|x: int, y: int| on_board(x, y) implies at(g, x, y) == initial_square(x, y) by {}
    assert(is_king(g, Color::White, 4, 0));
    assert(is_king(g, Color::Black, 4, 7));
}

} // verus!
