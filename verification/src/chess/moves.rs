//! Pseudo-legal moves, piece by piece.

use vstd::prelude::*;
use crate::chess::{Board, Color, Game, PieceType};
use crate::chess::model;

verus! {

/// The distance between two coordinates.
pub(crate) fn gap(a: u8, b: u8) -> (d: u8)
    ensures
        d == model::abs(a - b),
{
    if a < b {
        b - a
    } else {
        a - b
    }
}

/// The coordinate `k` steps from `s` on the way to `d`.
pub(crate) fn toward(s: u8, d: u8, k: u8) -> (r: u8)
    requires
        d != s ==> k <= model::abs(d - s),
    ensures
        r == model::toward(s as int, d as int, k as int),
{
    if d > s {
        s + k
    } else if d < s {
        s - k
    } else {
        s
    }
}

impl Board {
    /// Whether the squares strictly between two squares of one rank, file
    /// or diagonal are all empty.
    pub fn path_clear(&self, src_x: u8, src_y: u8, dst_x: u8, dst_y: u8) -> (r: bool)
        requires
            model::on_board(src_x as int, src_y as int),
            model::on_board(dst_x as int, dst_y as int),
            src_x == dst_x || src_y == dst_y || model::abs(dst_x - src_x) == model::abs(
                dst_y - src_y,
            ),
        ensures
            r == model::path_clear(self@, src_x as int, src_y as int, dst_x as int, dst_y as int),
    {
        let dist_x: u8 = gap(src_x, dst_x);
        let dist_y: u8 = gap(src_y, dst_y);
        let dist: u8 = if dist_x >= dist_y {
            dist_x
        } else {
            dist_y
        };
        let mut k: u8 = 1;
        while k < dist
            invariant
                1 <= k,
                dist == model::reach(src_x as int, src_y as int, dst_x as int, dst_y as int),
                model::on_board(src_x as int, src_y as int),
                model::on_board(dst_x as int, dst_y as int),
                src_x == dst_x || model::abs(dst_x - src_x) == dist,
                src_y == dst_y || model::abs(dst_y - src_y) == dist,
                forall|j: int|
                    1 <= j < k ==> (#[trigger] model::waypoint(
                        self@,
                        src_x as int,
                        src_y as int,
                        dst_x as int,
                        dst_y as int,
                        j,
                    )) is None,
            decreases dist - k,
        {
            let x: u8 = toward(src_x, dst_x, k);
            let y: u8 = toward(src_y, dst_y, k);
            match self.get_square(x, y) {
                Some(_) => {
                    assert(model::waypoint(
                        self@,
                        src_x as int,
                        src_y as int,
                        dst_x as int,
                        dst_y as int,
                        k as int,
                    ) is Some);
                    return false;
                },
                None => {},
            }
            k = k + 1;
        }
        true
    }
}

impl Game {
    fn pawn_legal_move(&self, src_x: u8, src_y: u8, dst_x: u8, dst_y: u8) -> (r: bool)
        requires
            model::on_board(src_x as int, src_y as int),
            model::on_board(dst_x as int, dst_y as int),
        ensures
            r == (model::at(self.board@, src_x as int, src_y as int) matches Some(p)
                && model::pawn_rule(
                self.board@,
                p.color,
                src_x as int,
                src_y as int,
                dst_x as int,
                dst_y as int,
            )),
    {
        let piece = match self.board.get_square(src_x, src_y) {
            Some(v) => v,
            None => return false,
        };
        let (direction, start_rank): (i8, u8) = match piece.color {
            Color::White => (1, 1),
            Color::Black => (-1, 6),
        };
        let rise: i8 = dst_y as i8 - src_y as i8;
        match self.board.get_square(dst_x, dst_y) {
            None => {
                if src_x != dst_x {
                    return false;
                }
                if rise == direction {
                    return true;
                }
                if rise != 2 * direction || src_y != start_rank {
                    return false;
                }
                self.board.get_square(src_x, (src_y as i8 + direction) as u8).is_none()
            },
            Some(_) => gap(dst_x, src_x) == 1 && rise == direction,
        }
    }

    fn bishop_legal_move(&self, src_x: u8, src_y: u8, dst_x: u8, dst_y: u8) -> (r: bool)
        requires
            model::on_board(src_x as int, src_y as int),
            model::on_board(dst_x as int, dst_y as int),
        ensures
            r == model::bishop_rule(
                self.board@,
                src_x as int,
                src_y as int,
                dst_x as int,
                dst_y as int,
            ),
    {
        let dist_x: u8 = gap(src_x, dst_x);
        if dist_x != gap(src_y, dst_y) || dist_x == 0 {
            return false;
        }
        self.board.path_clear(src_x, src_y, dst_x, dst_y)
    }

    fn rook_legal_move(&self, src_x: u8, src_y: u8, dst_x: u8, dst_y: u8) -> (r: bool)
        requires
            model::on_board(src_x as int, src_y as int),
            model::on_board(dst_x as int, dst_y as int),
        ensures
            r == model::rook_rule(
                self.board@,
                src_x as int,
                src_y as int,
                dst_x as int,
                dst_y as int,
            ),
    {
        if (src_x == dst_x) == (src_y == dst_y) {
            return false;
        }
        self.board.path_clear(src_x, src_y, dst_x, dst_y)
    }

    fn queen_legal_move(&self, src_x: u8, src_y: u8, dst_x: u8, dst_y: u8) -> (r: bool)
        requires
            model::on_board(src_x as int, src_y as int),
            model::on_board(dst_x as int, dst_y as int),
        ensures
            r == model::queen_rule(
                self.board@,
                src_x as int,
                src_y as int,
                dst_x as int,
                dst_y as int,
            ),
    {
        self.bishop_legal_move(src_x, src_y, dst_x, dst_y) || self.rook_legal_move(
            src_x,
            src_y,
            dst_x,
            dst_y,
        )
    }

    fn king_legal_move(&self, src_x: u8, src_y: u8, dst_x: u8, dst_y: u8) -> (r: bool)
        requires
            model::on_board(src_x as int, src_y as int),
            model::on_board(dst_x as int, dst_y as int),
        ensures
            r == (model::at(self.board@, src_x as int, src_y as int) matches Some(p)
                && model::king_rule(
                self.board@,
                self.castling_rights@,
                p.color,
                src_x as int,
                src_y as int,
                dst_x as int,
                dst_y as int,
            )),
    {
        let piece = match self.board.get_square(src_x, src_y) {
            Some(v) => v,
            None => return false,
        };
        let dist_x: u8 = gap(src_x, dst_x);
        if dist_x <= 1 && gap(src_y, dst_y) <= 1 {
            return src_x != dst_x || src_y != dst_y;
        }
        if !self.castling_rights[usize::from(piece.color)] {
            return false;
        }
        if dst_y != src_y || dist_x != 2 || src_x != 4 {
            return false;
        }
        let rook_x: u8 = if dst_x < src_x {
            0
        } else {
            7
        };
        match self.board.get_square(rook_x, src_y) {
            Some(rook) => {
                if rook.color != piece.color || rook.piece_type != PieceType::Rook {
                    return false;
                }
            },
            None => {
                return false;
            },
        }
        self.board.path_clear(src_x, src_y, rook_x, src_y)
    }

    /// Whether a knight goes from the first square to the second: two
    /// squares one way and one the other. The board is not asked.
    pub fn knight_legal_move(&self, src_x: u8, src_y: u8, dst_x: u8, dst_y: u8) -> (r: bool)
        ensures
            r == model::knight_rule(src_x as int, src_y as int, dst_x as int, dst_y as int),
    {
        let dist_x: u8 = gap(src_x, dst_x);
        let dist_y: u8 = gap(src_y, dst_y);
        (dist_x == 2 && dist_y == 1) || (dist_x == 1 && dist_y == 2)
    }

    /// Whether the move is pseudo-legal. Squares off the board, a move that
    /// goes nowhere, an empty source and the capture of one's own piece are
    /// all refused.
    pub fn legal_move(&self, src_x: u8, src_y: u8, dst_x: u8, dst_y: u8) -> (r: bool)
        ensures
            r == self.legal(src_x as int, src_y as int, dst_x as int, dst_y as int),
    {
        if src_x >= 8 || src_y >= 8 || dst_x >= 8 || dst_y >= 8 {
            return false;
        }
        if src_x == dst_x && src_y == dst_y {
            return false;
        }
        let piece = match self.board.get_square(src_x, src_y) {
            Some(v) => v,
            None => return false,
        };
        match self.board.get_square(dst_x, dst_y) {
            Some(other) => {
                if piece.color == other.color {
                    return false;
                }
            },
            None => {},
        }
        match piece.piece_type {
            PieceType::Pawn => self.pawn_legal_move(src_x, src_y, dst_x, dst_y),
            PieceType::Bishop => self.bishop_legal_move(src_x, src_y, dst_x, dst_y),
            PieceType::Rook => self.rook_legal_move(src_x, src_y, dst_x, dst_y),
            PieceType::Queen => self.queen_legal_move(src_x, src_y, dst_x, dst_y),
            PieceType::King => self.king_legal_move(src_x, src_y, dst_x, dst_y),
            PieceType::Knight => self.knight_legal_move(src_x, src_y, dst_x, dst_y),
        }
    }
}

} // verus!
