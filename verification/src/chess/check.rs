//! Check detection, and the filter that keeps a side from leaving its own
//! king in check.

use vstd::prelude::*;
use crate::chess::{Color, Game, PieceType, Position};
use crate::chess::model;
use crate::chess::moves::{gap, toward};

verus! {

impl Game {
    /// The square of the side's king: the first one met when the board is
    /// searched file by file from the a-file, and up each file.
    pub fn find_king(&self, color: Color) -> (r: Option<Position>)
        ensures
            match r {
                Some((x, y)) => model::first_king(self.board@, color, x as int, y as int),
                None => !model::has_king(self.board@, color),
            },
    {
        let mut x: u8 = 0;
        while x < 8
            invariant
                x <= 8,
                forall|a: int, b: int|
                    model::on_board(a, b) && a < x ==> !#[trigger] model::is_king(
                        self.board@,
                        color,
                        a,
                        b,
                    ),
            decreases 8 - x,
        {
            let mut y: u8 = 0;
            while y < 8
                invariant
                    x < 8,
                    y <= 8,
                    forall|a: int, b: int|
                        model::on_board(a, b) && model::scans_before(a, b, x as int, y as int)
                            ==> !#[trigger] model::is_king(self.board@, color, a, b),
                decreases 8 - y,
            {
                match self.board.get_square(x, y) {
                    Some(p) => {
                        if p.color == color && p.piece_type == PieceType::King {
                            return Some((x, y));
                        }
                    },
                    None => {},
                }
                y = y + 1;
            }
            x = x + 1;
        }
        None
    }

    /// Whether the side's king is attacked: whether any piece of the other
    /// side has a pseudo-legal move onto its square.
    pub fn is_check(&self, color: Color) -> (r: bool)
        ensures
            r == self.in_check(color),
    {
        let (king_x, king_y) = match self.find_king(color) {
            Some(v) => v,
            None => {
                return false;
            },
        };
        let mut x: u8 = 0;
        while x < 8
            invariant
                x <= 8,
                model::first_king(self.board@, color, king_x as int, king_y as int),
                forall|a: int, b: int|
                    a < x ==> !#[trigger] model::threat(
                        self.board@,
                        self.castling_rights@,
                        color,
                        a,
                        b,
                        king_x as int,
                        king_y as int,
                    ),
            decreases 8 - x,
        {
            let mut y: u8 = 0;
            while y < 8
                invariant
                    x < 8,
                    y <= 8,
                    model::first_king(self.board@, color, king_x as int, king_y as int),
                    forall|a: int, b: int|
                        model::scans_before(a, b, x as int, y as int) ==> !#[trigger] model::threat(
                            self.board@,
                            self.castling_rights@,
                            color,
                            a,
                            b,
                            king_x as int,
                            king_y as int,
                        ),
                decreases 8 - y,
            {
                match self.board.get_square(x, y) {
                    Some(piece) => {
                        if piece.color != color && self.legal_move(x, y, king_x, king_y) {
                            proof {
                                assert(model::threat(
                                    self.board@,
                                    self.castling_rights@,
                                    color,
                                    x as int,
                                    y as int,
                                    king_x as int,
                                    king_y as int,
                                ));
                            }
                            return true;
                        }
                    },
                    None => {},
                }
                y = y + 1;
            }
            x = x + 1;
        }
        false
    }

    /// Whether the move is safe: pseudo-legal, and not one that leaves the
    /// mover's king in check. The move is tried on the board and taken
    /// back, so the game is the same afterwards whatever the answer.
    pub fn safe_move(&mut self, src_x: u8, src_y: u8, dst_x: u8, dst_y: u8) -> (r: bool)
        ensures
            r == old(self).safe(src_x as int, src_y as int, dst_x as int, dst_y as int),
            *final(self) == *old(self),
    {
        if !self.legal_move(src_x, src_y, dst_x, dst_y) {
            return false;
        }
        let src = match self.board.get_square(src_x, src_y) {
            Some(v) => v,
            None => return false,
        };
        let dst = self.board.get_square(dst_x, dst_y);
        let ghost start = self.board@;

        if src.piece_type == PieceType::King && gap(src_x, dst_x) == 2 {
            let rook_x: u8 = if dst_x < src_x {
                0
            } else {
                7
            };
            let steps: u8 = gap(src_x, rook_x);
            let mut i: u8 = 0;
            while i <= steps
                invariant
                    *self == *old(self),
                    start == self.board@,
                    src_x == 4,
                    src_y < 8,
                    rook_x == model::corner(src_x as int, dst_x as int),
                    steps == model::abs(rook_x - src_x),
                    i <= steps + 1,
                    model::at(start, src_x as int, src_y as int) == Some(src),
                    src.piece_type == PieceType::King,
                    model::abs(dst_x - src_x) == 2,
                    forall|x: int|
                        model::abs(x - src_x) < i && model::spans(src_x as int, rook_x as int, x)
                            ==> !model::in_check(
                            #[trigger] model::shifted(start, src_x as int, src_y as int, x),
                            self.castling_rights@,
                            src.color,
                        ),
                decreases steps + 1 - i,
            {
                // The king stands on the next square of its way in place of
                // what is there, and is put back before the answer is used.
                let x: u8 = toward(src_x, rook_x, i);
                let held = self.board.get_square(x, src_y);
                self.board.set_square(src_x, src_y, None);
                self.board.set_square(x, src_y, Some(src));
                assert(self.board@ == model::shifted(start, src_x as int, src_y as int, x as int));
                let attacked = self.is_check(src.color);
                self.board.set_square(x, src_y, held);
                self.board.set_square(src_x, src_y, Some(src));
                assert(self.board.0 =~= old(self).board.0);
                if attacked {
                    return false;
                }
                i = i + 1;
            }
            true
        } else {
            self.board.set_square(dst_x, dst_y, Some(src));
            self.board.set_square(src_x, src_y, None);
            let in_check = self.is_check(src.color);
            self.board.set_square(src_x, src_y, Some(src));
            self.board.set_square(dst_x, dst_y, dst);
            assert(self.board.0 =~= old(self).board.0);
            !in_check
        }
    }
}

} // verus!
