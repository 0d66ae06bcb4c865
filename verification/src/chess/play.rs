//! Playing a move.

use vstd::prelude::*;
use crate::chess::{Game, Move, PieceType};
use crate::chess::model;
use crate::chess::moves::gap;

verus! {

impl Game {
    /// Plays a move without asking whether it is legal: that is for the
    /// caller to have done with `safe_move`.
    ///
    /// The piece goes to its destination and replaces what stood there; a
    /// king that goes two files brings its rook along. The mover loses the
    /// right to castle if the piece is its king or a rook. The count of plies
    /// since the last capture or pawn move starts again at such a move and
    /// grows by one otherwise. The move is recorded and the turn passes.
    pub fn apply_move(&mut self, src_x: u8, src_y: u8, dst_x: u8, dst_y: u8)
        requires
            model::on_board(src_x as int, src_y as int),
            model::on_board(dst_x as int, dst_y as int),
            model::at(old(self).board@, src_x as int, src_y as int) is Some,
            old(self).total_moves < usize::MAX,
            old(self).until_stalemate < usize::MAX,
        ensures
            final(self).follows(
                *old(self),
                src_x as int,
                src_y as int,
                dst_x as int,
                dst_y as int,
            ),
    {
        let piece = match self.board.get_square(src_x, src_y) {
            Some(v) => v,
            None => {
                return ;
            },
        };
        let captured = self.board.get_square(dst_x, dst_y);

        self.board.set_square(dst_x, dst_y, Some(piece));
        self.board.set_square(src_x, src_y, None);

        let is_king = piece.piece_type == PieceType::King;
        if is_king && gap(src_x, dst_x) == 2 {
            let (rook_from, rook_to): (u8, u8) = if dst_x > src_x {
                (7, 5)
            } else {
                (0, 3)
            };
            let rook = self.board.get_square(rook_from, src_y);
            self.board.set_square(rook_to, src_y, rook);
            self.board.set_square(rook_from, src_y, None);
        }
        if is_king || piece.piece_type == PieceType::Rook {
            self.castling_rights[usize::from(piece.color)] = false;
        }
        if captured.is_some() || piece.piece_type == PieceType::Pawn {
            self.until_stalemate = 0;
        } else {
            self.until_stalemate = self.until_stalemate + 1;
        }
        self.total_moves = self.total_moves + 1;
        self.moves.push(Move { src: (src_x, src_y), dst: (dst_x, dst_y) });
        self.turn = self.turn.opponent();
    }
}

} // verus!
