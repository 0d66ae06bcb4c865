//! One game between two players, and what each earns in it.
//!
//! Scores are whole numbers of seventy-seconds of a point, so that an
//! eighteenth and a twenty-fourth of a point are both whole.

use vstd::prelude::*;
use crate::chess::{Color, Game, Move, PieceType, Square};
use crate::chess::model;

verus! {

/// One point, in the unit of the scores.
pub const POINT: i128 = 72;

/// What a checkmate moves from the loser to the winner, in points.
pub const MATE_POINTS: i128 = 1000;

/// Only the first plies of a game earn a bonus for where a piece lands.
pub const OPENING_PLIES: usize = 40;

/// How much a square is worth to the piece that lands on it, by file and
/// rank: the centre counts most.
pub const HEAT_MAP: [[u8; 8]; 8] = [
    [0, 0, 1, 2, 2, 1, 0, 0],
    [0, 1, 2, 3, 3, 2, 1, 0],
    [1, 2, 3, 4, 4, 3, 2, 1],
    [2, 3, 4, 5, 5, 4, 3, 2],
    [2, 3, 4, 5, 5, 4, 3, 2],
    [1, 2, 3, 4, 4, 3, 2, 1],
    [0, 1, 2, 3, 3, 2, 1, 0],
    [0, 0, 1, 2, 2, 1, 0, 0],
];

impl PieceType {
    /// What a piece is worth when it is taken, in points.
    pub open spec fn value_spec(self) -> int {
        match self {
            PieceType::Pawn => 1,
            PieceType::Bishop => 3,
            PieceType::Knight => 3,
            PieceType::Rook => 5,
            PieceType::Queen => 9,
            PieceType::King => 100,
        }
    }

    /// What a piece is worth when it is taken, in points.
    pub fn value(self) -> (v: u8)
        ensures
            v == self.value_spec(),
    {
        match self {
            PieceType::Pawn => 1,
            PieceType::Bishop => 3,
            PieceType::Knight => 3,
            PieceType::Rook => 5,
            PieceType::Queen => 9,
            PieceType::King => 100,
        }
    }
}

/// The heat of the square on file `x`, rank `y`.
pub open spec fn heat(x: int, y: int) -> int {
    HEAT_MAP[x][y] as int
}

/// The map is the same from either wing and from either end of the board,
/// and rises by one with each step toward the centre along a file or a rank,
/// from nothing in the corners to five in the middle.
pub proof fn lemma_heat_map(x: int, y: int)
    requires
        model::on_board(x, y),
    ensures
        heat(x, y) == heat(7 - x, y),
        heat(x, y) == heat(x, 7 - y),
        x < 4 && y < 4 ==> heat(x, y) == (if x + y == 0 {
            0
        } else {
            x + y - 1
        }),
        0 <= heat(x, y) <= 5,
{
}

/// What landing on a square earns: the heat of the square divided by
/// eighteen for a knight and by twenty-four for any other piece, during the
/// opening only. `plies` is the number of plies played before this one.
pub open spec fn landing_bonus(g: Seq<Square>, plies: int, sx: int, sy: int, dx: int, dy: int) -> int {
    if plies < OPENING_PLIES {
        if model::at(g, sx, sy) matches Some(p) && p.piece_type == PieceType::Knight {
            heat(dx, dy) * (POINT / 18)
        } else {
            heat(dx, dy) * (POINT / 24)
        }
    } else {
        0
    }
}

/// What taking the piece on a square earns the mover and costs the other
/// side: nothing if the square is empty.
pub open spec fn capture_gain(g: Seq<Square>, dx: int, dy: int) -> int {
    match model::at(g, dx, dy) {
        Some(q) => q.piece_type.value_spec() * POINT,
        None => 0,
    }
}

/// The most that one ply can change a score by: the hottest square under a
/// knight, and a king taken.
pub const PLY_SWING: i128 = 7220;

/// A game of two players with the score of each, White's first.
pub struct SelfPlay {
    game: Game,
    scores: [i128; 2],
}

impl SelfPlay {
    /// Neither score has moved by more than a ply can move it, for each
    /// ply played.
    pub closed spec fn wf(&self) -> bool {
        &&& -PLY_SWING * self.game.total_moves <= self.scores[0] <= PLY_SWING
            * self.game.total_moves
        &&& -PLY_SWING * self.game.total_moves <= self.scores[1] <= PLY_SWING
            * self.game.total_moves
    }

    /// The game as it stands.
    pub closed spec fn state(&self) -> Game {
        self.game
    }

    /// The score of a side so far.
    pub closed spec fn score(&self, color: Color) -> int {
        self.scores[color.index()] as int
    }

    /// Starts from a position, with both scores at zero.
    pub fn new(game: Game) -> (s: SelfPlay)
        ensures
            s.wf(),
            s.state() == game,
            s.score(Color::White) == 0,
            s.score(Color::Black) == 0,
    {
        SelfPlay { game, scores: [0, 0] }
    }

    /// The game as it stands.
    pub fn game(&self) -> (g: &Game)
        ensures
            *g == self.state(),
    {
        &self.game
    }

    /// Both scores so far, White's first.
    pub fn scores(&self) -> (r: (i128, i128))
        ensures
            r.0 == self.score(Color::White),
            r.1 == self.score(Color::Black),
    {
        (self.scores[0], self.scores[1])
    }

    /// For each of the 4096 moves whether the side to play may make it, or
    /// `None` when the game is over.
    pub fn candidate_moves(&mut self) -> (r: Option<Vec<bool>>)
        requires
            old(self).wf(),
        ensures
            final(self).wf(),
            final(self).state() == old(self).state(),
            final(self).score(Color::White) == old(self).score(Color::White),
            final(self).score(Color::Black) == old(self).score(Color::Black),
            r is None <==> crate::policy::is_over(old(self).state()),
            r matches Some(mask) ==> mask@.len() == crate::policy::MOVE_COUNT && forall|i: int|
                0 <= i < crate::policy::MOVE_COUNT ==> mask@[i] == crate::policy::safe_at(
                    old(self).state(),
                    i,
                ),
    {
        crate::policy::candidate_moves(&mut self.game)
    }

    /// The move that a drawn number stands for, if that move is safe in the
    /// game as it stands; `None` if not, and the caller draws again.
    pub fn sampled_move(&mut self, index: usize) -> (r: Option<Move>)
        requires
            old(self).wf(),
        ensures
            final(self).wf(),
            final(self).state() == old(self).state(),
            final(self).score(Color::White) == old(self).score(Color::White),
            final(self).score(Color::Black) == old(self).score(Color::Black),
            r == (if index < crate::policy::MOVE_COUNT && crate::policy::safe_at(
                old(self).state(),
                index as int,
            ) {
                Some(crate::policy::move_at(index as int))
            } else {
                None
            }),
    {
        crate::policy::sampled_move(&mut self.game, index)
    }

    /// Scores a move for the side to play and plays it.
    ///
    /// In the opening the mover earns the landing bonus of the destination.
    /// If the move takes a piece, the mover earns its value and the other
    /// side loses as much.
    pub fn record_move(&mut self, m: Move)
        requires
            old(self).wf(),
            model::on_board(m.src.0 as int, m.src.1 as int),
            model::on_board(m.dst.0 as int, m.dst.1 as int),
            model::at(old(self).state().board@, m.src.0 as int, m.src.1 as int) is Some,
            old(self).state().total_moves < usize::MAX,
            old(self).state().until_stalemate < usize::MAX,
        ensures
            final(self).wf(),
            final(self).state().follows(
                old(self).state(),
                m.src.0 as int,
                m.src.1 as int,
                m.dst.0 as int,
                m.dst.1 as int,
            ),
            final(self).score(old(self).state().turn) == old(self).score(
                old(self).state().turn,
            ) + landing_bonus(
                old(self).state().board@,
                old(self).state().moves@.len() as int,
                m.src.0 as int,
                m.src.1 as int,
                m.dst.0 as int,
                m.dst.1 as int,
            ) + capture_gain(old(self).state().board@, m.dst.0 as int, m.dst.1 as int),
            final(self).score(old(self).state().turn.opponent()) == old(self).score(
                old(self).state().turn.opponent(),
            ) - capture_gain(old(self).state().board@, m.dst.0 as int, m.dst.1 as int),
    {
        let (gain, loss) = self.gains(m);
        let mover: usize = usize::from(self.game.turn);
        let other: usize = usize::from(self.game.turn.opponent());
        self.game.apply_move(m.src.0, m.src.1, m.dst.0, m.dst.1);
        self.scores[mover] = self.scores[mover] + gain;
        self.scores[other] = self.scores[other] - loss;
    }

    /// What a move earns the side that makes it, and what it costs the
    /// other side.
    fn gains(&self, m: Move) -> (r: (i128, i128))
        requires
            model::on_board(m.src.0 as int, m.src.1 as int),
            model::on_board(m.dst.0 as int, m.dst.1 as int),
        ensures
            r.0 == landing_bonus(
                self.game.board@,
                self.game.moves@.len() as int,
                m.src.0 as int,
                m.src.1 as int,
                m.dst.0 as int,
                m.dst.1 as int,
            ) + capture_gain(self.game.board@, m.dst.0 as int, m.dst.1 as int),
            r.1 == capture_gain(self.game.board@, m.dst.0 as int, m.dst.1 as int),
            0 <= r.1 <= r.0 <= PLY_SWING,
    {
        let mut bonus: i128 = 0;
        if self.game.moves.len() < OPENING_PLIES {
            let h: u8 = HEAT_MAP[m.dst.0 as usize][m.dst.1 as usize];
            proof {
                lemma_heat_map(m.dst.0 as int, m.dst.1 as int);
            }
            let is_knight = match self.game.board.get_square(m.src.0, m.src.1) {
                Some(p) => p.piece_type == PieceType::Knight,
                None => false,
            };
            let share: i128 = if is_knight {
                POINT / 18
            } else {
                POINT / 24
            };
            assert(share == 4 || share == 3);
            bonus = h as i128 * share;
        }
        let taken: i128 = match self.game.board.get_square(m.dst.0, m.dst.1) {
            Some(piece) => {
                let value: i128 = piece.piece_type.value() as i128;
                assert(POINT == 72);
                value * POINT
            },
            None => 0,
        };
        (bonus + taken, taken)
    }

    /// The scores at the end of the game, White's first. If the side to
    /// play is in check it has been mated: it loses a thousand points and the
    /// other side gains as many. Otherwise the scores stand.
    pub fn settle(&self) -> (r: (i128, i128))
        requires
            self.wf(),
        ensures
            r.0 == self.score(Color::White) + mate_swing(self.state(), Color::White),
            r.1 == self.score(Color::Black) + mate_swing(self.state(), Color::Black),
    {
        let mut white: i128 = self.scores[0];
        let mut black: i128 = self.scores[1];
        if self.game.is_check(self.game.turn) {
            match self.game.turn {
                Color::White => {
                    white = white - MATE_POINTS * POINT;
                    black = black + MATE_POINTS * POINT;
                },
                Color::Black => {
                    black = black - MATE_POINTS * POINT;
                    white = white + MATE_POINTS * POINT;
                },
            }
        }
        (white, black)
    }
}

/// What the end of a game adds to a side's score: nothing unless the side
/// to play is in check, and then a thousand points, taken from that side and
/// given to the other.
pub open spec fn mate_swing(game: Game, color: Color) -> int {
    if !game.in_check(game.turn) {
        0
    } else if color == game.turn {
        -MATE_POINTS * POINT
    } else {
        MATE_POINTS * POINT
    }
}

} // verus!
