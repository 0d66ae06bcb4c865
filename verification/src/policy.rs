//! What a network is shown and what it may answer: the encoding of a board
//! as 768 features, the numbering of the 4096 moves, and the moves that a
//! position allows.

use vstd::prelude::*;
use crate::chess::{Board, Game, Move, Piece, PieceType, Square};
use crate::chess::model;

verus! {

/// The number of features of an encoded board: twelve for each square.
pub const BOARD_FEATURES: usize = 768;

/// The number of moves a network chooses among: one for each pair of squares.
pub const MOVE_COUNT: usize = 4096;

/// After this many plies without a capture or a pawn move the game is over.
pub const QUIET_PLY_LIMIT: usize = 50;

impl PieceType {
    /// The place of a kind of piece among the features of a square.
    pub open spec fn ordinal_spec(self) -> int {
        match self {
            PieceType::Pawn => 0,
            PieceType::Bishop => 1,
            PieceType::Knight => 2,
            PieceType::Rook => 3,
            PieceType::Queen => 4,
            PieceType::King => 5,
        }
    }

    /// The place of a kind of piece among the features of a square.
    pub fn ordinal(self) -> (i: usize)
        ensures
            i == self.ordinal_spec(),
    {
        match self {
            PieceType::Pawn => 0,
            PieceType::Bishop => 1,
            PieceType::Knight => 2,
            PieceType::Rook => 3,
            PieceType::Queen => 4,
            PieceType::King => 5,
        }
    }
}

/// The feature that is set when `p` stands on file `x`, rank `y`.
pub open spec fn feature_index(x: int, y: int, p: Piece) -> int {
    (x * 8 + y) * 12 + p.piece_type.ordinal_spec() + p.color.index() * 6
}

/// Feature `k` of a grid: 1 if the square that `k` belongs to holds the
/// piece that `k` stands for, else 0.
pub open spec fn feature(g: Seq<Square>, k: int) -> u8 {
    let x = (k / 12) / 8;
    let y = (k / 12) % 8;
    match model::at(g, x, y) {
        Some(p) => if feature_index(x, y, p) == k {
            1u8
        } else {
            0u8
        },
        None => 0u8,
    }
}

/// The features that are set are those of the pieces on the board: one for
/// each piece, and none besides.
pub proof fn lemma_features_are_pieces(g: Seq<Square>, k: int)
    requires
        0 <= k < BOARD_FEATURES,
    ensures
        feature(g, k) == 1 <==> exists|x: int, y: int, p: Piece|
            model::on_board(x, y) && model::at(g, x, y) == Some(p) && #[trigger] feature_index(
                x,
                y,
                p,
            ) == k,
        feature(g, k) == 0 || feature(g, k) == 1,
{
    let x = (k / 12) / 8;
    let y = (k / 12) % 8;
    if feature(g, k) == 1 {
        // The piece on the square of `k` is the witness.
        let p = model::at(g, x, y)->0;
        assert(feature_index(x, y, p) == k);
    }
    if exists|a: int, b: int, p: Piece|
        model::on_board(a, b) && model::at(g, a, b) == Some(p) && #[trigger] feature_index(a, b, p)
            == k {
        // The features of a square are its own twelve: a piece whose
        // feature is `k` stands on the square of `k`.
        let (a, b, p) = choose|a: int, b: int, p: Piece|
            model::on_board(a, b) && model::at(g, a, b) == Some(p) && #[trigger] feature_index(
                a,
                b,
                p,
            ) == k;
        assert(a == x && b == y);
    }
}

/// Encodes a board as 768 features, each 0 or 1.
pub fn encode_board(board: &Board) -> (v: Vec<u8>)
    ensures
        v@.len() == BOARD_FEATURES,
        forall|k: int| 0 <= k < BOARD_FEATURES ==> v@[k] == feature(board@, k),
{
    let mut res: Vec<u8> = vec![0u8; 768];
    let mut x: u8 = 0;
    while x < 8
        invariant
            x <= 8,
            res@.len() == 768,
            forall|k: int|
                0 <= k < 768 ==> res@[k] == (if k < x * 96 {
                    feature(board@, k)
                } else {
                    0u8
                }),
        decreases 8 - x,
    {
        let mut y: u8 = 0;
        while y < 8
            invariant
                x < 8,
                y <= 8,
                res@.len() == 768,
                forall|k: int|
                    0 <= k < 768 ==> res@[k] == (if k < (x * 8 + y) * 12 {
                        feature(board@, k)
                    } else {
                        0u8
                    }),
            decreases 8 - y,
        {
            let base: usize = (x as usize * 8 + y as usize) * 12;
            match board.get_square(x, y) {
                Some(p) => {
                    let slot: usize = base + p.piece_type.ordinal() + usize::from(p.color) * 6;
                    res.set(slot, 1);
                },
                None => {},
            }
            assert forall|k: int| 0 <= k < 768 implies res@[k] == (if k < (x * 8 + (y + 1)) * 12 {
                feature(board@, k)
            } else {
                0u8
            }) by {
                // The twelve features from `base` on are those of this square.
                if base <= k < base + 12 {
                    assert((k / 12) / 8 == x && (k / 12) % 8 == y);
                }
            }
            y = y + 1;
        }
        x = x + 1;
    }
    res
}

/// The move with a given number: the source square is `i / 64` and the
/// destination square `i % 64`, each square counted rank by rank.
pub open spec fn move_at(i: int) -> Move {
    Move {
        src: (((i / 64) % 8) as u8, ((i / 64) / 8) as u8),
        dst: (((i % 64) % 8) as u8, ((i % 64) / 8) as u8),
    }
}

/// The move with a given number, between two squares of the board.
pub fn move_from_index(idx: usize) -> (m: Move)
    requires
        idx < MOVE_COUNT,
    ensures
        m == move_at(idx as int),
        model::on_board(m.src.0 as int, m.src.1 as int),
        model::on_board(m.dst.0 as int, m.dst.1 as int),
{
    let src_index: usize = idx / 64;
    let dst_index: usize = idx % 64;
    Move {
        src: ((src_index % 8) as u8, (src_index / 8) as u8),
        dst: ((dst_index % 8) as u8, (dst_index / 8) as u8),
    }
}

/// Every move between two squares of the board has exactly one number.
pub proof fn lemma_one_index_per_move(sx: int, sy: int, dx: int, dy: int)
    requires
        model::on_board(sx, sy),
        model::on_board(dx, dy),
    ensures
        0 <= model::cell(sx, sy) * 64 + model::cell(dx, dy) < MOVE_COUNT,
        move_at(model::cell(sx, sy) * 64 + model::cell(dx, dy)) == (Move {
            src: (sx as u8, sy as u8),
            dst: (dx as u8, dy as u8),
        }),
        forall|i: int|
            0 <= i < MOVE_COUNT && move_at(i) == (Move {
                src: (sx as u8, sy as u8),
                dst: (dx as u8, dy as u8),
            }) ==> i == model::cell(sx, sy) * 64 + model::cell(dx, dy),
{
}

/// Move number `i` is safe in the game.
pub open spec fn safe_at(game: Game, i: int) -> bool {
    let m = move_at(i);
    game.safe(m.src.0 as int, m.src.1 as int, m.dst.0 as int, m.dst.1 as int)
}

/// For each of the 4096 moves, whether it is safe in this position.
pub fn legal_moves(game: &mut Game) -> (mask: Vec<bool>)
    ensures
        *final(game) == *old(game),
        mask@.len() == MOVE_COUNT,
        forall|i: int| 0 <= i < MOVE_COUNT ==> mask@[i] == safe_at(*old(game), i),
{
    let mut mask: Vec<bool> = Vec::new();
    let mut i: usize = 0;
    while i < MOVE_COUNT
        invariant
            i <= MOVE_COUNT,
            *game == *old(game),
            mask@.len() == i,
            forall|j: int| 0 <= j < i ==> mask@[j] == safe_at(*old(game), j),
        decreases MOVE_COUNT - i,
    {
        let m = move_from_index(i);
        let safe = game.safe_move(m.src.0, m.src.1, m.dst.0, m.dst.1);
        mask.push(safe);
        i = i + 1;
    }
    mask
}

/// The position allows no move: the game has gone fifty plies without a
/// capture or a pawn move, or no move is safe.
pub open spec fn is_over(game: Game) -> bool {
    game.until_stalemate >= QUIET_PLY_LIMIT || forall|i: int|
        0 <= i < MOVE_COUNT ==> !#[trigger] safe_at(game, i)
}

/// The moves among which the side to play may choose, as one flag for each
/// of the 4096 moves, or `None` when the game is over.
pub fn candidate_moves(game: &mut Game) -> (r: Option<Vec<bool>>)
    ensures
        *final(game) == *old(game),
        r is None <==> is_over(*old(game)),
        r matches Some(mask) ==> mask@.len() == MOVE_COUNT && forall|i: int|
            0 <= i < MOVE_COUNT ==> mask@[i] == safe_at(*old(game), i),
{
    if game.until_stalemate >= QUIET_PLY_LIMIT {
        return None;
    }
    let mask = legal_moves(game);
    let mut i: usize = 0;
    while i < MOVE_COUNT
        invariant
            i <= MOVE_COUNT,
            *game == *old(game),
            game.until_stalemate < QUIET_PLY_LIMIT,
            mask@.len() == MOVE_COUNT,
            forall|j: int| 0 <= j < MOVE_COUNT ==> mask@[j] == safe_at(*old(game), j),
            forall|j: int| 0 <= j < i ==> !mask@[j],
        decreases MOVE_COUNT - i,
    {
        if mask[i] {
            return Some(mask);
        }
        i = i + 1;
    }
    None
}

/// The move that a drawn number stands for, if that move is safe; a number
/// that stands for no move, or for one that is not safe, gives `None`, and
/// the caller draws again.
pub fn sampled_move(game: &mut Game, index: usize) -> (r: Option<Move>)
    ensures
        *final(game) == *old(game),
        r == (if index < MOVE_COUNT && safe_at(*old(game), index as int) {
            Some(move_at(index as int))
        } else {
            None
        }),
{
    if index >= MOVE_COUNT {
        return None;
    }
    let m = move_from_index(index);
    if game.safe_move(m.src.0, m.src.1, m.dst.0, m.dst.1) {
        Some(m)
    } else {
        None
    }
}

} // verus!
