use poulet::chess::Color::{Black, White};
use poulet::chess::PieceType::{King, Knight, Pawn, Queen, Rook};
use poulet::chess::{Board, Game, Move, Piece};
use poulet::policy::{
    candidate_moves, legal_moves, sampled_move, BOARD_FEATURES, MOVE_COUNT, QUIET_PLY_LIMIT,
};
use poulet::{encode_board, move_from_index};

fn index_of(sx: usize, sy: usize, dx: usize, dy: usize) -> usize {
    (sy * 8 + sx) * 64 + dy * 8 + dx
}

#[test]
fn encoding_of_the_empty_board_is_all_zero() {
    let v = encode_board(&Board::new());
    assert_eq!(v.len(), 768);
    assert_eq!(v.len(), BOARD_FEATURES);
    assert!(v.iter().all(|&f| f == 0));
}

#[test]
fn encoding_of_the_starting_board_has_thirty_two_ones() {
    let game = Game::default();
    let v = encode_board(&game.board);
    assert_eq!(v.len(), 768);
    assert_eq!(v.iter().filter(|&&f| f == 1).count(), 32);
    assert_eq!(v.iter().filter(|&&f| f == 0).count(), 768 - 32);
}

#[test]
fn encoding_sets_the_feature_of_each_piece() {
    let mut board = Board::new();
    board.set_square(0, 0, Some(Piece::new(White, Pawn)));
    board.set_square(2, 5, Some(Piece::new(Black, Knight)));
    board.set_square(7, 7, Some(Piece::new(Black, King)));
    board.set_square(3, 1, Some(Piece::new(White, Queen)));
    let v = encode_board(&board);
    let mut expected = vec![0u8; 768];
    expected[0] = 1;
    expected[(2 * 8 + 5) * 12 + 2 + 6] = 1;
    expected[(7 * 8 + 7) * 12 + 5 + 6] = 1;
    expected[(3 * 8 + 1) * 12 + 4] = 1;
    assert_eq!(v, expected);
    assert_eq!(v[260], 1);
    assert_eq!(v[767], 1);
    assert_eq!(v[304], 1);
}

#[test]
fn move_from_index_splits_source_and_destination() {
    assert_eq!(move_from_index(0), Move { src: (0, 0), dst: (0, 0) });
    assert_eq!(move_from_index(1), Move { src: (0, 0), dst: (1, 0) });
    assert_eq!(move_from_index(8), Move { src: (0, 0), dst: (0, 1) });
    assert_eq!(move_from_index(64), Move { src: (1, 0), dst: (0, 0) });
    assert_eq!(move_from_index(4095), Move { src: (7, 7), dst: (7, 7) });
    assert_eq!(move_from_index(12 * 64 + 28), Move { src: (4, 1), dst: (4, 3) });
    assert_eq!(move_from_index(index_of(6, 0, 5, 2)), Move { src: (6, 0), dst: (5, 2) });
}

#[test]
fn every_move_has_its_own_index() {
    let mut seen = std::collections::HashSet::new();
    for i in 0..MOVE_COUNT {
        let m = move_from_index(i);
        assert!(m.src.0 < 8 && m.src.1 < 8 && m.dst.0 < 8 && m.dst.1 < 8);
        assert!(seen.insert((m.src, m.dst)));
        assert_eq!(
            index_of(m.src.0 as usize, m.src.1 as usize, m.dst.0 as usize, m.dst.1 as usize),
            i
        );
    }
    assert_eq!(seen.len(), 4096);
}

#[test]
fn legal_moves_of_the_starting_position() {
    let mut game = Game::default();
    let mask = legal_moves(&mut game);
    assert_eq!(mask.len(), 4096);
    // Twenty moves for each side: the turn is not asked.
    assert_eq!(mask.iter().filter(|&&b| b).count(), 40);
    assert!(mask[index_of(4, 1, 4, 3)]);
    assert!(mask[index_of(6, 0, 5, 2)]);
    assert!(mask[index_of(3, 6, 3, 4)]);
    assert!(!mask[index_of(4, 0, 4, 1)]);
    assert!(!mask[index_of(0, 0, 0, 3)]);
    for i in 0..4096 {
        let m = move_from_index(i);
        assert_eq!(mask[i], game.safe_move(m.src.0, m.src.1, m.dst.0, m.dst.1));
    }
    assert_eq!(game.board.0.to_vec(), Game::default().board.0.to_vec());
}

#[test]
fn candidate_moves_end_the_game_after_fifty_quiet_plies() {
    let mut game = Game::default();
    game.until_stalemate = QUIET_PLY_LIMIT;
    assert_eq!(candidate_moves(&mut game), None);
    game.until_stalemate = 49;
    let mask = candidate_moves(&mut game).unwrap();
    assert_eq!(mask.iter().filter(|&&b| b).count(), 40);
    game.until_stalemate = 51;
    assert_eq!(candidate_moves(&mut game), None);
}

#[test]
fn candidate_moves_end_the_game_when_nothing_can_move() {
    let mut game = Game { board: Board::new(), ..Default::default() };
    assert_eq!(candidate_moves(&mut game), None);

    // A lone king in the corner, smothered by a queen a knight's jump away
    // and a rook: mated, and no other piece on the board can move safely.
    let mut board = Board::new();
    board.set_square(0, 0, Some(Piece::new(White, King)));
    let mut game = Game { board, ..Default::default() };
    let mask = candidate_moves(&mut game).unwrap();
    assert_eq!(mask.iter().filter(|&&b| b).count(), 3);
}

#[test]
fn sampled_move_accepts_safe_moves_only() {
    let mut game = Game::default();
    assert_eq!(
        sampled_move(&mut game, index_of(4, 1, 4, 3)),
        Some(Move { src: (4, 1), dst: (4, 3) })
    );
    assert_eq!(sampled_move(&mut game, index_of(4, 1, 4, 4)), None);
    assert_eq!(sampled_move(&mut game, 0), None);
    assert_eq!(sampled_move(&mut game, 4096), None);
    assert_eq!(sampled_move(&mut game, usize::MAX), None);

    let mut board = Board::new();
    board.set_square(4, 0, Some(Piece::new(White, King)));
    board.set_square(4, 1, Some(Piece::new(White, Rook)));
    board.set_square(4, 7, Some(Piece::new(Black, Rook)));
    let mut pinned = Game { board, turn: Black, ..Default::default() };
    assert_eq!(sampled_move(&mut pinned, index_of(4, 1, 5, 1)), None);
    assert_eq!(
        sampled_move(&mut pinned, index_of(4, 1, 4, 7)),
        Some(Move { src: (4, 1), dst: (4, 7) })
    );
}
