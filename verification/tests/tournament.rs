use poulet::evolve::{
    all_pairs, get_elites, is_checkpoint, make_matches, pick_parents, plan_offspring,
    record_outcome, second_parent, select_matches, CHECKPOINT_EVERY, ELITE_COUNT, MATCH_CAP, POPULATION,
};

fn appearances(matches: &[(usize, usize)], player: usize) -> usize {
    matches.iter().filter(|m| m.0 == player).count()
        + matches.iter().filter(|m| m.1 == player).count()
}

#[test]
fn the_evolution_runs_on_these_numbers() {
    assert_eq!(POPULATION, 256);
    assert_eq!(MATCH_CAP, 16);
    assert_eq!(ELITE_COUNT, 8);
    assert_eq!(CHECKPOINT_EVERY, 5);
}

#[test]
fn every_fifth_generation_is_saved() {
    assert!(is_checkpoint(5));
    assert!(is_checkpoint(10));
    assert!(is_checkpoint(0));
    assert!(!is_checkpoint(1));
    assert!(!is_checkpoint(4));
    assert!(!is_checkpoint(6));
}

#[test]
fn all_pairs_lists_every_ordered_pair() {
    assert_eq!(all_pairs(0), vec![]);
    assert_eq!(all_pairs(1), vec![(0, 0)]);
    assert_eq!(
        all_pairs(3),
        vec![(0, 0), (0, 1), (0, 2), (1, 0), (1, 1), (1, 2), (2, 0), (2, 1), (2, 2)]
    );
    assert_eq!(all_pairs(256).len(), 65536);
}

#[test]
fn select_matches_takes_pairs_in_order_up_to_the_cap() {
    let pairs = vec![(0, 1), (1, 1), (1, 0), (0, 2), (2, 1), (2, 3), (3, 2), (5, 0), (3, 1)];
    assert_eq!(select_matches(&pairs, 4, 2), vec![(0, 1), (1, 0), (2, 3), (3, 2)]);
    assert_eq!(
        select_matches(&pairs, 4, 3),
        vec![(0, 1), (1, 0), (0, 2), (2, 1), (2, 3)]
    );
    assert_eq!(select_matches(&pairs, 4, 0), vec![]);
    assert_eq!(select_matches(&pairs, 2, 9), vec![(0, 1), (1, 0)]);
    assert_eq!(select_matches(&vec![], 4, 2), vec![]);
    assert_eq!(
        select_matches(&all_pairs(3), 3, 2),
        vec![(0, 1), (0, 2), (1, 2)]
    );
}

#[test]
fn make_matches_keeps_every_player_under_the_cap() {
    let matches = make_matches(32, 4);
    for &(i, j) in &matches {
        assert!(i != j);
        assert!(i < 32 && j < 32);
    }
    for player in 0..32 {
        assert!(appearances(&matches, player) <= 4);
    }
    let mut seen = std::collections::HashSet::new();
    for m in &matches {
        assert!(seen.insert(*m));
    }
    // No pair is left that could still be added.
    for i in 0..32 {
        for j in 0..32 {
            if i != j && !seen.contains(&(i, j)) {
                assert!(appearances(&matches, i) == 4 || appearances(&matches, j) == 4);
            }
        }
    }
    assert!(matches.len() <= 32 * 4 / 2);
    assert!(matches.len() >= 32);
}

#[test]
fn make_matches_draws_the_pairs_in_a_random_order() {
    let in_order = select_matches(&all_pairs(64), 64, 4);
    let first = make_matches(64, 4);
    let second = make_matches(64, 4);
    assert!(first != in_order || second != in_order);
    assert!(first != second || first != make_matches(64, 4));
}

#[test]
fn make_matches_of_few_players() {
    assert_eq!(make_matches(0, 16), vec![]);
    assert_eq!(make_matches(1, 16), vec![]);
    assert_eq!(make_matches(5, 0), vec![]);
    let mut both = make_matches(2, 16);
    both.sort();
    assert_eq!(both, vec![(0, 1), (1, 0)]);
}

#[test]
fn get_elites_ranks_by_score_then_by_number() {
    assert_eq!(get_elites(&vec![5, 9, 5, 1, 9], 3), vec![1, 4, 0]);
    assert_eq!(get_elites(&vec![5, 9, 5, 1, 9], 5), vec![1, 4, 0, 2, 3]);
    assert_eq!(get_elites(&vec![5, 9, 5, 1, 9], 9), vec![1, 4, 0, 2, 3]);
    assert_eq!(get_elites(&vec![5, 9, 5, 1, 9], 0), vec![]);
    assert_eq!(get_elites(&vec![5, 9, 5, 1, 9], 1), vec![1]);
    assert_eq!(get_elites(&vec![], 3), vec![]);
    assert_eq!(get_elites(&vec![0, 0, 0, 0], 2), vec![0, 1]);
    assert_eq!(get_elites(&vec![-72000, 72000, 12, -15], 2), vec![1, 2]);
    assert_eq!(get_elites(&vec![1, 2, 3, 4, 5, 6], 2), vec![5, 4]);
}

#[test]
fn get_elites_agrees_with_a_stable_sort() {
    let scores: Vec<i128> = (0..256).map(|i: i128| (i * 7919) % 31 - 15).collect();
    let mut indexed: Vec<usize> = (0..256).collect();
    indexed.sort_by(|&a, &b| scores[b].cmp(&scores[a]));
    indexed.truncate(8);
    assert_eq!(get_elites(&scores, ELITE_COUNT), indexed);
}

#[test]
fn second_parent_skips_the_first() {
    assert_eq!(second_parent(0, 0), 1);
    assert_eq!(second_parent(3, 0), 0);
    assert_eq!(second_parent(3, 2), 2);
    assert_eq!(second_parent(3, 3), 4);
    assert_eq!(second_parent(3, 6), 7);
    for first in 0..8 {
        let mut others: Vec<usize> = (0..7).map(|d| second_parent(first, d)).collect();
        others.sort();
        let expected: Vec<usize> = (0..8).filter(|&p| p != first).collect();
        assert_eq!(others, expected);
    }
}

#[test]
fn pick_parents_gives_two_different_members() {
    let mut seen = std::collections::HashSet::new();
    for _ in 0..2000 {
        let (a, b) = pick_parents(8);
        assert!(a < 8 && b < 8 && a != b);
        seen.insert((a, b));
    }
    assert_eq!(seen.len(), 56);
    for _ in 0..50 {
        let (a, b) = pick_parents(2);
        assert!((a, b) == (0, 1) || (a, b) == (1, 0));
    }
}

#[test]
fn plan_offspring_fills_the_generation() {
    let plan = plan_offspring(8, 256);
    assert_eq!(plan.len(), 248);
    for &(a, b) in &plan {
        assert!(a < 8 && b < 8 && a != b);
    }
    assert_eq!(plan_offspring(8, 8), vec![]);
    assert_eq!(plan_offspring(0, 0), vec![]);
    assert_eq!(plan_offspring(1, 1), vec![]);
    assert_eq!(plan_offspring(2, 5).len(), 3);
}

#[test]
fn record_outcome_credits_both_players() {
    let mut results: Vec<i128> = vec![0, 10, -5];
    assert!(record_outcome(&mut results, (2, 0), (72, -15)));
    assert_eq!(results, vec![-15, 10, 67]);
    assert!(record_outcome(&mut results, (0, 1), (-72000, 72000)));
    assert_eq!(results, vec![-72015, 72010, 67]);
}

#[test]
fn record_outcome_ignores_what_is_no_match() {
    let mut results: Vec<i128> = vec![1, 2, 3];
    assert!(!record_outcome(&mut results, (1, 1), (5, 5)));
    assert!(!record_outcome(&mut results, (0, 3), (5, 5)));
    assert!(!record_outcome(&mut results, (3, 0), (5, 5)));
    assert!(!record_outcome(&mut results, (usize::MAX, 0), (5, 5)));
    assert_eq!(results, vec![1, 2, 3]);
    let mut full: Vec<i128> = vec![i128::MAX, i128::MIN, 0];
    assert!(!record_outcome(&mut full, (0, 2), (1, 1)));
    assert!(!record_outcome(&mut full, (2, 1), (1, -1)));
    assert_eq!(full, vec![i128::MAX, i128::MIN, 0]);
    assert!(record_outcome(&mut full, (0, 1), (-1, 1)));
    assert_eq!(full, vec![i128::MAX - 1, i128::MIN + 1, 0]);
}
