//! One generation of a tournament: who plays whom, who survives, and who
//! breeds with whom.

use vstd::prelude::*;
use vstd::arithmetic::div_mod::lemma_fundamental_div_mod_converse;

verus! {

/// The number of networks in a generation.
pub const POPULATION: usize = 256;

/// The most matches that one network plays in a generation.
pub const MATCH_CAP: usize = 16;

/// The number of networks that survive a generation.
pub const ELITE_COUNT: usize = 8;

/// The survivors are saved whenever the number of the generation is a
/// multiple of this.
pub const CHECKPOINT_EVERY: usize = 5;

/// Whether the survivors of a generation are saved.
pub fn is_checkpoint(generation: usize) -> (r: bool)
    ensures
        r == (generation % CHECKPOINT_EVERY == 0),
{
    generation % CHECKPOINT_EVERY == 0
}

/// The `k`-th ordered pair of `n` players: the first player varies slowest.
pub open spec fn pair_at(n: int, k: int) -> (usize, usize) {
    ((k / n) as usize, (k % n) as usize)
}

/// Every ordered pair of `n` players, a player with itself included.
pub open spec fn all_pairs_spec(n: int) -> Seq<(usize, usize)> {
    Seq::new((n * n) as nat, |k: int| pair_at(n, k))
}

/// Every ordered pair of players, in order of the first and then of the
/// second.
pub fn all_pairs(network_count: usize) -> (pairs: Vec<(usize, usize)>)
    requires
        network_count * network_count <= usize::MAX,
    ensures
        pairs@ == all_pairs_spec(network_count as int),
{
    let n = network_count;
    let mut pairs: Vec<(usize, usize)> = Vec::new();
    let mut i: usize = 0;
    while i < n
        invariant
            i <= n,
            pairs@.len() == i * n,
            forall|k: int| 0 <= k < pairs@.len() ==> pairs@[k] == pair_at(n as int, k),
        decreases n - i,
    {
        let mut j: usize = 0;
        while j < n
            invariant
                i < n,
                j <= n,
                pairs@.len() == i * n + j,
                forall|k: int| 0 <= k < pairs@.len() ==> pairs@[k] == pair_at(n as int, k),
            decreases n - j,
        {
            proof {
                lemma_fundamental_div_mod_converse(i * n + j, n as int, i as int, j as int);
            }
            pairs.push((i, j));
            j = j + 1;
        }
        assert((i + 1) * n == i * n + n) by (nonlinear_arith);
        i = i + 1;
    }
    pairs
}

/// In how many of the matches a player takes part.
pub open spec fn appearances(matches: Seq<(usize, usize)>, player: usize) -> nat
    decreases matches.len(),
{
    if matches.len() == 0 {
        0
    } else {
        let last = matches.last();
        appearances(matches.drop_last(), player) + (if last.0 == player {
            1nat
        } else {
            0nat
        }) + (if last.1 == player {
            1nat
        } else {
            0nat
        })
    }
}

/// A pair is taken when it is of two different players of the generation
/// and neither has its fill of matches yet.
pub open spec fn admits(
    matches: Seq<(usize, usize)>,
    pair: (usize, usize),
    network_count: usize,
    max_matches: usize,
) -> bool {
    &&& pair.0 != pair.1
    &&& pair.0 < network_count
    &&& pair.1 < network_count
    &&& appearances(matches, pair.0) < max_matches
    &&& appearances(matches, pair.1) < max_matches
}

/// The matches chosen from a list of pairs: each pair in turn is taken if
/// the matches chosen before it admit it.
pub open spec fn schedule(
    pairs: Seq<(usize, usize)>,
    network_count: usize,
    max_matches: usize,
) -> Seq<(usize, usize)>
    decreases pairs.len(),
{
    if pairs.len() == 0 {
        Seq::empty()
    } else {
        let before = schedule(pairs.drop_last(), network_count, max_matches);
        if admits(before, pairs.last(), network_count, max_matches) {
            before.push(pairs.last())
        } else {
            before
        }
    }
}

/// Whatever the pairs, no match of the schedule is of a player against
/// itself or names a player outside the generation, and no player takes part
/// in more matches than the cap allows.
pub proof fn lemma_schedule_is_fair(
    pairs: Seq<(usize, usize)>,
    network_count: usize,
    max_matches: usize,
)
    ensures
        forall|k: int|
            0 <= k < schedule(pairs, network_count, max_matches).len() ==> {
                let m = #[trigger] schedule(pairs, network_count, max_matches)[k];
                m.0 != m.1 && m.0 < network_count && m.1 < network_count
            },
        forall|player: usize|
            #[trigger] appearances(schedule(pairs, network_count, max_matches), player)
                <= max_matches,
    decreases pairs.len(),
{
    if pairs.len() > 0 {
        let before = schedule(pairs.drop_last(), network_count, max_matches);
        lemma_schedule_is_fair(pairs.drop_last(), network_count, max_matches);
        if admits(before, pairs.last(), network_count, max_matches) {
            let after = before.push(pairs.last());
            assert(after.drop_last() =~= before);
            assert forall|player: usize| #[trigger] appearances(after, player) <= max_matches by {
                assert(appearances(before, player) <= max_matches);
            }
        }
    }
}

/// The schedule keeps the order of the pairs: it is what is left of them
/// when the pairs that were not taken are struck out.
pub proof fn lemma_schedule_keeps_order(
    pairs: Seq<(usize, usize)>,
    network_count: usize,
    max_matches: usize,
) -> (picked: Seq<int>)
    ensures
        picked.len() == schedule(pairs, network_count, max_matches).len(),
        forall|k: int| 0 <= k < picked.len() ==> 0 <= #[trigger] picked[k] < pairs.len(),
        forall|a: int, b: int| 0 <= a < b < picked.len() ==> picked[a] < picked[b],
        forall|k: int|
            0 <= k < picked.len() ==> schedule(pairs, network_count, max_matches)[k]
                == pairs[#[trigger] picked[k]],
    decreases pairs.len(),
{
    if pairs.len() == 0 {
        Seq::empty()
    } else {
        let before = schedule(pairs.drop_last(), network_count, max_matches);
        let picked = lemma_schedule_keeps_order(pairs.drop_last(), network_count, max_matches);
        if admits(before, pairs.last(), network_count, max_matches) {
            picked.push(pairs.len() - 1)
        } else {
            picked
        }
    }
}

/// A player's matches only grow in number as more pairs are gone through.
pub proof fn lemma_schedule_grows(
    pairs: Seq<(usize, usize)>,
    network_count: usize,
    max_matches: usize,
    t: int,
    player: usize,
)
    requires
        0 <= t <= pairs.len(),
    ensures
        appearances(schedule(pairs.take(t), network_count, max_matches), player) <= appearances(
            schedule(pairs, network_count, max_matches),
            player,
        ),
    decreases pairs.len() - t,
{
    if t < pairs.len() {
        let shorter = pairs.drop_last();
        assert(shorter.take(t) =~= pairs.take(t));
        lemma_schedule_grows(shorter, network_count, max_matches, t, player);
        let before = schedule(shorter, network_count, max_matches);
        if admits(before, pairs.last(), network_count, max_matches) {
            assert(before.push(pairs.last()).drop_last() =~= before);
        }
    } else {
        assert(pairs.take(t) =~= pairs);
    }
}

/// The schedule leaves out no pair that it could still take: a pair that
/// was passed over when its turn came is not admitted at the end either.
pub proof fn lemma_schedule_is_full(
    pairs: Seq<(usize, usize)>,
    network_count: usize,
    max_matches: usize,
    t: int,
)
    requires
        0 <= t < pairs.len(),
        !admits(schedule(pairs.take(t), network_count, max_matches), pairs[t], network_count, max_matches),
    ensures
        !admits(schedule(pairs, network_count, max_matches), pairs[t], network_count, max_matches),
{
    lemma_schedule_grows(pairs, network_count, max_matches, t, pairs[t].0);
    lemma_schedule_grows(pairs, network_count, max_matches, t, pairs[t].1);
}

/// Goes through the pairs in the order given and takes each one that the
/// matches taken so far admit.
pub fn select_matches(
    pairs: &Vec<(usize, usize)>,
    network_count: usize,
    max_matches: usize,
) -> (matches: Vec<(usize, usize)>)
    ensures
        matches@ == schedule(pairs@, network_count, max_matches),
{
    let mut matches: Vec<(usize, usize)> = Vec::new();
    let mut match_count: Vec<usize> = vec![0usize; network_count];
    let mut k: usize = 0;
    while k < pairs.len()
        invariant
            k <= pairs.len(),
            match_count@.len() == network_count,
            matches@ == schedule(pairs@.take(k as int), network_count, max_matches),
            forall|p: int|
                0 <= p < network_count ==> #[trigger] match_count@[p] == appearances(
                    matches@,
                    p as usize,
                ),
        decreases pairs.len() - k,
    {
        let (i, j) = pairs[k];
        let ghost before = matches@;
        proof {
            assert(pairs@.take(k + 1).drop_last() =~= pairs@.take(k as int));
        }
        if i < network_count && j < network_count && i != j && match_count[i] < max_matches
            && match_count[j] < max_matches {
            matches.push((i, j));
            match_count.set(i, match_count[i] + 1);
            match_count.set(j, match_count[j] + 1);
            proof {
                assert(matches@.drop_last() =~= before);
            }
        }
        k = k + 1;
    }
    proof {
        assert(pairs@.take(pairs@.len() as int) =~= pairs@);
    }
    matches
}

/// `rand::rngs::ThreadRng`: the random number generator of the thread.
#[verifier::external_type_specification]
#[verifier::external_body]
pub struct ExThreadRng(rand::rngs::ThreadRng);

/// `rand::rng`: a handle to the generator of the thread. Nothing is claimed
/// of it.
#[verifier::external_body]
fn thread_rng() -> rand::rngs::ThreadRng {
    rand::rng()
}

/// `rand::seq::SliceRandom::shuffle`: the pairs come back in some other
/// order. Which order is left open; nothing is added and nothing is lost.
#[verifier::external_body]
fn shuffle(pairs: &mut Vec<(usize, usize)>, rng: &mut rand::rngs::ThreadRng)
    ensures
        final(pairs)@.to_multiset() == old(pairs)@.to_multiset(),
{
    rand::seq::SliceRandom::shuffle(pairs.as_mut_slice(), rng);
}

/// The matches of a generation: every ordered pair of players in a random
/// order, and from these the schedule. So each player plays at most
/// `max_matches` times, and never itself.
pub fn make_matches(network_count: usize, max_matches: usize) -> (matches: Vec<(usize, usize)>)
    requires
        network_count * network_count <= usize::MAX,
    ensures
        exists|order: Seq<(usize, usize)>|
            order.to_multiset() == all_pairs_spec(network_count as int).to_multiset()
                && matches@ == #[trigger] schedule(order, network_count, max_matches),
        forall|k: int|
            0 <= k < matches@.len() ==> (#[trigger] matches@[k]).0 != matches@[k].1 && matches@[k].0
                < network_count && matches@[k].1 < network_count,
        forall|player: usize| #[trigger] appearances(matches@, player) <= max_matches,
{
    let mut rng = thread_rng();
    let mut pairs = all_pairs(network_count);
    shuffle(&mut pairs, &mut rng);
    let matches = select_matches(&pairs, network_count, max_matches);
    proof {
        lemma_schedule_is_fair(pairs@, network_count, max_matches);
    }
    matches
}

/// A match counts when it is of two different players of the generation and
/// neither total would leave the range of the scores.
pub open spec fn counts(results: Seq<i128>, pairing: (usize, usize), scores: (i128, i128)) -> bool {
    &&& pairing.0 != pairing.1
    &&& pairing.0 < results.len()
    &&& pairing.1 < results.len()
    &&& i128::MIN <= results[pairing.0 as int] + scores.0 <= i128::MAX
    &&& i128::MIN <= results[pairing.1 as int] + scores.1 <= i128::MAX
}

/// The totals once a match has been added: the first player of the pair
/// gains the first score and the second the second.
pub open spec fn credited(results: Seq<i128>, pairing: (usize, usize), scores: (i128, i128)) -> Seq<
    i128,
> {
    results.update(pairing.0 as int, (results[pairing.0 as int] + scores.0) as i128).update(
        pairing.1 as int,
        (results[pairing.1 as int] + scores.1) as i128,
    )
}

/// Adds the scores of one match to the totals of its two players, if the
/// match counts, and says whether it did. A match that does not count
/// changes nothing.
pub fn record_outcome(results: &mut Vec<i128>, pairing: (usize, usize), scores: (i128, i128)) -> (r:
    bool)
    ensures
        r == counts(old(results)@, pairing, scores),
        final(results)@ == (if r {
            credited(old(results)@, pairing, scores)
        } else {
            old(results)@
        }),
{
    let (i, j) = pairing;
    if i == j || i >= results.len() || j >= results.len() {
        return false;
    }
    let first = match results[i].checked_add(scores.0) {
        Some(v) => v,
        None => {
            return false;
        },
    };
    let second = match results[j].checked_add(scores.1) {
        Some(v) => v,
        None => {
            return false;
        },
    };
    results.set(i, first);
    results.set(j, second);
    true
}

/// Player `a` ranks before player `b`: it has the higher score, or the
/// same score and the lower number.
pub open spec fn outranks(scores: Seq<i128>, a: int, b: int) -> bool {
    scores[a] > scores[b] || (scores[a] == scores[b] && a < b)
}

/// `elite` lists, best first, the `n` best of the first `upto` players, or
/// all of them if they are fewer.
pub open spec fn leads(scores: Seq<i128>, upto: int, n: int, elite: Seq<usize>) -> bool {
    &&& elite.len() == (if n <= upto {
        n
    } else {
        upto
    })
    &&& forall|k: int| 0 <= k < elite.len() ==> #[trigger] elite[k] < upto
    &&& forall|a: int, b: int|
        #![trigger elite[a], elite[b]]
        0 <= a < b < elite.len() ==> outranks(scores, elite[a] as int, elite[b] as int)
    &&& forall|k: int, j: usize|
        #![trigger elite[k], elite.contains(j)]
        0 <= k < elite.len() && j < upto && !elite.contains(j) ==> outranks(
            scores,
            elite[k] as int,
            j as int,
        )
}

/// The `n` best players, best first; among players with the same score the
/// one with the lower number ranks first.
pub open spec fn is_elite(scores: Seq<i128>, n: int, elite: Seq<usize>) -> bool {
    leads(scores, scores.len() as int, n, elite)
}

/// The `n` best players by score, best first, or all of them if they are
/// fewer; among players with the same score the lower number ranks first.
pub fn get_elites(scores: &Vec<i128>, n: usize) -> (elite: Vec<usize>)
    ensures
        is_elite(scores@, n as int, elite@),
{
    let mut elite: Vec<usize> = Vec::new();
    let mut i: usize = 0;
    while i < scores.len()
        invariant
            i <= scores.len(),
            leads(scores@, i as int, n as int, elite@),
            elite@.len() < n ==> forall|j: usize| j < i ==> elite@.contains(j),
        decreases scores.len() - i,
    {
        let ghost before = elite@;
        let mut p: usize = 0;
        while p < elite.len() && scores[elite[p]] >= scores[i]
            invariant
                p <= elite.len(),
                i < scores.len(),
                elite@ == before,
                forall|k: int| 0 <= k < elite@.len() ==> #[trigger] elite@[k] < i,
                forall|k: int| 0 <= k < p ==> scores@[(#[trigger] elite@[k]) as int] >= scores@[i as int],
            decreases elite.len() - p,
        {
            p = p + 1;
        }
        if p < n {
            elite.insert(p, i);
            let ghost grown = elite@;
            proof {
                // The list has gained player `i`, and kept the others.
                assert forall|j: usize| grown.contains(j) <==> (j == i || before.contains(j)) by {
                    if before.contains(j) {
                        let t = choose|t: int| 0 <= t < before.len() && before[t] == j;
                        if t < p {
                            assert(grown[t] == j);
                        } else {
                            assert(grown[t + 1] == j);
                        }
                    }
                    if j == i {
                        assert(grown[p as int] == j);
                    }
                }
            }
            if elite.len() > n {
                elite.truncate(n);
                proof {
                    // The player that has left ranks after all that stay.
                    let kept = elite@;
                    assert forall|k: int, j: usize|
                        0 <= k < kept.len() && j < i + 1 && !kept.contains(j) implies outranks(
                        scores@,
                        kept[k] as int,
                        j as int,
                    ) by {
                        if grown.contains(j) {
                            let t = choose|t: int| 0 <= t < grown.len() && grown[t] == j;
                            if t < n {
                                assert(kept[t] == j);
                            }
                        }
                    }
                }
            }
        }
        i = i + 1;
    }
    elite
}

/// Two lists that both hold the best players agree on their first `k`.
proof fn lemma_elites_agree(
    scores: Seq<i128>,
    upto: int,
    n: int,
    first: Seq<usize>,
    second: Seq<usize>,
    k: int,
)
    requires
        leads(scores, upto, n, first),
        leads(scores, upto, n, second),
        0 <= k <= first.len(),
    ensures
        forall|t: int| 0 <= t < k ==> first[t] == second[t],
    decreases k,
{
    if k > 0 {
        lemma_elites_agree(scores, upto, n, first, second, k - 1);
        let x = first[k - 1];
        let y = second[k - 1];
        if x != y {
            if outranks(scores, x as int, y as int) {
                lemma_outranked_is_absent(scores, upto, n, second, first, k - 1);
            } else {
                lemma_outranked_is_absent(scores, upto, n, first, second, k - 1);
            }
        }
    }
}

/// Where two lists of the best agree before place `k`, the player that
/// `other` has there does not rank before the one that `elite` has there:
/// `elite` would have to hold that player further on, which its order
/// forbids, or not at all, which its choice forbids.
proof fn lemma_outranked_is_absent(
    scores: Seq<i128>,
    upto: int,
    n: int,
    elite: Seq<usize>,
    other: Seq<usize>,
    k: int,
)
    requires
        leads(scores, upto, n, elite),
        leads(scores, upto, n, other),
        0 <= k < elite.len(),
        forall|t: int| 0 <= t < k ==> elite[t] == other[t],
    ensures
        !outranks(scores, other[k] as int, elite[k] as int),
{
    let x = other[k];
    if !outranks(scores, x as int, elite[k] as int) {
    } else if elite.contains(x) {
        let t = choose|t: int| 0 <= t < elite.len() && elite[t] == x;
        if t < k {
        } else if t > k {
        }
    } else {
    }
}

/// The scores and the number asked for decide the elite: there is one list
/// of the best and no other.
pub proof fn lemma_elite_is_unique(scores: Seq<i128>, n: int, first: Seq<usize>, second: Seq<usize>)
    requires
        is_elite(scores, n, first),
        is_elite(scores, n, second),
    ensures
        first == second,
{
    lemma_elites_agree(scores, scores.len() as int, n, first, second, first.len() as int);
}

/// The second parent that a draw stands for, once the first is chosen: the
/// draws below the first parent stand for themselves, the others for the
/// next player up.
pub open spec fn other_parent(first: int, draw: int) -> int {
    if draw >= first {
        draw + 1
    } else {
        draw
    }
}

/// The second parent that a draw stands for, once the first is chosen.
pub fn second_parent(first: usize, draw: usize) -> (second: usize)
    requires
        draw < usize::MAX,
    ensures
        second == other_parent(first as int, draw as int),
{
    if draw >= first {
        draw + 1
    } else {
        draw
    }
}

/// Over the draws below `elite_count - 1`, each player but the first parent
/// is the second parent for exactly one draw: a draw that is uniform gives a
/// second parent that is uniform over the others.
pub proof fn lemma_other_parent_is_fair(elite_count: int, first: int, second: int)
    requires
        0 <= first < elite_count,
        0 <= second < elite_count,
        second != first,
    ensures
        exists|draw: int|
            0 <= draw < elite_count - 1 && #[trigger] other_parent(first, draw) == second,
        forall|d1: int, d2: int|
            other_parent(first, d1) == second && other_parent(first, d2) == second ==> d1 == d2,
        forall|draw: int|
            0 <= draw < elite_count - 1 ==> 0 <= #[trigger] other_parent(first, draw) < elite_count
                && other_parent(first, draw) != first,
{
    if second > first {
        assert(other_parent(first, second - 1) == second);
    } else {
        assert(other_parent(first, second) == second);
    }
}

/// `rand::Rng::random_range` over `0..bound`: a number below the bound.
/// Which one is left open.
#[verifier::external_body]
fn random_below(rng: &mut rand::rngs::ThreadRng, bound: usize) -> (r: usize)
    requires
        bound > 0,
    ensures
        r < bound,
{
    rand::Rng::random_range(rng, 0..bound)
}

/// Two different members of the elite, drawn at random.
pub fn pick_parents(elite_count: usize) -> (parents: (usize, usize))
    requires
        elite_count >= 2,
    ensures
        parents.0 < elite_count,
        parents.1 < elite_count,
        parents.0 != parents.1,
{
    let mut rng = thread_rng();
    draw_parents(&mut rng, elite_count)
}

/// Two different members of the elite, drawn from the generator given: the
/// first among all, the second among the others.
fn draw_parents(rng: &mut rand::rngs::ThreadRng, elite_count: usize) -> (parents: (usize, usize))
    requires
        elite_count >= 2,
    ensures
        parents.0 < elite_count,
        parents.1 < elite_count,
        parents.0 != parents.1,
{
    let first = random_below(rng, elite_count);
    let draw = random_below(rng, elite_count - 1);
    (first, second_parent(first, draw))
}

/// The parents of each network that a generation of `count` needs beside
/// its elite: one pair of different members of the elite for each.
pub fn plan_offspring(elite_count: usize, count: usize) -> (plan: Vec<(usize, usize)>)
    requires
        elite_count <= count,
        elite_count < count ==> elite_count >= 2,
    ensures
        plan@.len() == count - elite_count,
        forall|k: int|
            0 <= k < plan@.len() ==> (#[trigger] plan@[k]).0 < elite_count && plan@[k].1
                < elite_count && plan@[k].0 != plan@[k].1,
{
    let mut rng = thread_rng();
    let mut plan: Vec<(usize, usize)> = Vec::new();
    let num_offspring: usize = count - elite_count;
    let mut k: usize = 0;
    while k < num_offspring
        invariant
            k <= num_offspring,
            num_offspring > 0 ==> elite_count >= 2,
            plan@.len() == k,
            forall|t: int|
                0 <= t < plan@.len() ==> (#[trigger] plan@[t]).0 < elite_count && plan@[t].1
                    < elite_count && plan@[t].0 != plan@[t].1,
        decreases num_offspring - k,
    {
        let parents = draw_parents(&mut rng, elite_count);
        plan.push(parents);
        k = k + 1;
    }
    plan
}

} // verus!
