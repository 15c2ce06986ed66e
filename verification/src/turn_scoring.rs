//! Outcome of a two-player turn-based match from its committed move list:
//! players alternate, each move is worth a fixed number of points, and the
//! result encodes the winner and the score margin.
use vstd::prelude::*;
use crate::bits::{popcount, count_ones_u32, lemma_popcount_bound};
use vstd::arithmetic::power2::{pow2, lemma2_to64};

verus! {

/// Flag set in the outcome when player 1 wins.
pub const P1_WINS: u64 = 0x8000_0000_0000_0000;

/// Points a move is worth.
pub open spec fn move_points(mv: u32) -> nat {
    popcount(((mv & 0xFF) ^ ((mv >> 8u32) & 0xFF)) as nat) + (mv % 7) as nat
}

/// Player on move at ply `i` (`false` = player 0), the first ply going to `seed`.
pub open spec fn mover(seed: bool, i: nat) -> bool {
    if i % 2 == 0 {
        seed
    } else {
        !seed
    }
}

/// Points credited to `player` over the first `n` plies.
pub open spec fn player_score(moves: Seq<u32>, seed: bool, player: bool, n: nat) -> nat
    decreases n,
{
    if n == 0 {
        0
    } else {
        player_score(moves, seed, player, (n - 1) as nat) + (if mover(seed, (n - 1) as nat)
            == player {
            move_points(moves[n - 1])
        } else {
            0
        })
    }
}

/// Encoded outcome: the margin, with the top bit set when player 1 wins.
pub open spec fn outcome(score0: nat, score1: nat) -> nat {
    if score0 >= score1 {
        (score0 - score1) as nat
    } else {
        (P1_WINS + score1 - score0) as nat
    }
}

/// Points of one move.
pub fn points_of(mv: u32) -> (points: u64)
    ensures
        points == move_points(mv),
        points <= 14,
{
    let folded = (mv & 0xFF) ^ ((mv >> 8) & 0xFF);
    proof {
        assert(folded < 256) by (bit_vector)
            requires
                folded == (mv & 0xFF) ^ ((mv >> 8u32) & 0xFF),
        ;
        lemma2_to64();
        lemma_popcount_bound(folded as nat, 8);
    }
    count_ones_u32(folded) as u64 + (mv % 7) as u64
}

proof fn lemma_score_bound(moves: Seq<u32>, seed: bool, player: bool, n: nat)
    ensures
        player_score(moves, seed, player, n) <= 14 * n,
    decreases n,
{
    if n > 0 {
        lemma_score_bound(moves, seed, player, (n - 1) as nat);
        let mv = moves[n - 1];
        let folded = (mv & 0xFF) ^ ((mv >> 8u32) & 0xFF);
        assert(folded < 256) by (bit_vector)
            requires
                folded == (mv & 0xFF) ^ ((mv >> 8u32) & 0xFF),
        ;
        lemma2_to64();
        lemma_popcount_bound(folded as nat, 8);
    }
}

/// Scores the 32 plies of a match and encodes its outcome.
pub fn score_match(moves: [u32; 32], seed: bool) -> (result: u64)
    ensures
        result as nat == outcome(
            player_score(moves@, seed, false, 32),
            player_score(moves@, seed, true, 32),
        ),
{
    let mut turn: bool = seed;
    let mut score0: u64 = 0;
    let mut score1: u64 = 0;
    let mut i: usize = 0;
    while i < 32
        invariant
            i <= 32,
            turn == mover(seed, i as nat),
            score0 == player_score(moves@, seed, false, i as nat),
            score1 == player_score(moves@, seed, true, i as nat),
        decreases 32 - i,
    {
        let next_turn = !turn;
        let points = points_of(moves[i]);
        let mover_now = turn;
        turn = next_turn;
        proof {
            lemma_score_bound(moves@, seed, false, i as nat);
            lemma_score_bound(moves@, seed, true, i as nat);
        }
        if mover_now {
            score1 = score1 + points;
        } else {
            score0 = score0 + points;
        }
        i = i + 1;
    }
    proof {
        lemma_score_bound(moves@, seed, false, 32);
        lemma_score_bound(moves@, seed, true, 32);
    }
    if score0 >= score1 {
        score0 - score1
    } else {
        let d = score1 - score0;
        let r = (1u64 << 63) | d;
        assert(r == 0x8000_0000_0000_0000 + d) by (bit_vector)
            requires
                r == (1u64 << 63u64) | d,
                d < 0x8000_0000_0000_0000,
        ;
        r
    }
}

/// Starting with the other player swaps the two players' scores.
pub proof fn law_seed_swaps_players(moves: Seq<u32>, seed: bool, player: bool, n: nat)
    ensures
        player_score(moves, !seed, !player, n) == player_score(moves, seed, player, n),
    decreases n,
{
    if n > 0 {
        law_seed_swaps_players(moves, seed, player, (n - 1) as nat);
    }
}

/// The top bit of the outcome is set exactly when player 1 outscored player 0.
pub proof fn law_top_bit_names_winner(score0: nat, score1: nat)
    requires
        score0 < P1_WINS,
        score1 < P1_WINS,
    ensures
        (outcome(score0, score1) >= P1_WINS) <==> score1 > score0,
{
}

} // verus!
