//! Integer-only k-nearest-neighbour classification over distance buckets:
//! each reference label sits in the bucket of its distance to the query, the
//! five nearest are popped in order of distance, and a distance-weighted vote
//! names the class.
use vstd::prelude::*;

verus! {

/// Number of distance buckets.
pub const BUCKETS: usize = 64;

/// Neighbours taken into the vote.
pub const K: u32 = 5;

/// Number of classes voted on.
pub const CLASSES: usize = 8;

/// Index of the first occupied bucket (the length of `b` when none is).
pub open spec fn first_occupied(b: Seq<Option<u32>>) -> int
    decreases b.len(),
{
    if b.len() == 0 {
        0
    } else if b[0] is Some {
        0
    } else {
        1 + first_occupied(b.drop_first())
    }
}

/// Labels of the occupied buckets, nearest first.
pub open spec fn occupied_labels(b: Seq<Option<u32>>) -> Seq<u32>
    decreases b.len(),
{
    if b.len() == 0 {
        seq![]
    } else {
        (match b[0] {
            Some(v) => seq![v],
            None => seq![],
        }) + occupied_labels(b.drop_first())
    }
}

/// Buckets after placing the first `n` encoded references
/// (`distance_bucket * 256 + label`, `0` meaning "no reference").
pub open spec fn filled_buckets(encoded: Seq<u32>, n: nat) -> Seq<Option<u32>>
    decreases n,
{
    if n == 0 {
        Seq::new(64, |i: int| None::<u32>)
    } else {
        let b = filled_buckets(encoded, (n - 1) as nat);
        let e = encoded[n - 1];
        if e == 0 {
            b
        } else {
            b.update(((e >> 8u32) % 64) as int, Some(e & 0xff))
        }
    }
}

/// Vote of class `cls` from the first `r` ranked labels: the neighbour of
/// rank `j` contributes `K - j` to the class of its label.
pub open spec fn vote(labels: Seq<u32>, cls: nat, r: nat) -> nat
    decreases r,
{
    if r == 0 {
        0
    } else {
        vote(labels, cls, (r - 1) as nat) + (if (labels[r - 1] % 8) as nat == cls {
            (K - (r - 1)) as nat
        } else {
            0
        })
    }
}

/// Labels of the neighbours that take part in the vote for `encoded`.
pub open spec fn nearest_labels(encoded: Seq<u32>) -> Seq<u32> {
    let all = occupied_labels(filled_buckets(encoded, encoded.len()));
    all.take(if all.len() < K { all.len() as int } else { K as int })
}

/// Vote of class `cls` for `encoded`.
pub open spec fn class_vote(encoded: Seq<u32>, cls: nat) -> nat {
    vote(nearest_labels(encoded), cls, nearest_labels(encoded).len())
}

proof fn lemma_first_occupied(b: Seq<Option<u32>>)
    ensures
        0 <= first_occupied(b) <= b.len(),
        forall|j: int| 0 <= j < first_occupied(b) ==> b[j] is None,
        first_occupied(b) < b.len() ==> b[first_occupied(b)] == Some(occupied_labels(b)[0]),
        first_occupied(b) < b.len() ==> occupied_labels(b.update(first_occupied(b), None))
            == occupied_labels(b).drop_first(),
        (first_occupied(b) == b.len()) <==> occupied_labels(b).len() == 0,
    decreases b.len(),
{
    if b.len() > 0 {
        let t = b.drop_first();
        lemma_first_occupied(t);
        let i = first_occupied(b);
        if b[0] is Some {
            assert(b.update(0, None).drop_first() =~= t);
            assert(occupied_labels(b.update(0, None)) =~= occupied_labels(t));
            assert(occupied_labels(b).drop_first() =~= occupied_labels(t));
        } else {
            assert(occupied_labels(b) =~= occupied_labels(t));
            if i < b.len() {
                assert(b.update(i, None).drop_first() =~= t.update(i - 1, None));
                assert(occupied_labels(b.update(i, None)) =~= occupied_labels(t.update(i - 1, None)));
            }
            assert forall|j: int| 0 <= j < i implies b[j] is None by {
                if j > 0 {
                    assert(b[j] == t[j - 1]);
                }
            }
        }
    }
}

proof fn lemma_occupied_labels_len(b: Seq<Option<u32>>)
    ensures
        occupied_labels(b).len() <= b.len(),
    decreases b.len(),
{
    if b.len() > 0 {
        lemma_occupied_labels_len(b.drop_first());
    }
}

/// Takes the nearest occupied bucket's label out of `bucket`.
pub fn pop_nearest(bucket: &mut Vec<Option<u32>>) -> (nearest: Option<u32>)
    ensures
        first_occupied(old(bucket)@) < old(bucket)@.len() ==> nearest == old(bucket)@[first_occupied(
            old(bucket)@,
        )] && final(bucket)@ == old(bucket)@.update(first_occupied(old(bucket)@), None),
        first_occupied(old(bucket)@) == old(bucket)@.len() ==> nearest is None && final(bucket)@
            == old(bucket)@,
{
    proof {
        lemma_first_occupied(bucket@);
    }
    let mut i: usize = 0;
    loop
        invariant
            i <= bucket@.len(),
            bucket@ == old(bucket)@,
            forall|j: int| 0 <= j < i ==> bucket@[j] is None,
            0 <= first_occupied(old(bucket)@) <= old(bucket)@.len(),
            forall|j: int| 0 <= j < first_occupied(old(bucket)@) ==> old(bucket)@[j] is None,
            first_occupied(old(bucket)@) < old(bucket)@.len() ==> old(bucket)@[first_occupied(
                old(bucket)@,
            )] is Some,
        decreases bucket@.len() - i,
    {
        if i >= bucket.len() {
            return None;
        }
        if let Some(candidate) = bucket[i] {
            bucket.set(i, None);
            return Some(candidate);
        }
        i = i + 1;
    }
}

proof fn lemma_vote_bound(labels: Seq<u32>, cls: nat, r: nat)
    requires
        r <= K,
    ensures
        vote(labels, cls, r) <= 5 * r,
    decreases r,
{
    if r > 0 {
        lemma_vote_bound(labels, cls, (r - 1) as nat);
    }
}

/// Classifies a query from its 16 encoded references; the result is the
/// class with the highest vote, the lowest such class on a tie.
pub fn classify_knn(encoded: [u32; 16]) -> (class: u32)
    ensures
        class < 8,
        forall|c: nat| c < 8 ==> class_vote(encoded@, c) <= class_vote(encoded@, class as nat),
        forall|c: nat| c < class ==> class_vote(encoded@, c) < class_vote(encoded@, class as nat),
{
    let mut bucket: Vec<Option<u32>> = Vec::new();
    let mut b: usize = 0;
    while b < 64
        invariant
            b <= 64,
            bucket@.len() == b,
            forall|j: int| 0 <= j < b ==> bucket@[j] is None,
        decreases 64 - b,
    {
        bucket.push(None);
        b = b + 1;
    }
    assert(bucket@ =~= filled_buckets(encoded@, 0));
    let mut j: usize = 0;
    while j < 16
        invariant
            j <= 16,
            bucket@ == filled_buckets(encoded@, j as nat),
            bucket@.len() == 64,
        decreases 16 - j,
    {
        let e = encoded[j];
        if e != 0 {
            let dist = ((e >> 8) as usize) % 64;
            let label = e & 0xff;
            bucket.set(dist, Some(label));
        }
        j = j + 1;
    }
    let ghost all = occupied_labels(bucket@);
    let ghost taken: nat = if all.len() < K { all.len() } else { K as nat };
    proof {
        lemma_occupied_labels_len(bucket@);
        assert(nearest_labels(encoded@) =~= all.take(taken as int));
    }
    let mut score: [u32; 8] = [0; 8];
    let mut rank: u32 = 0;
    while rank < 5
        invariant_except_break
            rank <= 5,
            rank <= all.len(),
            taken == (if all.len() < K { all.len() } else { K as nat }),
            occupied_labels(bucket@) == all.skip(rank as int),
            bucket@.len() == 64,
            forall|c: int| 0 <= c < 8 ==> score@[c] == vote(all, c as nat, rank as nat),
        ensures
            rank == taken,
            forall|c: int| 0 <= c < 8 ==> score@[c] == vote(all, c as nat, rank as nat),
        decreases 5 - rank,
    {
        proof {
            lemma_first_occupied(bucket@);
        }
        let ghost before = bucket@;
        match pop_nearest(&mut bucket) {
            Some(label) => {
                proof {
                    assert(all.skip(rank as int)[0] == all[rank as int]);
                    assert(all.skip(rank as int).drop_first() =~= all.skip(rank + 1));
                }
                let cls = (label as usize) % 8;
                proof {
                    lemma_vote_bound(all, cls as nat, rank as nat);
                }
                score[cls] = score[cls].wrapping_add(5 - rank);
                rank = rank + 1;
                proof {
                    assert forall|c: int| 0 <= c < 8 implies score@[c] == vote(all, c as nat, rank as nat) by {
                        lemma_vote_bound(all, c as nat, (rank - 1) as nat);
                    }
                }
            },
            None => {
                proof {
                    assert(all.skip(rank as int).len() == 0);
                }
                break;
            },
        }
    }
    proof {
        assert(all.take(taken as int).len() == taken);
        assert forall|c: nat| c < 8 implies class_vote(encoded@, c) == score@[c as int] by {
            lemma_vote_prefix(all, taken, c, taken);
        }
    }
    let mut best: u32 = 0;
    let mut best_score: u32 = 0;
    let mut cls: u32 = 0;
    while cls < 8
        invariant
            cls <= 8,
            forall|c: int| 0 <= c < cls ==> score@[c] <= best_score,
            forall|c: int| 0 <= c < best ==> score@[c] < best_score,
            cls > 0 ==> best < cls && best_score == score@[best as int],
            cls == 0 ==> best == 0 && best_score == 0,
        decreases 8 - cls,
    {
        if score[cls as usize] > best_score {
            best_score = score[cls as usize];
            best = cls;
        }
        cls = cls + 1;
    }
    best
}

/// The vote only depends on the labels of the ranks it counts.
proof fn lemma_vote_prefix(labels: Seq<u32>, t: nat, cls: nat, r: nat)
    requires
        r <= t <= labels.len(),
    ensures
        vote(labels.take(t as int), cls, r) == vote(labels, cls, r),
    decreases r,
{
    if r > 0 {
        lemma_vote_prefix(labels, t, cls, (r - 1) as nat);
    }
}

/// Without any reference the query falls into class 0, and the nearest
/// neighbour alone outweighs any single farther neighbour.
pub proof fn law_vote_weights_decrease(labels: Seq<u32>, cls: nat)
    ensures
        vote(labels, cls, 0) == 0,
        labels.len() >= 1 && (labels[0] % 8) as nat == cls ==> vote(labels, cls, 1) == K,
{
    reveal_with_fuel(vote, 2);
}

/// The vote is over the five nearest references: the voting labels are the
/// labels of the occupied buckets in distance order, cut to the first five
/// (fewer only when fewer buckets are occupied).
pub proof fn law_vote_over_five_nearest(encoded: Seq<u32>)
    ensures
        ({
            let all = occupied_labels(filled_buckets(encoded, encoded.len()));
            let near = nearest_labels(encoded);
            &&& near.len() == (if all.len() < 5 { all.len() } else { 5 })
            &&& forall|i: int| 0 <= i < near.len() ==> near[i] == all[i]
        }),
{
}

} // verus!
