//! Collatz convergence counts: the number of steps a start value needs to
//! reach 1, and the longest such count over a range of start values.
use vstd::prelude::*;

verus! {

/// `2^128`, the range of a `u128`.
pub open spec fn u128_range() -> nat {
    u128::MAX as nat + 1
}

/// One step on a 128-bit word: halve an even value, and replace an odd `n` by
/// `n + ((n << 1) + 1)`, the doubling taken modulo `2^128`.
pub open spec fn collatz_step(n: nat) -> nat {
    if n % 2 == 0 {
        n / 2
    } else {
        n + (2 * n) % u128_range() + 1
    }
}

/// The step from `n` stays within a `u128`.
pub open spec fn step_fits(n: nat) -> bool {
    collatz_step(n) < u128_range()
}

/// Value reached from `n` after `t` steps.
pub open spec fn iterate(n: nat, t: nat) -> nat
    decreases t,
{
    if t == 0 {
        n
    } else {
        iterate(collatz_step(n), (t - 1) as nat)
    }
}

/// `t` is the number of steps after which `n` first reaches 1.
pub open spec fn first_hit(n: nat, t: nat) -> bool {
    &&& iterate(n, t) == 1
    &&& forall|s: nat| s < t ==> #[trigger] iterate(n, s) != 1
}

/// From `n` the trajectory reaches 1 within `u128::MAX` steps, each of them
/// within a `u128`.
pub open spec fn converges(n: nat) -> bool {
    exists|t: nat|
        #![trigger iterate(n, t)]
        t <= u128::MAX && iterate(n, t) == 1 && forall|s: nat| s < t ==> step_fits(
            #[trigger] iterate(n, s),
        )
}

/// Number of steps from `n` to 1.
pub open spec fn steps_to_one(n: nat) -> nat {
    choose|t: nat| first_hit(n, t)
}

/// Longest step count over the start values `start..end`.
pub open spec fn max_steps(start: nat, end: nat) -> nat
    decreases end - start,
{
    if end <= start {
        0
    } else {
        let prev = max_steps(start, (end - 1) as nat);
        let cur = steps_to_one((end - 1) as nat);
        if cur > prev {
            cur
        } else {
            prev
        }
    }
}

proof fn lemma_iterate_next(n: nat, t: nat)
    ensures
        iterate(n, t + 1) == collatz_step(iterate(n, t)),
    decreases t,
{
    reveal_with_fuel(iterate, 2);
    if t > 0 {
        lemma_iterate_next(collatz_step(n), (t - 1) as nat);
    }
}

/// First hits are unique.
pub proof fn law_first_hit_unique(n: nat, t1: nat, t2: nat)
    requires
        first_hit(n, t1),
        first_hit(n, t2),
    ensures
        t1 == t2,
{
    if t1 < t2 {
        assert(iterate(n, t1) != 1);
    } else if t2 < t1 {
        assert(iterate(n, t2) != 1);
    }
}

/// Number of steps for `n` to reach 1.
pub fn collatz_convergence(n: u128) -> (num_steps: u128)
    requires
        converges(n as nat),
    ensures
        first_hit(n as nat, num_steps as nat),
        num_steps as nat == steps_to_one(n as nat),
{
    let ghost bound: nat = choose|t: nat|
        #![trigger iterate(n as nat, t)]
        t <= u128::MAX && iterate(n as nat, t) == 1 && forall|s: nat| s < t ==> step_fits(
            #[trigger] iterate(n as nat, s),
        );
    let mut v: u128 = n;
    let mut num_steps: u128 = 0;
    while v != 1
        invariant
            bound <= u128::MAX,
            iterate(n as nat, bound) == 1,
            forall|s: nat| s < bound ==> step_fits(#[trigger] iterate(n as nat, s)),
            v == iterate(n as nat, num_steps as nat),
            num_steps <= bound,
            forall|s: nat| s < num_steps ==> #[trigger] iterate(n as nat, s) != 1,
        decreases bound - num_steps,
    {
        proof {
            lemma_iterate_next(n as nat, num_steps as nat);
            assert(num_steps < bound);
            assert(step_fits(iterate(n as nat, num_steps as nat)));
        }
        if v.is_multiple_of(2) {
            v = v / 2;
        } else {
            let doubled = v << 1;
            proof {
                if v < 0x8000_0000_0000_0000_0000_0000_0000_0000u128 {
                    assert(doubled == v * 2) by (bit_vector)
                        requires
                            doubled == v << 1u32,
                            v < 0x8000_0000_0000_0000_0000_0000_0000_0000u128,
                    ;
                } else {
                    assert(doubled == (v - 0x8000_0000_0000_0000_0000_0000_0000_0000u128) * 2)
                        by (bit_vector)
                        requires
                            doubled == v << 1u32,
                            v >= 0x8000_0000_0000_0000_0000_0000_0000_0000u128,
                    ;
                }
                assert(doubled as nat == (2 * v as nat) % u128_range());
            }
            v = v + (doubled + 1);
        }
        num_steps = num_steps + 1;
    }
    proof {
        assert(first_hit(n as nat, num_steps as nat));
        law_first_hit_unique(n as nat, num_steps as nat, steps_to_one(n as nat));
    }
    num_steps
}

/// Longest convergence count over the start values `start..end`.
pub fn collatz_convergence_range(start: u128, end: u128) -> (longest: u128)
    requires
        forall|n: nat| start <= n < end ==> #[trigger] converges(n),
    ensures
        longest as nat == max_steps(start as nat, end as nat),
{
    let mut max_num_steps: u128 = 0;
    let mut n: u128 = start;
    if end <= start {
        return 0;
    }
    while n < end
        invariant
            start <= n <= end,
            forall|k: nat| start <= k < end ==> #[trigger] converges(k),
            max_num_steps as nat == max_steps(start as nat, n as nat),
        decreases end - n,
    {
        assert(converges(n as nat));
        let num_steps = collatz_convergence(n);
        if num_steps > max_num_steps {
            max_num_steps = num_steps;
        }
        n = n + 1;
    }
    max_num_steps
}


/// First start value of the harness range: the leading `u32`, with 0 read as 1.
pub open spec fn harness_start(input: Seq<u8>) -> nat {
    let s = crate::bytes::le_at(input, 0, 4);
    if s == 0 {
        1
    } else {
        s
    }
}

/// End (exclusive) of the harness range: the start plus the count byte.
pub open spec fn harness_end(input: Seq<u8>) -> nat {
    harness_start(input) + input[4] as nat
}

/// Output of the harness: empty for fewer than five bytes, otherwise the
/// 16-byte encoding of the longest convergence count over the range.
pub open spec fn collatz_harness_output(input: Seq<u8>) -> Seq<u8> {
    if input.len() < 5 {
        seq![]
    } else {
        crate::bytes::le_bytes(max_steps(harness_start(input), harness_end(input)), 16)
    }
}

/// Decodes a start value and a count and reports the longest convergence
/// count over `start..start + count`; every value there must converge.
pub fn harness(input: Vec<u8>) -> (out: Vec<u8>)
    requires
        input@.len() < 5 || forall|n: nat|
            harness_start(input@) <= n < harness_end(input@) ==> #[trigger] converges(n),
    ensures
        out@ == collatz_harness_output(input@),
{
    if input.len() < 5 {
        return Vec::new();
    }
    let start = crate::bytes::read_u32_le(input.as_slice(), 0) as u128;
    let start = if start == 0 {
        1
    } else {
        start
    };
    let count = input[4] as u128;
    let end = start + count;
    let result: u128 = collatz_convergence_range(start, end);
    let mut out: Vec<u8> = Vec::new();
    crate::bytes::push_le(&mut out, result, 16);
    assert(out@ =~= collatz_harness_output(input@));
    out
}

} // verus!
