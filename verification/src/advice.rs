//! Untrusted-advice pattern: a producer computes a hint (factors of a number,
//! positions of a subset, a structured record, a triangle of a given area)
//! and a verifier accepts it only after checking it.
use vstd::prelude::*;
use crate::bytes::{le_bytes, le_concat, push_le};

verus! {

/// Smallest divisor of `n` in `d..n`, or `n` when there is none.
pub open spec fn smallest_factor_from(n: nat, d: nat) -> nat
    decreases n - d,
{
    if d >= n {
        n
    } else if n % d == 0 {
        d
    } else {
        smallest_factor_from(n, d + 1)
    }
}

/// Smallest nontrivial divisor of `n`, or `n` when it has none.
pub open spec fn smallest_factor(n: nat) -> nat {
    smallest_factor_from(n, 2)
}

/// `n` has a divisor strictly between 1 and `n`.
pub open spec fn is_composite(n: nat) -> bool {
    smallest_factor(n) < n
}

/// The factor pair handed out as advice: the smallest nontrivial divisor and
/// its cofactor, or `(1, n)` when there is none (a prime, 0 or 1).
pub open spec fn factor_pair(n: nat) -> (nat, nat) {
    if is_composite(n) {
        (smallest_factor(n), n / smallest_factor(n))
    } else {
        (1, n)
    }
}

proof fn lemma_smallest_factor_from(n: nat, d: nat)
    requires
        d >= 2,
    ensures
        d <= smallest_factor_from(n, d) || n < d,
        smallest_factor_from(n, d) < n ==> n % smallest_factor_from(n, d) == 0,
        forall|e: nat| d <= e < smallest_factor_from(n, d) && e < n ==> #[trigger] (n % e) != 0,
    decreases n - d,
{
    if d < n && n % d != 0 {
        lemma_smallest_factor_from(n, d + 1);
    }
}

/// For a composite `n`, the advice pair multiplies back to `n` and satisfies
/// `1 < a <= b < n`.
pub proof fn law_factor_pair_in_range(n: nat)
    requires
        is_composite(n),
    ensures
        factor_pair(n).0 * factor_pair(n).1 == n,
        1 < factor_pair(n).0 <= factor_pair(n).1 < n,
{
    lemma_smallest_factor_from(n, 2);
    let a = smallest_factor(n);
    let b = n / a;
    vstd::arithmetic::div_mod::lemma_fundamental_div_mod(n as int, a as int);
    assert(a * b == n);
    assert(b >= 2) by (nonlinear_arith)
        requires
            a * b == n,
            a < n,
            a >= 2,
    ;
    assert(b < n) by (nonlinear_arith)
        requires
            a * b == n,
            a >= 2,
            b >= 2,
    ;
    if b < a {
        assert(n % b == 0) by {
            vstd::arithmetic::div_mod::lemma_mod_multiples_basic(a as int, b as int);
            assert(a * b == b * a) by (nonlinear_arith);
        }
        assert((n % b) != 0);
    }
}

/// Searches `2..n` for the smallest divisor of `n`, as `u64`.
fn smallest_factor_u64(n: u64) -> (f: u64)
    ensures
        f == smallest_factor(n as nat),
{
    let mut i: u64 = 2;
    if n <= 2 {
        return n;
    }
    while i < n
        invariant
            2 <= i <= n,
            smallest_factor_from(n as nat, i as nat) == smallest_factor(n as nat),
        decreases n - i,
    {
        if n % i == 0 {
            return i;
        }
        i = i + 1;
    }
    n
}

/// Factor advice for a `u8`.
pub fn factor_u8(n: u8) -> (pair: (u8, u8))
    ensures
        (pair.0 as nat, pair.1 as nat) == factor_pair(n as nat),
{
    let f = smallest_factor_u64(n as u64);
    if f < n as u64 {
        proof {
            law_factor_pair_in_range(n as nat);
        }
        (f as u8, n / (f as u8))
    } else {
        (1, n)
    }
}

/// Factor advice for a `u16`, as an array.
pub fn factor_u16(n: u16) -> (pair: [u16; 2])
    ensures
        (pair@[0] as nat, pair@[1] as nat) == factor_pair(n as nat),
{
    let f = smallest_factor_u64(n as u64);
    if f < n as u64 {
        proof {
            law_factor_pair_in_range(n as nat);
        }
        [f as u16, n / (f as u16)]
    } else {
        [1, n]
    }
}

/// Factor advice for a `u32`, as an array.
pub fn factor_u32(n: u32) -> (pair: [u32; 2])
    ensures
        (pair@[0] as nat, pair@[1] as nat) == factor_pair(n as nat),
{
    let f = smallest_factor_u64(n as u64);
    if f < n as u64 {
        proof {
            law_factor_pair_in_range(n as nat);
        }
        [f as u32, n / (f as u32)]
    } else {
        [1, n]
    }
}

/// Factor advice for a `u64`, as an array.
pub fn factor_u64(n: u64) -> (pair: [u64; 2])
    ensures
        (pair@[0] as nat, pair@[1] as nat) == factor_pair(n as nat),
{
    let f = smallest_factor_u64(n);
    if f < n {
        proof {
            law_factor_pair_in_range(n as nat);
        }
        [f, n / f]
    } else {
        [1, n]
    }
}

/// Checks the factor advice of a composite `u8`: `a * b == n` and `1 < a <= b < n`.
pub fn verify_composite_u8(n: u8) -> (pair: (u8, u8))
    requires
        is_composite(n as nat),
    ensures
        (pair.0 as nat, pair.1 as nat) == factor_pair(n as nat),
        pair.0 as nat * pair.1 as nat == n as nat,
        1 < pair.0 <= pair.1 < n,
{
    let (a, b) = factor_u8(n);
    proof {
        law_factor_pair_in_range(n as nat);
    }
    (a, b)
}

/// Checks the factor advice of a composite `u16`.
pub fn verify_composite_u16(n: u16) -> (pair: (u16, u16))
    requires
        is_composite(n as nat),
    ensures
        (pair.0 as nat, pair.1 as nat) == factor_pair(n as nat),
        pair.0 as nat * pair.1 as nat == n as nat,
        1 < pair.0 <= pair.1 < n,
{
    let adv = factor_u16(n);
    let a = adv[0];
    let b = adv[1];
    proof {
        law_factor_pair_in_range(n as nat);
    }
    (a, b)
}

/// Checks the factor advice of a composite `u32`.
pub fn verify_composite_u32(n: u32) -> (pair: (u32, u32))
    requires
        is_composite(n as nat),
    ensures
        (pair.0 as nat, pair.1 as nat) == factor_pair(n as nat),
        pair.0 as nat * pair.1 as nat == n as nat,
        1 < pair.0 <= pair.1 < n,
{
    let adv = factor_u32(n);
    let a = adv[0];
    let b = adv[1];
    proof {
        law_factor_pair_in_range(n as nat);
    }
    (a, b)
}

/// Checks the factor advice of a composite `u64`.
pub fn verify_composite_u64(n: u64) -> (pair: (u64, u64))
    requires
        is_composite(n as nat),
    ensures
        (pair.0 as nat, pair.1 as nat) == factor_pair(n as nat),
        pair.0 as nat * pair.1 as nat == n as nat,
        1 < pair.0 <= pair.1 < n,
{
    let adv = factor_u64(n);
    let a = adv[0];
    let b = adv[1];
    proof {
        law_factor_pair_in_range(n as nat);
    }
    (a, b)
}

/// Position of the first occurrence of `x` in `b` at or after `from`
/// (`b.len()` when there is none).
pub open spec fn first_index_from(b: Seq<usize>, x: usize, from: int) -> int
    decreases b.len() - from,
{
    if from >= b.len() || from < 0 {
        b.len() as int
    } else if b[from] == x {
        from
    } else {
        first_index_from(b, x, from + 1)
    }
}

/// Position of the first occurrence of `x` in `b`.
pub open spec fn first_index(b: Seq<usize>, x: usize) -> int {
    first_index_from(b, x, 0)
}

/// Every element of `a` occurs in `b`.
pub open spec fn is_subset(a: Seq<usize>, b: Seq<usize>) -> bool {
    forall|i: int| 0 <= i < a.len() ==> b.contains(#[trigger] a[i])
}

/// Subset advice: for each element of `a`, its first position in `b`; empty
/// when some element of `a` is missing from `b`.
pub open spec fn subset_positions(a: Seq<usize>, b: Seq<usize>) -> Seq<usize> {
    if is_subset(a, b) {
        Seq::new(a.len(), |i: int| first_index(b, a[i]) as usize)
    } else {
        seq![]
    }
}

proof fn lemma_first_index_from(b: Seq<usize>, x: usize, from: int)
    requires
        0 <= from <= b.len(),
    ensures
        from <= first_index_from(b, x, from) <= b.len(),
        first_index_from(b, x, from) < b.len() ==> b[first_index_from(b, x, from)] == x,
        forall|j: int| from <= j < first_index_from(b, x, from) ==> b[j] != x,
    decreases b.len() - from,
{
    if from < b.len() && b[from] != x {
        lemma_first_index_from(b, x, from + 1);
    }
}

proof fn lemma_first_index(b: Seq<usize>, x: usize)
    ensures
        0 <= first_index(b, x) <= b.len(),
        b.contains(x) ==> first_index(b, x) < b.len() && b[first_index(b, x)] == x,
        !b.contains(x) ==> first_index(b, x) == b.len(),
        forall|j: int| 0 <= j < first_index(b, x) ==> b[j] != x,
{
    lemma_first_index_from(b, x, 0);
    if b.contains(x) {
        let k = choose|k: int| 0 <= k < b.len() && b[k] == x;
        assert(first_index(b, x) <= k);
    }
}

/// Produces the subset advice for `a` within `b`.
pub fn subset_index(a: &[usize], b: &[usize]) -> (indices: Vec<usize>)
    ensures
        indices@ == subset_positions(a@, b@),
{
    let mut indices: Vec<usize> = Vec::new();
    let mut k: usize = 0;
    while k < a.len()
        invariant
            k <= a.len(),
            indices@.len() == k,
            forall|i: int| 0 <= i < k ==> b@.contains(#[trigger] a@[i]),
            forall|i: int| 0 <= i < k ==> #[trigger] indices@[i] == first_index(b@, a@[i]) as usize,
        decreases a.len() - k,
    {
        let item = a[k];
        let mut found = false;
        let mut i: usize = 0;
        proof {
            lemma_first_index(b@, item);
        }
        while i < b.len()
            invariant_except_break
                i <= b.len(),
                forall|j: int| 0 <= j < i ==> b@[j] != item,
                !found,
            invariant
                0 <= first_index(b@, item) <= b@.len(),
                b@.contains(item) ==> first_index(b@, item) < b.len() && b@[first_index(b@, item)] == item,
                !b@.contains(item) ==> first_index(b@, item) == b.len(),
                forall|j: int| 0 <= j < first_index(b@, item) ==> b@[j] != item,
            ensures
                found ==> i < b.len() && b@[i as int] == item && i == first_index(b@, item),
                !found ==> !b@.contains(item),
            decreases b.len() - i,
        {
            if item == b[i] {
                found = true;
                proof {
                    assert(b@.contains(item)) by {
                        assert(b@[i as int] == item);
                    }
                    if first_index(b@, item) < i {
                        assert(b@[first_index(b@, item)] != item);
                    }
                }
                break;
            }
            i = i + 1;
        }
        if !found {
            proof {
                assert(!is_subset(a@, b@));
            }
            return Vec::new();
        }
        indices.push(i);
        k = k + 1;
    }
    proof {
        assert(is_subset(a@, b@));
        assert(indices@ =~= subset_positions(a@, b@));
    }
    indices
}

/// Checks the subset advice: one position per element of `a`, each naming an
/// equal element of `b`.
pub fn verify_subset(a: &[usize], b: &[usize]) -> (indices: Vec<usize>)
    requires
        is_subset(a@, b@),
    ensures
        indices@ == subset_positions(a@, b@),
        indices@.len() == a@.len(),
        forall|i: int| 0 <= i < a@.len() ==> indices@[i] < b@.len() && b@[#[trigger] indices@[i] as int] == a@[i],
{
    let indices = subset_index(a, b);
    let blen = b.len();
    proof {
        assert(blen == b@.len());
        assert forall|i: int| 0 <= i < a@.len() implies indices@[i] < b@.len() && b@[#[trigger] indices@[i] as int] == a@[i] by {
            assert(b@.contains(a@[i]));
            lemma_first_index(b@, a@[i]);
            assert(indices@[i] == first_index(b@, a@[i]) as usize);
            assert(first_index(b@, a@[i]) < blen);
            assert(indices@[i] as int == first_index(b@, a@[i]));
        }
    }
    indices
}

/// A structured record handed out as advice.
pub struct Frobnitz {
    pub x: u8,
    pub y: u64,
    pub z: Vec<u16>,
}

/// The well-formed record: `x = 42`, `y = 9999`, `z = [1, 2, 3, 4, 5]`.
pub open spec fn frobnitz_well_formed(f: Frobnitz) -> bool {
    &&& f.x == 42
    &&& f.y == 9999
    &&& f.z@ == seq![1u16, 2, 3, 4, 5]
}

/// Produces the record advice.
pub fn frobnitz_advice() -> (f: Frobnitz)
    ensures
        frobnitz_well_formed(f),
{
    let mut z: Vec<u16> = Vec::new();
    z.push(1);
    z.push(2);
    z.push(3);
    z.push(4);
    z.push(5);
    assert(z@ =~= seq![1u16, 2, 3, 4, 5]);
    Frobnitz { x: 42, y: 9999, z }
}

/// Checks the record advice: `x == 42`, `y == 9999` and `z[i] == i + 1` for
/// five entries.
pub fn verify_frobnitz() -> (f: Frobnitz)
    ensures
        frobnitz_well_formed(f),
        forall|i: int| 0 <= i < f.z@.len() ==> f.z@[i] == i + 1,
{
    let f = frobnitz_advice();
    f
}

/// A point with integer coordinates.
#[derive(Clone, Copy)]
pub struct Point {
    pub x: u32,
    pub y: u32,
}

/// A triangle given by its corners.
#[derive(Clone, Copy)]
pub struct Triangle {
    pub p1: Point,
    pub p2: Point,
    pub p3: Point,
}

/// The right triangle with legs `1` and `2 * area` at the origin.
pub open spec fn area_triangle(area: u32) -> Triangle {
    Triangle {
        p1: Point { x: 0, y: 0 },
        p2: Point { x: 1, y: 0 },
        p3: Point { x: 0, y: (2 * area) as u32 },
    }
}

/// Twice the signed area of a triangle, by the shoelace formula.
pub open spec fn shoelace(t: Triangle) -> int {
    t.p1.x * (t.p2.y - t.p3.y) + t.p2.x * (t.p3.y - t.p1.y) + t.p3.x * (t.p1.y - t.p2.y)
}

/// Triangle advice for `area`: a right triangle whose legs are the first
/// factor pair `(1, 2 * area)` of twice the area.
pub fn triangle_from_area(area: u32) -> (t: Triangle)
    requires
        2 * area <= u32::MAX,
    ensures
        t == area_triangle(area),
{
    let target = 2 * area;
    let mut x: u32 = 1;
    let mut y: u32 = target;
    let mut i: u32 = 1;
    while i <= target
        invariant_except_break
            i == 1,
            x == 1 && y == target,
        ensures
            x == 1 && y == target,
        decreases target + 1 - i,
    {
        if target % i == 0 {
            x = i;
            y = target / i;
            break;
        }
        i = i + 1;
    }
    Triangle { p1: Point { x: 0, y: 0 }, p2: Point { x, y: 0 }, p3: Point { x: 0, y } }
}

/// Absolute value of a signed 64-bit word other than `i64::MIN`.
pub fn abs_i64(v: i64) -> (r: i64)
    requires
        v > i64::MIN,
    ensures
        r as int == (if v < 0 { -v } else { v as int }),
{
    if v < 0 {
        -v
    } else {
        v
    }
}

/// Checks the triangle advice: twice its area must equal `2 * area`.
pub fn verify_triangle_from_area(area: u32) -> (checked: (Triangle, i64))
    requires
        2 * area <= u32::MAX,
    ensures
        checked.0 == area_triangle(area),
        checked.1 == 2 * area,
        shoelace(checked.0) == 2 * area,
{
    let adv = triangle_from_area(area);
    assert(adv.p1.x == 0 && adv.p1.y == 0 && adv.p2.x == 1 && adv.p2.y == 0 && adv.p3.x == 0);
    assert(adv.p3.y == 2 * area);
    assert(0i64 * (0i64 - adv.p3.y as i64) == 0);
    let t1 = adv.p1.x as i64 * (adv.p2.y as i64 - adv.p3.y as i64);
    let t2 = adv.p2.x as i64 * (adv.p3.y as i64 - adv.p1.y as i64);
    let t3 = adv.p3.x as i64 * (adv.p1.y as i64 - adv.p2.y as i64);
    let signed = t1 + t2 + t3;
    assert(signed == 2 * area);
    let double = abs_i64(signed);
    (adv, double)
}

/// Everything the advice demonstration verifies for `n`, `a` and `b`.
pub struct AdviceReport {
    pub fac8: (u8, u8),
    pub fac16: (u16, u16),
    pub fac32: (u32, u32),
    pub fac64: (u64, u64),
    pub subset: Vec<usize>,
    pub frob: Frobnitz,
    pub tri: (Triangle, i64),
}

/// Runs every advice check on a composite `n` and a subset `a` of `b`.
pub fn advice_demo(n: u8, a: Vec<usize>, b: Vec<usize>) -> (report: AdviceReport)
    requires
        is_composite(n as nat),
        is_subset(a@, b@),
    ensures
        (report.fac8.0 as nat, report.fac8.1 as nat) == factor_pair(n as nat),
        (report.fac16.0 as nat, report.fac16.1 as nat) == factor_pair(n as nat),
        (report.fac32.0 as nat, report.fac32.1 as nat) == factor_pair(n as nat),
        (report.fac64.0 as nat, report.fac64.1 as nat) == factor_pair(n as nat),
        report.subset@ == subset_positions(a@, b@),
        frobnitz_well_formed(report.frob),
        report.tri.0 == area_triangle(n as u32),
        report.tri.1 == 2 * n,
{
    let fac8 = verify_composite_u8(n);
    let fac16 = verify_composite_u16(n as u16);
    let fac32 = verify_composite_u32(n as u32);
    let fac64 = verify_composite_u64(n as u64);
    let subset = verify_subset(a.as_slice(), b.as_slice());
    let frob = verify_frobnitz();
    let tri = verify_triangle_from_area(n as u32);
    AdviceReport { fac8, fac16, fac32, fac64, subset, frob, tri }
}


/// Small primes from which the harness builds its composite `n`.
pub open spec fn prime_at(i: nat) -> nat {
    if i == 0 {
        2
    } else if i == 1 {
        3
    } else if i == 2 {
        5
    } else if i == 3 {
        7
    } else if i == 4 {
        11
    } else {
        13
    }
}

/// Entry `i % 6` of the prime table.
pub fn prime_table(i: u8) -> (p: u8)
    ensures
        p as nat == prime_at((i % 6) as nat),
{
    match i % 6 {
        0 => 2,
        1 => 3,
        2 => 5,
        3 => 7,
        4 => 11,
        _ => 13,
    }
}

/// Decoded `n = p * q`.
pub open spec fn decoded_n(input: Seq<u8>) -> nat {
    prime_at((input[0] % 6) as nat) * prime_at((input[1] % 6) as nat)
}

/// Decoded length of `a`.
pub open spec fn decoded_la(input: Seq<u8>) -> nat {
    (input[2] % 9) as nat
}

/// Decoded length of `b`.
pub open spec fn decoded_len_b(input: Seq<u8>) -> nat {
    decoded_la(input) + (input[3] % 9) as nat + 1
}

/// Decoded `a`: each selector byte reduced modulo the length of `b`.
pub open spec fn decoded_a(input: Seq<u8>) -> Seq<usize> {
    Seq::new(decoded_la(input), |i: int| ((input[4 + i] as nat) % decoded_len_b(input)) as usize)
}

/// Decoded `b`: `0..len_b`.
pub open spec fn decoded_b(input: Seq<u8>) -> Seq<usize> {
    Seq::new(decoded_len_b(input), |i: int| i as usize)
}

/// Byte encoding of the advice demonstration's results for `n`, `a`, `b`.
pub open spec fn advice_encoding(n: nat, a: Seq<usize>, b: Seq<usize>) -> Seq<u8> {
    let f = factor_pair(n);
    let pos = subset_positions(a, b);
    le_bytes(f.0, 1) + le_bytes(f.1, 1) + le_bytes(f.0, 2) + le_bytes(f.1, 2) + le_bytes(f.0, 4)
        + le_bytes(f.1, 4) + le_bytes(f.0, 8) + le_bytes(f.1, 8) + le_bytes(pos.len(), 8)
        + le_concat(pos.map_values(|x: usize| x as nat), 8) + le_bytes(42, 1) + le_bytes(9999, 8)
        + le_bytes(5, 8) + le_concat(seq![1nat, 2, 3, 4, 5], 2) + le_bytes(0, 4) + le_bytes(0, 4)
        + le_bytes(1, 4) + le_bytes(0, 4) + le_bytes(0, 4) + le_bytes(2 * n, 4) + le_bytes(2 * n, 8)
}

/// Output of the advice harness for `input`.
pub open spec fn advice_harness_output(input: Seq<u8>) -> Seq<u8> {
    if input.len() < 4 || input.len() < 4 + decoded_la(input) {
        seq![]
    } else {
        advice_encoding(decoded_n(input), decoded_a(input), decoded_b(input))
    }
}

proof fn lemma_smallest_factor_le(n: nat, k: nat, d: nat)
    requires
        2 <= k <= d < n,
        n % d == 0,
    ensures
        smallest_factor_from(n, k) <= d,
    decreases d - k,
{
    if k < d && n % k != 0 {
        lemma_smallest_factor_le(n, k + 1, d);
    }
}

proof fn lemma_le_concat_push(vals: Seq<nat>, k: int, w: nat)
    requires
        0 <= k < vals.len(),
    ensures
        le_concat(vals.take(k + 1), w) == le_concat(vals.take(k), w) + le_bytes(vals[k], w),
{
    assert(vals.take(k + 1).drop_last() =~= vals.take(k));
}

/// Appends the 8-byte encodings of `vals` to `out`.
fn push_all_u64(out: &mut Vec<u8>, vals: &Vec<usize>)
    ensures
        final(out)@ == old(out)@ + le_concat(vals@.map_values(|x: usize| x as nat), 8),
{
    let ghost vs = vals@.map_values(|x: usize| x as nat);
    let mut k: usize = 0;
    assert(vs.take(0) =~= Seq::<nat>::empty());
    assert(old(out)@ + le_concat(vs.take(0), 8) =~= old(out)@);
    while k < vals.len()
        invariant
            k <= vals@.len(),
            vs == vals@.map_values(|x: usize| x as nat),
            out@ == old(out)@ + le_concat(vs.take(k as int), 8),
        decreases vals.len() - k,
    {
        proof {
            lemma_le_concat_push(vs, k as int, 8);
        }
        let ghost before = out@;
        push_le(out, vals[k] as u128, 8);
        assert(out@ =~= old(out)@ + le_concat(vs.take(k + 1), 8));
        k = k + 1;
    }
    assert(vs.take(vals@.len() as int) =~= vs);
}

/// Appends the 2-byte encodings of `vals` to `out`.
fn push_all_u16(out: &mut Vec<u8>, vals: &Vec<u16>)
    ensures
        final(out)@ == old(out)@ + le_concat(vals@.map_values(|x: u16| x as nat), 2),
{
    let ghost vs = vals@.map_values(|x: u16| x as nat);
    let mut k: usize = 0;
    assert(vs.take(0) =~= Seq::<nat>::empty());
    assert(old(out)@ + le_concat(vs.take(0), 2) =~= old(out)@);
    while k < vals.len()
        invariant
            k <= vals@.len(),
            vs == vals@.map_values(|x: u16| x as nat),
            out@ == old(out)@ + le_concat(vs.take(k as int), 2),
        decreases vals.len() - k,
    {
        proof {
            lemma_le_concat_push(vs, k as int, 2);
        }
        push_le(out, vals[k] as u128, 2);
        assert(out@ =~= old(out)@ + le_concat(vs.take(k + 1), 2));
        k = k + 1;
    }
    assert(vs.take(vals@.len() as int) =~= vs);
}

/// Decodes `n`, `a` and `b` from `input`, runs every advice check and encodes
/// the verified values; short input gives an empty output.
pub fn harness(input: Vec<u8>) -> (out: Vec<u8>)
    ensures
        out@ == advice_harness_output(input@),
{
    if input.len() < 4 {
        return Vec::new();
    }
    let p = prime_table(input[0]);
    let q = prime_table(input[1]);
    let n: u8 = p * q;
    let la = (input[2] % 9) as usize;
    let len_b = la + (input[3] % 9) as usize + 1;
    if input.len() < 4 + la {
        return Vec::new();
    }
    let mut a: Vec<usize> = Vec::new();
    let mut i: usize = 0;
    while i < la
        invariant
            i <= la,
            la == decoded_la(input@),
            len_b == decoded_len_b(input@),
            4 + la <= input@.len(),
            a@.len() == i,
            forall|j: int| 0 <= j < i ==> #[trigger] a@[j] == decoded_a(input@)[j],
        decreases la - i,
    {
        a.push((input[4 + i] as usize) % len_b);
        i = i + 1;
    }
    let mut b: Vec<usize> = Vec::new();
    let mut j: usize = 0;
    while j < len_b
        invariant
            j <= len_b,
            b@.len() == j,
            forall|k: int| 0 <= k < j ==> #[trigger] b@[k] == k,
        decreases len_b - j,
    {
        b.push(j);
        j = j + 1;
    }
    proof {
        assert(a@ =~= decoded_a(input@));
        assert(b@ =~= decoded_b(input@));
        let pn = p as nat;
        let qn = q as nat;
        assert(n as nat == pn * qn);
        vstd::arithmetic::div_mod::lemma_mod_multiples_basic(qn as int, pn as int);
        assert(pn * qn == qn * pn) by (nonlinear_arith);
        assert(pn < pn * qn) by (nonlinear_arith)
            requires
                pn >= 2,
                qn >= 2,
        ;
        lemma_smallest_factor_le(n as nat, 2, pn);
        assert forall|k: int| 0 <= k < a@.len() implies b@.contains(#[trigger] a@[k]) by {
            assert(b@[a@[k] as int] == a@[k]);
        }
    }
    let ghost a_view = a@;
    let ghost b_view = b@;
    let report = advice_demo(n, a, b);
    let mut out: Vec<u8> = Vec::new();
    push_le(&mut out, report.fac8.0 as u128, 1);
    push_le(&mut out, report.fac8.1 as u128, 1);
    push_le(&mut out, report.fac16.0 as u128, 2);
    push_le(&mut out, report.fac16.1 as u128, 2);
    push_le(&mut out, report.fac32.0 as u128, 4);
    push_le(&mut out, report.fac32.1 as u128, 4);
    push_le(&mut out, report.fac64.0 as u128, 8);
    push_le(&mut out, report.fac64.1 as u128, 8);
    push_le(&mut out, report.subset.len() as u128, 8);
    push_all_u64(&mut out, &report.subset);
    push_le(&mut out, report.frob.x as u128, 1);
    push_le(&mut out, report.frob.y as u128, 8);
    push_le(&mut out, report.frob.z.len() as u128, 8);
    push_all_u16(&mut out, &report.frob.z);
    let (triangle, double) = report.tri;
    push_le(&mut out, triangle.p1.x as u128, 4);
    push_le(&mut out, triangle.p1.y as u128, 4);
    push_le(&mut out, triangle.p2.x as u128, 4);
    push_le(&mut out, triangle.p2.y as u128, 4);
    push_le(&mut out, triangle.p3.x as u128, 4);
    push_le(&mut out, triangle.p3.y as u128, 4);
    push_le(&mut out, double as u64 as u128, 8);
    proof {
        assert(report.frob.z@.map_values(|x: u16| x as nat) =~= seq![1nat, 2, 3, 4, 5]);
        assert(out@ =~= advice_encoding(n as nat, a_view, b_view));
    }
    out
}

} // verus!
