//! Ordered-map workload: keys scattered by a 64-bit mixing hash are inserted,
//! a quarter of them removed, half as many new ones inserted, and the values of
//! the middle of the key span summed.
use vstd::prelude::*;
use crate::bytes::{le_at, le_bytes, push_le, read_u32_le};
use crate::ordered_map::{range_values, OrderedMap};
use vstd::arithmetic::div_mod::{lemma_mul_mod_noop_left, lemma_mod_multiples_vanish, lemma_small_mod};
use vstd::arithmetic::mul::lemma_mul_is_associative;

verus! {

/// The multiplier of the mixing hash.
pub const WY_MUL: u64 = 0xd6e8feb86659fd93;

/// The mixing hash: fold the high half into the low half, multiply, twice.
pub open spec fn spec_wyhash64(x: u64) -> u64 {
    let a = x ^ (x >> 32u64);
    let b = a.wrapping_mul(WY_MUL);
    let c = b ^ (b >> 32u64);
    c.wrapping_mul(WY_MUL)
}

/// Mixes a 64-bit value into a well-spread 64-bit key.
pub fn wyhash64(x: u64) -> (h: u64)
    ensures
        h == spec_wyhash64(x),
{
    let mut x = x;
    x ^= x >> 32;
    x = x.wrapping_mul(WY_MUL);
    x ^= x >> 32;
    x = x.wrapping_mul(WY_MUL);
    x
}

/// The inverse of the multiplier modulo `2^64`.
pub const WY_MUL_INV: u64 = 0xcfee444d8b59a89b;

/// Multiplying by the multiplier and then by its inverse gives the value back.
proof fn lemma_mul_inverse(a: u64)
    ensures
        a.wrapping_mul(WY_MUL).wrapping_mul(WY_MUL_INV) == a,
{
    let m: int = 0x1_0000_0000_0000_0000;
    let c = WY_MUL as int;
    let ci = WY_MUL_INV as int;
    let k: int = 12578109465933073204;
    assert(c * ci == k * m + 1);
    let p = (a as int * c) % m;
    assert(a.wrapping_mul(WY_MUL) as int == p);
    lemma_mul_mod_noop_left(a as int * c, ci, m);
    lemma_mul_is_associative(a as int, c, ci);
    assert(a as int * (c * ci) == m * (a as int * k) + a as int) by (nonlinear_arith)
        requires
            c * ci == k * m + 1,
    ;
    lemma_mod_multiples_vanish(a as int * k, a as int, m);
    lemma_small_mod(a as nat, m as nat);
}

/// The mixing hash undone: multiply by the inverse and unfold the high half,
/// twice, in reverse order.
pub open spec fn spec_unwyhash64(h: u64) -> u64 {
    let c = h.wrapping_mul(WY_MUL_INV);
    let b = c ^ (c >> 32u64);
    let a = b.wrapping_mul(WY_MUL_INV);
    a ^ (a >> 32u64)
}

/// The mixing hash is a bijection of the 64-bit words: undoing it gives the
/// value back, so distinct values get distinct keys; and it maps 0 to 0.
pub proof fn law_wyhash_injective(x: u64, y: u64)
    ensures
        spec_unwyhash64(spec_wyhash64(x)) == x,
        x != y ==> spec_wyhash64(x) != spec_wyhash64(y),
        spec_wyhash64(0) == 0,
{
    assert forall|v: u64| #[trigger] spec_unwyhash64(spec_wyhash64(v)) == v by {
        let a = v ^ (v >> 32u64);
        let b = a.wrapping_mul(WY_MUL);
        let c = b ^ (b >> 32u64);
        lemma_mul_inverse(a);
        lemma_mul_inverse(c);
        assert((c ^ (c >> 32u64)) == b) by (bit_vector)
            requires
                c == b ^ (b >> 32u64),
        ;
        assert((a ^ (a >> 32u64)) == v) by (bit_vector)
            requires
                a == v ^ (v >> 32u64),
        ;
    }
    assert(spec_unwyhash64(spec_wyhash64(x)) == x);
    assert(spec_unwyhash64(spec_wyhash64(y)) == y);
    assert(0u64 ^ (0u64 >> 32u64) == 0u64) by (bit_vector);
}

/// The map after the first phase: key `wyhash64(i)` holds `i` for `i < n`
/// (inserted in increasing `i`).
pub open spec fn inserted(n: nat) -> Map<u64, u64>
    decreases n,
{
    if n == 0 {
        Map::empty()
    } else {
        inserted((n - 1) as nat).insert(spec_wyhash64((n - 1) as u64), (n - 1) as u64)
    }
}

/// The map after the keys of the first `k` insertions were removed again.
pub open spec fn after_removals(n: nat, k: nat) -> Map<u64, u64>
    decreases k,
{
    if k == 0 {
        inserted(n)
    } else {
        after_removals(n, (k - 1) as nat).remove(spec_wyhash64((k - 1) as u64))
    }
}

/// The map after `k` fresh keys `wyhash64(j + 2n)` were inserted with values `j + n`.
pub open spec fn after_refill(n: nat, k: nat) -> Map<u64, u64>
    decreases k,
{
    if k == 0 {
        after_removals(n, n / 4)
    } else {
        after_refill(n, (k - 1) as nat).insert(
            spec_wyhash64((k - 1 + 2 * n) as u64),
            (k - 1 + n) as u64,
        )
    }
}

/// The map at the end of the workload.
pub open spec fn final_map(n: nat) -> Map<u64, u64> {
    after_refill(n, n / 2)
}

/// The least key of a map.
pub open spec fn min_key(m: Map<u64, u64>) -> u64 {
    choose|k: u64| m.contains_key(k) && forall|j: u64| #[trigger] m.contains_key(j) ==> k <= j
}

/// The greatest key of a map.
pub open spec fn max_key(m: Map<u64, u64>) -> u64 {
    choose|k: u64| m.contains_key(k) && forall|j: u64| #[trigger] m.contains_key(j) ==> j <= k
}

/// The wrapping sum of a list of values.
pub open spec fn wrapping_sum(s: Seq<u64>) -> u64
    decreases s.len(),
{
    if s.len() == 0 {
        0
    } else {
        wrapping_sum(s.drop_last()).wrapping_add(s.last())
    }
}

/// The wrapping sum of the values whose keys lie in the second quarter of the
/// span from the least to the greatest key (zero for an empty map).
pub open spec fn middle_range_sum(m: Map<u64, u64>) -> u64 {
    if m.dom().len() == 0 {
        0
    } else {
        let lo = min_key(m);
        let hi = max_key(m);
        let w = (hi - lo) / 4;
        let start = lo + w;
        wrapping_sum(range_values(m, start, start + w))
    }
}

/// The result of the workload: the number of keys left plus the middle sum.
pub open spec fn btreemap_result(n: nat) -> u128 {
    (final_map(n).dom().len() + middle_range_sum(final_map(n))) as u128
}

/// The workload keys stay within `u32` arithmetic.
pub open spec fn workload_fits(n: u32) -> bool {
    n / 2 == 0 || 2 * n + n / 2 <= u32::MAX + 1
}

/// A key with the least-key property is the least key.
proof fn lemma_min_key(m: Map<u64, u64>, k: u64)
    requires
        m.contains_key(k),
        forall|j: u64| #[trigger] m.contains_key(j) ==> k <= j,
    ensures
        min_key(m) == k,
{
    let c = min_key(m);
    assert(m.contains_key(c) && forall|j: u64| #[trigger] m.contains_key(j) ==> c <= j);
    assert(c <= k && k <= c);
}

/// A key with the greatest-key property is the greatest key.
proof fn lemma_max_key(m: Map<u64, u64>, k: u64)
    requires
        m.contains_key(k),
        forall|j: u64| #[trigger] m.contains_key(j) ==> j <= k,
    ensures
        max_key(m) == k,
{
    let c = max_key(m);
    assert(m.contains_key(c) && forall|j: u64| #[trigger] m.contains_key(j) ==> j <= c);
    assert(c <= k && k <= c);
}

/// Runs the workload for `n` and returns the number of keys left plus the
/// wrapping sum of the values in the middle quarter of the key span.
pub fn btreemap(n: u32) -> (r: u128)
    requires
        workload_fits(n),
    ensures
        r == btreemap_result(n as nat),
{
    let mut map = OrderedMap::new();
    let mut inserted_keys: Vec<u64> = Vec::new();

    // Phase 1: insert n entries with well-spread keys.
    let mut i: u32 = 0;
    while i < n
        invariant
            i <= n,
            map.wf(),
            map@ == inserted(i as nat),
            inserted_keys@.len() == i,
            forall|j: int| 0 <= j < i ==> inserted_keys@[j] == spec_wyhash64(j as u64),
        decreases n - i,
    {
        let key = wyhash64(i as u64);
        inserted_keys.push(key);
        map.insert(key, i as u64);
        i = i + 1;
    }

    // Phase 2: remove the first quarter of the inserted keys.
    let delete_count = n / 4;
    let mut i: u32 = 0;
    while i < delete_count
        invariant
            i <= delete_count,
            delete_count == n / 4,
            map.wf(),
            map@ == after_removals(n as nat, i as nat),
            inserted_keys@.len() == n,
            forall|j: int| 0 <= j < n ==> inserted_keys@[j] == spec_wyhash64(j as u64),
        decreases delete_count - i,
    {
        let key = inserted_keys[i as usize];
        map.remove(key);
        i = i + 1;
    }

    // Phase 3: insert n/2 fresh keys.
    let mut i: u32 = 0;
    while i < n / 2
        invariant
            i <= n / 2,
            workload_fits(n),
            map.wf(),
            map@ == after_refill(n as nat, i as nat),
        decreases n / 2 - i,
    {
        let key = wyhash64((i + n * 2) as u64);
        map.insert(key, (i + n) as u64);
        i = i + 1;
    }

    // Phase 4: sum the values of the middle quarter of the key span.
    let mut range_sum: u64 = 0;
    let len = map.len();
    let ghost m = map@;
    assert(m == final_map(n as nat));
    match map.first_key_value() {
        Some((min_k, _)) => {
            match map.last_key_value() {
                Some((max_k, _)) => {
                    proof {
                        lemma_min_key(m, min_k);
                        lemma_max_key(m, max_k);
                    }
                    let range_size = (max_k - min_k) / 4;
                    let start = min_k + range_size;
                    let end = start + range_size;
                    let vals = map.range_values(start, end);
                    let mut k: usize = 0;
                    while k < vals.len()
                        invariant
                            k <= vals@.len(),
                            range_sum == wrapping_sum(vals@.subrange(0, k as int)),
                        decreases vals@.len() - k,
                    {
                        proof {
                            assert(vals@.subrange(0, k + 1).drop_last() =~= vals@.subrange(0, k as int));
                        }
                        range_sum = range_sum.wrapping_add(vals[k]);
                        k = k + 1;
                    }
                    assert(vals@.subrange(0, vals@.len() as int) =~= vals@);
                },
                None => {},
            }
        },
        None => {},
    }
    (len as u128).wrapping_add(range_sum as u128)
}

/// The output of the harness: empty for fewer than 4 bytes, otherwise the
/// 16-byte encoding of the workload's result for the first word modulo 64.
pub open spec fn btreemap_output(input: Seq<u8>) -> Seq<u8> {
    if input.len() < 4 {
        seq![]
    } else {
        le_bytes(btreemap_result((le_at(input, 0, 4) % 64) as nat) as nat, 16)
    }
}

/// Decodes the workload size (first word modulo 64) and runs the workload.
pub fn harness(input: Vec<u8>) -> (out: Vec<u8>)
    ensures
        out@ == btreemap_output(input@),
{
    if input.len() < 4 {
        return Vec::new();
    }
    let raw_n = read_u32_le(input.as_slice(), 0);
    let n: u32 = raw_n % 64;
    let result: u128 = btreemap(n);
    let mut out: Vec<u8> = Vec::new();
    push_le(&mut out, result, 16);
    assert(out@ =~= btreemap_output(input@));
    out
}

} // verus!
