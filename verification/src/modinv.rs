//! Modular inverse by the extended Euclidean algorithm, and the checked
//! variant that confirms its result before handing it out.
use vstd::prelude::*;
use vstd::arithmetic::div_mod::{
    lemma_mod_multiples_vanish, lemma_fundamental_div_mod, lemma_mod_bound, lemma_small_mod,
    lemma_mul_mod_noop_general, lemma_fundamental_div_mod_converse,
};

verus! {

/// `x` is the inverse of `a` modulo `m` in `[0, m)`.
pub open spec fn is_inverse(a: int, x: int, m: int) -> bool {
    &&& m > 0
    &&& 0 <= x < m
    &&& (a * x) % m == 1int % m
}

/// `a` has an inverse modulo `m`.
pub open spec fn has_inverse(a: int, m: int) -> bool {
    exists|x: int| is_inverse(a, x, m)
}

pub open spec fn abs(x: int) -> int {
    if x < 0 {
        -x
    } else {
        x
    }
}

/// The state of the extended Euclidean loop on `(a, m)`, with the ghost
/// Bezout coefficients `ot, t` and the cofactors `x1, y1, x2, y2`.
pub open spec fn euclid_inv(
    a: int,
    m: int,
    or_: int,
    r: int,
    os: int,
    s: int,
    ot: int,
    t: int,
    x1: int,
    y1: int,
    x2: int,
    y2: int,
) -> bool {
    &&& m >= 1
    &&& a >= 0
    &&& or_ >= 0
    &&& r >= 0
    &&& or_ == a * os + m * ot
    &&& r == a * s + m * t
    &&& a == x1 * or_ + y1 * r
    &&& m == x2 * or_ + y2 * r
    &&& abs(os) * r + abs(s) * or_ == m
    &&& os * s <= 0
    &&& abs(os) <= m
    &&& abs(s) <= m
    &&& or_ <= a || or_ <= m
    &&& r <= m
    &&& (m == 1 ==> ((os == 1 && s == 0 && r == 1) || (os == 0 && r == 0)))
}

proof fn lemma_euclid_step(
    a: int,
    m: int,
    or_: int,
    r: int,
    os: int,
    s: int,
    ot: int,
    t: int,
    x1: int,
    y1: int,
    x2: int,
    y2: int,
    q: int,
)
    requires
        euclid_inv(a, m, or_, r, os, s, ot, t, x1, y1, x2, y2),
        r >= 1,
        q == or_ / r,
    ensures
        0 <= q * r <= or_,
        abs(q * s) <= m,
        abs(os - q * s) <= m,
        0 <= or_ - q * r < r,
        euclid_inv(
            a,
            m,
            r,
            or_ - q * r,
            s,
            os - q * s,
            t,
            ot - q * t,
            x1 * q + y1,
            x1,
            x2 * q + y2,
            x2,
        ),
{
    lemma_fundamental_div_mod(or_, r);
    lemma_mod_bound(or_, r);
    let rem = or_ - q * r;
    assert(q >= 0) by (nonlinear_arith)
        requires
            or_ >= 0,
            r >= 1,
            q == or_ / r,
    ;
    assert(q * r == r * q) by (nonlinear_arith);
    assert(rem == or_ % r);
    assert(0 <= q * r) by (nonlinear_arith)
        requires
            q >= 0,
            r >= 1,
    ;
    let ns = os - q * s;
    assert(abs(ns) == abs(os) + q * abs(s)) by (nonlinear_arith)
        requires
            os * s <= 0,
            q >= 0,
            ns == os - q * s,
            abs(ns) == (if ns < 0 { -ns } else { ns }),
            abs(os) == (if os < 0 { -os } else { os }),
            abs(s) == (if s < 0 { -s } else { s }),
    ;
    assert(abs(s) * rem + abs(ns) * r == m) by (nonlinear_arith)
        requires
            abs(ns) == abs(os) + q * abs(s),
            rem == or_ - q * r,
            abs(os) * r + abs(s) * or_ == m,
    ;
    assert(abs(s) * rem >= 0) by (nonlinear_arith)
        requires
            rem >= 0,
    ;
    assert(abs(ns) <= m) by (nonlinear_arith)
        requires
            abs(s) * rem + abs(ns) * r == m,
            abs(s) * rem >= 0,
            r >= 1,
            abs(ns) >= 0,
    ;
    assert(abs(q * s) == q * abs(s)) by (nonlinear_arith)
        requires
            q >= 0,
            abs(q * s) == (if q * s < 0 { -(q * s) } else { q * s }),
            abs(s) == (if s < 0 { -s } else { s }),
    ;
    assert(q * abs(s) <= abs(ns)) by (nonlinear_arith)
        requires
            abs(ns) == abs(os) + q * abs(s),
            abs(os) >= 0,
    ;
    assert(s * ns <= 0) by (nonlinear_arith)
        requires
            os * s <= 0,
            q >= 0,
            ns == os - q * s,
    ;
    assert(q * r == a * (q * s) + m * (q * t)) by (nonlinear_arith)
        requires
            r == a * s + m * t,
    ;
    assert(a * ns == a * os - a * (q * s)) by (nonlinear_arith)
        requires
            ns == os - q * s,
    ;
    assert(m * (ot - q * t) == m * ot - m * (q * t)) by (nonlinear_arith);
    assert(rem == a * ns + m * (ot - q * t));
    assert(a == (x1 * q + y1) * r + x1 * rem) by (nonlinear_arith)
        requires
            a == x1 * or_ + y1 * r,
            rem == or_ - q * r,
    ;
    assert(m == (x2 * q + y2) * r + x2 * rem) by (nonlinear_arith)
        requires
            m == x2 * or_ + y2 * r,
            rem == or_ - q * r,
    ;
    if m == 1 {
        assert(os == 1 && s == 0 && r == 1);
        assert(q == or_);
        assert(rem == 0);
        assert(ns == 1);
    }
}

/// `p * z == 1` has no integer solution for `p >= 2`.
proof fn lemma_no_unit_multiple(p: int, z: int)
    requires
        p >= 2,
    ensures
        p * z != 1,
{
    if z >= 1 {
        assert(p * z >= 2) by (nonlinear_arith)
            requires
                p >= 2,
                z >= 1,
        ;
    } else {
        assert(p * z <= 0) by (nonlinear_arith)
            requires
                p >= 2,
                z <= 0,
        ;
    }
}

/// Inverse of `a` modulo `m`: the unique `x` in `[0, m)` with `a * x = 1 (mod m)`
/// when there is one, and `0` when `m == 0` or `a` has no inverse.
pub fn modinv_naive(a: u64, m: u64) -> (inv: u64)
    ensures
        m == 0 ==> inv == 0,
        m > 0 && has_inverse(a as int, m as int) ==> is_inverse(a as int, inv as int, m as int),
        m > 0 && !has_inverse(a as int, m as int) ==> inv == 0,
{
    if m == 0 {
        return 0;
    }
    let mut old_r: i128 = a as i128;
    let mut r: i128 = m as i128;
    let mut old_s: i128 = 1;
    let mut s: i128 = 0;
    let ghost mut ot: int = 0;
    let ghost mut t: int = 1;
    let ghost mut x1: int = 1;
    let ghost mut y1: int = 0;
    let ghost mut x2: int = 0;
    let ghost mut y2: int = 1;
    while r != 0
        invariant
            euclid_inv(
                a as int,
                m as int,
                old_r as int,
                r as int,
                old_s as int,
                s as int,
                ot,
                t,
                x1,
                y1,
                x2,
                y2,
            ),
        decreases r,
    {
        proof {
            lemma_euclid_step(
                a as int,
                m as int,
                old_r as int,
                r as int,
                old_s as int,
                s as int,
                ot,
                t,
                x1,
                y1,
                x2,
                y2,
                old_r as int / r as int,
            );
        }
        let quotient = old_r / r;
        let new_r = old_r - quotient * r;
        let new_s = old_s - quotient * s;
        proof {
            let nt = ot - quotient * t;
            ot = t;
            t = nt;
            let nx1 = x1 * quotient + y1;
            y1 = x1;
            x1 = nx1;
            let nx2 = x2 * quotient + y2;
            y2 = x2;
            x2 = nx2;
        }
        old_r = r;
        r = new_r;
        old_s = s;
        s = new_s;
    }
    let ghost g = old_r as int;
    proof {
        assert(m as int == x2 * g);
        if g == 0 {
            assert(x2 * g == 0) by (nonlinear_arith)
                requires
                    g == 0,
            ;
        }
    }
    if old_r != 1 {
        proof {
            assert(g >= 2);
            if has_inverse(a as int, m as int) {
                let x = choose|x: int| is_inverse(a as int, x, m as int);
                if m == 1 {
                    lemma_no_unit_multiple(g, x2);
                } else {
                    lemma_small_mod(1, m as nat);
                    lemma_fundamental_div_mod(a * x, m as int);
                    let k = (a * x) / (m as int);
                    assert(g * (x1 * x - x2 * k) == 1) by (nonlinear_arith)
                        requires
                            a == x1 * g,
                            m == x2 * g,
                            a * x == m * k + 1,
                    ;
                    lemma_no_unit_multiple(g, x1 * x - x2 * k);
                }
            }
        }
        return 0;
    }
    let ghost os = old_s as int;
    proof {
        assert(1 == a * os + m * ot);
        if m == 1 {
            assert(os == 0);
        } else {
            if os == m as int {
                assert(m * (a + ot) == 1) by (nonlinear_arith)
                    requires
                        1 == a * os + m * ot,
                        os == m,
                ;
                lemma_no_unit_multiple(m as int, a + ot);
            }
            if os == -(m as int) {
                assert(m * (ot - a) == 1) by (nonlinear_arith)
                    requires
                        1 == a * os + m * ot,
                        os == -m,
                ;
                lemma_no_unit_multiple(m as int, ot - a);
            }
        }
    }
    let inv: u64 = if old_s < 0 {
        (old_s + m as i128) as u64
    } else {
        old_s as u64
    };
    proof {
        let x = inv as int;
        let k: int = if os < 0 { a as int - ot } else { -ot };
        assert(a * x == m * k + 1) by (nonlinear_arith)
            requires
                1 == a * os + m * ot,
                x == (if os < 0 { os + m } else { os }),
                k == (if os < 0 { a - ot } else { -ot }),
        ;
        lemma_mod_multiples_vanish(k, 1, m as int);
        assert(is_inverse(a as int, x, m as int));
    }
    inv
}

/// Two inverses of `a` modulo `m` in `[0, m)` are equal.
pub proof fn law_inverse_unique(a: int, x: int, y: int, m: int)
    requires
        is_inverse(a, x, m),
        is_inverse(a, y, m),
    ensures
        x == y,
{
    lemma_mul_mod_noop_general(a * x, y, m);
    lemma_mul_mod_noop_general(a * y, x, m);
    assert((a * x) * y == (a * y) * x) by (nonlinear_arith);
    lemma_mul_mod_noop_general(1, y, m);
    lemma_mul_mod_noop_general(1, x, m);
    lemma_small_mod(x as nat, m as nat);
    lemma_small_mod(y as nat, m as nat);
}

/// Inverse of `a` modulo `m`, confirmed to satisfy `a * inv = 1 (mod m)` and
/// `inv < m`; the confirmation only succeeds for `m >= 2` and an invertible `a`.
pub fn modinv(a: u64, m: u64) -> (inv: u64)
    requires
        m >= 2,
        has_inverse(a as int, m as int),
    ensures
        is_inverse(a as int, inv as int, m as int),
{
    let inv = modinv_naive(a, m);
    let quo: u64 = if m == 0 {
        0
    } else {
        proof {
            assert((a as int) * (inv as int) <= (a as int) * (m as int)) by (nonlinear_arith)
                requires
                    inv < m,
            ;
            assert((a as int) * (m as int) / (m as int) == a) by (nonlinear_arith)
                requires
                    m > 0,
            ;
            assert((a as int) * (inv as int) / (m as int) <= (a as int) * (m as int) / (m as int))
                by (nonlinear_arith)
                requires
                    (a as int) * (inv as int) <= (a as int) * (m as int),
                    m > 0,
            ;
            assert((a as u128) * (inv as u128) <= 0xFFFF_FFFF_FFFF_FFFF * 0xFFFF_FFFF_FFFF_FFFFu128)
                by (nonlinear_arith);
        }
        ((a as u128) * (inv as u128) / (m as u128)) as u64
    };
    let ghost p: int = (a as int) * (inv as int);
    proof {
        assert(quo as int == p / (m as int));
        lemma_fundamental_div_mod(p, m as int);
        lemma_small_mod(1, m as nat);
        assert(p % (m as int) == 1);
        assert((quo as int) * (m as int) == p - 1) by (nonlinear_arith)
            requires
                p == (m as int) * (p / (m as int)) + 1,
                quo as int == p / (m as int),
        ;
        assert((a as u128) * (inv as u128) == p);
        assert((quo as u128) * (m as u128) == p - 1);
    }
    let product = (a as u128) * (inv as u128) - (quo as u128) * (m as u128);
    proof {
        lemma_small_mod(1, m as nat);
        assert(product == 1);
    }
    let inv_naive = modinv_naive(a, m);
    proof {
        law_inverse_unique(a as int, inv as int, inv_naive as int, m as int);
    }
    inv
}


/// The inverse of `a` modulo `m` in `[0, m)`, where it exists.
pub open spec fn inverse_of(a: int, m: int) -> int {
    choose|x: int| is_inverse(a, x, m)
}

/// Output of the harness: empty for fewer than 16 bytes, otherwise the 8-byte
/// encoding of the inverse of the leading `u64` modulo the next one.
pub open spec fn modinv_harness_output(input: Seq<u8>) -> Seq<u8> {
    if input.len() < 16 {
        seq![]
    } else {
        crate::bytes::le_bytes(
            inverse_of(crate::bytes::le_at(input, 0, 8) as int, crate::bytes::le_at(input, 8, 8) as int) as nat,
            8,
        )
    }
}

/// Decodes `a` and `m`, inverts `a` modulo `m` and encodes the inverse.
pub fn harness(input: Vec<u8>) -> (out: Vec<u8>)
    requires
        input@.len() < 16 || (crate::bytes::le_at(input@, 8, 8) >= 2 && has_inverse(
            crate::bytes::le_at(input@, 0, 8) as int,
            crate::bytes::le_at(input@, 8, 8) as int,
        )),
    ensures
        out@ == modinv_harness_output(input@),
{
    if input.len() < 16 {
        return Vec::new();
    }
    let a = crate::bytes::read_u64_le(input.as_slice(), 0);
    let m = crate::bytes::read_u64_le(input.as_slice(), 8);
    let result: u64 = modinv(a, m);
    proof {
        let x = inverse_of(a as int, m as int);
        law_inverse_unique(a as int, x, result as int, m as int);
    }
    let mut out: Vec<u8> = Vec::new();
    crate::bytes::push_le(&mut out, result as u128, 8);
    assert(out@ =~= modinv_harness_output(input@));
    out
}

} // verus!
