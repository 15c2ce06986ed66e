//! Little-endian byte layouts: the encoding of unsigned values into a fixed
//! number of bytes and the value that a run of bytes denotes.
use vstd::prelude::*;
use vstd::arithmetic::div_mod::{lemma_mod_breakdown, lemma_fundamental_div_mod, lemma_mod_bound};

verus! {

/// `256^n`.
pub open spec fn pow256(n: nat) -> nat
    decreases n,
{
    if n == 0 {
        1
    } else {
        256 * pow256((n - 1) as nat)
    }
}

/// The `n` least significant bytes of `x`, least significant first.
pub open spec fn le_bytes(x: nat, n: nat) -> Seq<u8>
    decreases n,
{
    if n == 0 {
        seq![]
    } else {
        seq![(x % 256) as u8] + le_bytes(x / 256, (n - 1) as nat)
    }
}

/// The unsigned value that a run of bytes denotes, least significant first.
pub open spec fn le_value(s: Seq<u8>) -> nat
    decreases s.len(),
{
    if s.len() == 0 {
        0
    } else {
        s[0] as nat + 256 * le_value(s.drop_first())
    }
}

pub proof fn lemma_pow256_pos(n: nat)
    ensures
        pow256(n) > 0,
    decreases n,
{
    if n > 0 {
        lemma_pow256_pos((n - 1) as nat);
    }
}

pub proof fn lemma_le_bytes_len(x: nat, n: nat)
    ensures
        le_bytes(x, n).len() == n,
    decreases n,
{
    if n > 0 {
        lemma_le_bytes_len(x / 256, (n - 1) as nat);
    }
}

/// A run of `n` bytes denotes a value below `256^n`.
pub proof fn lemma_le_value_bound(s: Seq<u8>)
    ensures
        le_value(s) < pow256(s.len()),
    decreases s.len(),
{
    if s.len() > 0 {
        lemma_le_value_bound(s.drop_first());
        let r = le_value(s.drop_first());
        assert(s[0] as nat + 256 * r <= 255 + 256 * (pow256((s.len() - 1) as nat) - 1))
            by (nonlinear_arith)
            requires
                r < pow256((s.len() - 1) as nat),
                s[0] <= 255,
        ;
    }
}

/// Decoding an encoding gives the value back, reduced to the bytes kept.
pub proof fn law_le_roundtrip_value(x: nat, n: nat)
    ensures
        le_value(le_bytes(x, n)) == x % pow256(n),
    decreases n,
{
    lemma_le_bytes_len(x, n);
    if n == 0 {
    } else {
        law_le_roundtrip_value(x / 256, (n - 1) as nat);
        let s = le_bytes(x, n);
        assert(s.drop_first() =~= le_bytes(x / 256, (n - 1) as nat));
        lemma_pow256_pos((n - 1) as nat);
        lemma_mod_breakdown(x as int, 256, pow256((n - 1) as nat) as int);
        assert(s[0] as nat == x % 256);
    }
}

/// Encoding the value of a run of bytes gives the same bytes back.
pub proof fn law_le_roundtrip_bytes(s: Seq<u8>)
    ensures
        le_bytes(le_value(s), s.len()) == s,
    decreases s.len(),
{
    if s.len() > 0 {
        law_le_roundtrip_bytes(s.drop_first());
        let v = le_value(s);
        let r = le_value(s.drop_first());
        assert(v % 256 == s[0] as nat && v / 256 == r) by {
            lemma_fundamental_div_mod(v as int, 256);
            lemma_mod_bound(v as int, 256);
        }
        assert(le_bytes(v, s.len()) =~= s);
    }
}

/// Appends the `n` least significant bytes of `x` to `out`, least significant first.
pub fn push_le(out: &mut Vec<u8>, x: u128, n: usize)
    ensures
        final(out)@ == old(out)@ + le_bytes(x as nat, n as nat),
{
    let mut v: u128 = x;
    let mut i: usize = 0;
    while i < n
        invariant
            i <= n,
            out@ + le_bytes(v as nat, (n - i) as nat) == old(out)@ + le_bytes(x as nat, n as nat),
        decreases n - i,
    {
        let ghost before = out@;
        out.push((v % 256) as u8);
        proof {
            let rest = le_bytes((v / 256) as nat, (n - i - 1) as nat);
            assert(le_bytes(v as nat, (n - i) as nat) == seq![(v % 256) as u8] + rest);
            assert(out@ + rest =~= before + le_bytes(v as nat, (n - i) as nat));
        }
        v = v / 256;
        i = i + 1;
    }
    assert(le_bytes(v as nat, 0) =~= Seq::<u8>::empty());
    assert(out@ + le_bytes(v as nat, 0) =~= out@);
}

/// Reads the value of the `n` bytes of `s` that start at `off`, least significant first.
pub fn read_le(s: &[u8], off: usize, n: usize) -> (r: u128)
    requires
        n <= 16,
        off + n <= s@.len(),
    ensures
        r as nat == le_value(s@.subrange(off as int, off + n)),
{
    let mut acc: u128 = 0;
    let mut i: usize = n;
    proof {
        assert(s@.subrange(off + n, off + n) =~= Seq::<u8>::empty());
    }
    while i > 0
        invariant
            i <= n <= 16,
            off + n <= s@.len(),
            s@.len() == s.len(),
            acc as nat == le_value(s@.subrange(off + i, off + n)),
        decreases i,
    {
        let ghost tail = s@.subrange(off + i, off + n);
        let ghost next = s@.subrange(off + i - 1, off + n);
        proof {
            assert(next.drop_first() =~= tail);
            lemma_le_value_bound(tail);
            lemma_pow256_upto16(tail.len());
            assert(acc * 256 + 255 < 0x1_0000_0000_0000_0000_0000_0000_0000_0000) by (nonlinear_arith)
                requires
                    acc < pow256(tail.len()),
                    pow256(tail.len()) <= 0x1_0000_0000_0000_0000_0000_0000_0000_00,
            ;
        }
        acc = acc * 256 + s[off + i - 1] as u128;
        i = i - 1;
    }
    acc
}

/// `256^k <= 2^120` for `k <= 15`.
proof fn lemma_pow256_upto16(k: nat)
    requires
        k <= 15,
    ensures
        pow256(k) <= 0x1_0000_0000_0000_0000_0000_0000_0000_00,
{
    lemma_pow256_le(k, 15);
    assert(pow256(15) == 0x1_0000_0000_0000_0000_0000_0000_0000_00) by {
        reveal_with_fuel(pow256, 16);
    }
}

/// `256^j <= 256^k` for `j <= k`.
pub proof fn lemma_pow256_le(j: nat, k: nat)
    requires
        j <= k,
    ensures
        pow256(j) <= pow256(k),
    decreases k,
{
    if j < k {
        lemma_pow256_le(j, (k - 1) as nat);
        lemma_pow256_pos((k - 1) as nat);
    }
}


/// Value of the `n` bytes of `s` starting at `off`, least significant first.
pub open spec fn le_at(s: Seq<u8>, off: nat, n: nat) -> nat {
    le_value(s.subrange(off as int, (off + n) as int))
}

/// Concatenation of the `w`-byte encodings of `vals`, in order.
pub open spec fn le_concat(vals: Seq<nat>, w: nat) -> Seq<u8>
    decreases vals.len(),
{
    if vals.len() == 0 {
        seq![]
    } else {
        le_concat(vals.drop_last(), w) + le_bytes(vals.last(), w)
    }
}

/// Reads a little-endian `u32` at `off`.
pub fn read_u32_le(s: &[u8], off: usize) -> (v: u32)
    requires
        off + 4 <= s@.len(),
    ensures
        v as nat == le_at(s@, off as nat, 4),
{
    let r = read_le(s, off, 4);
    proof {
        lemma_le_value_bound(s@.subrange(off as int, off + 4));
        assert(pow256(4) == 0x1_0000_0000) by {
            reveal_with_fuel(pow256, 5);
        }
    }
    r as u32
}

/// Reads a little-endian `u64` at `off`.
pub fn read_u64_le(s: &[u8], off: usize) -> (v: u64)
    requires
        off + 8 <= s@.len(),
    ensures
        v as nat == le_at(s@, off as nat, 8),
{
    let r = read_le(s, off, 8);
    proof {
        lemma_le_value_bound(s@.subrange(off as int, off + 8));
        assert(pow256(8) == 0x1_0000_0000_0000_0000) by {
            reveal_with_fuel(pow256, 9);
        }
    }
    r as u64
}

} // verus!
