use std::collections::BTreeMap;

use zkguest::advice::{
    abs_i64, advice_demo, factor_u16, factor_u32, factor_u64, factor_u8, prime_table, subset_index,
    triangle_from_area, verify_composite_u16, verify_composite_u8, verify_frobnitz, verify_subset,
    verify_triangle_from_area,
};
use zkguest::alloc_bench::alloc_index;
use zkguest::backtrace::panic_backtrace_nostd;
use zkguest::btreemap_bench::{btreemap, wyhash64};
use zkguest::collatz::{collatz_convergence, collatz_convergence_range};
use zkguest::memory_ops::{load_byte_signed, load_half_signed, load_half_unsigned, memory_ops, store_byte, store_half};
use zkguest::modinv::{modinv, modinv_naive};
use zkguest::ordered_map::OrderedMap;
use zkguest::overflow::overflow_stack;
use zkguest::random_bench::{combined_draws, encode_draw_sum, random_range};
use zkguest::string_concat::push_decimal;
use zkguest::{advice, alloc_bench, backtrace, btreemap_bench, collatz, memory_ops as mem, modinv as inv, muldiv, overflow, string_concat};

fn le(v: u64, n: usize) -> Vec<u8> {
    v.to_le_bytes()[..n].to_vec()
}

#[test]
fn modular_inverses() {
    assert_eq!(modinv(3, 7), 5);
    assert_eq!(modinv(10, 17), 12);
    assert_eq!(modinv(1, 2), 1);
    assert_eq!(modinv_naive(2, 4), 0);
    assert_eq!(modinv_naive(5, 0), 0);
    assert_eq!(modinv_naive(u64::MAX, u64::MAX - 1), 1);
}

#[test]
fn modinv_harness() {
    let mut input = le(3, 8);
    input.extend(le(7, 8));
    assert_eq!(inv::harness(input), le(5, 8));
    assert_eq!(inv::harness(vec![1, 2, 3]), Vec::<u8>::new());
}

#[test]
fn collatz_step_counts() {
    assert_eq!(collatz_convergence(1), 0);
    assert_eq!(collatz_convergence(6), 8);
    assert_eq!(collatz_convergence(27), 111);
    assert_eq!(collatz_convergence_range(1, 11), 19);
    assert_eq!(collatz_convergence_range(20, 30), 111);
    assert_eq!(collatz_convergence_range(5, 5), 0);
}

#[test]
fn collatz_harness() {
    assert_eq!(collatz::harness(vec![0, 0, 0, 0, 10]), (19u128).to_le_bytes().to_vec());
    assert_eq!(collatz::harness(vec![20, 0, 0, 0, 10]), (111u128).to_le_bytes().to_vec());
    assert_eq!(collatz::harness(vec![1, 0, 0, 0]), Vec::<u8>::new());
}

#[test]
fn factor_advice() {
    assert_eq!(factor_u8(15), (3, 5));
    assert_eq!(factor_u8(4), (2, 2));
    assert_eq!(factor_u8(7), (1, 7));
    assert_eq!(factor_u16(65535), [3, 21845]);
    assert_eq!(factor_u32(4_294_967_291), [1, 4_294_967_291]);
    assert_eq!(factor_u64(1_000_000_007 * 3), [3, 1_000_000_007]);
    assert_eq!(verify_composite_u8(91), (7, 13));
    assert_eq!(verify_composite_u16(10_403), (101, 103));
}

#[test]
fn subset_advice() {
    assert_eq!(subset_index(&[3, 1], &[1, 2, 3]), vec![2, 0]);
    assert_eq!(subset_index(&[9], &[1, 2, 3]), Vec::<usize>::new());
    assert_eq!(subset_index(&[1, 9], &[1, 2, 3]), Vec::<usize>::new());
    assert_eq!(verify_subset(&[2, 2, 0], &[0, 1, 2]), vec![2, 2, 0]);
    assert_eq!(verify_subset(&[], &[0]), Vec::<usize>::new());
}

#[test]
fn record_and_triangle_advice() {
    let f = verify_frobnitz();
    assert_eq!((f.x, f.y, f.z.clone()), (42, 9999, vec![1, 2, 3, 4, 5]));
    let t = triangle_from_area(6);
    assert_eq!((t.p1.x, t.p1.y, t.p2.x, t.p2.y, t.p3.x, t.p3.y), (0, 0, 1, 0, 0, 12));
    let (t2, d) = verify_triangle_from_area(6);
    assert_eq!(t2.p3.y, 12);
    assert_eq!(d, 12);
    assert_eq!(abs_i64(-5), 5);
    assert_eq!(abs_i64(5), 5);
    assert_eq!(prime_table(7), 3);
}

#[test]
fn advice_demo_report() {
    let r = advice_demo(6, vec![2, 1], vec![0, 1, 2]);
    assert_eq!(r.fac8, (2, 3));
    assert_eq!(r.fac16, (2, 3));
    assert_eq!(r.fac32, (2, 3));
    assert_eq!(r.fac64, (2, 3));
    assert_eq!(r.subset, vec![2, 1]);
    assert_eq!(r.tri.1, 12);
}

#[test]
fn advice_harness_encoding() {
    let out = advice::harness(vec![0, 1, 2, 0, 5, 1]);
    let mut want: Vec<u8> = vec![2, 3];
    want.extend(le(2, 2));
    want.extend(le(3, 2));
    want.extend(le(2, 4));
    want.extend(le(3, 4));
    want.extend(le(2, 8));
    want.extend(le(3, 8));
    want.extend(le(2, 8));
    want.extend(le(2, 8));
    want.extend(le(1, 8));
    want.push(42);
    want.extend(le(9999, 8));
    want.extend(le(5, 8));
    for z in 1..=5u64 {
        want.extend(le(z, 2));
    }
    for c in [0u64, 0, 1, 0, 0, 12] {
        want.extend(le(c, 4));
    }
    want.extend(le(12, 8));
    assert_eq!(out, want);
    assert_eq!(advice::harness(vec![0, 1, 5]), Vec::<u8>::new());
}

#[test]
fn alloc_and_backtrace() {
    assert_eq!(alloc_index(0), 0);
    assert_eq!(alloc_index(99), 99);
    assert_eq!(alloc_bench::harness(vec![42, 0, 0, 0]), le(42, 4));
    assert_eq!(alloc_bench::harness(vec![42]), Vec::<u8>::new());
    assert_eq!(panic_backtrace_nostd(false), 7);
    assert_eq!(backtrace::harness(vec![0]), le(7, 4));
    assert_eq!(backtrace::harness(vec![]), Vec::<u8>::new());
}

#[test]
fn muldiv_and_overflow() {
    let mut input = le(6, 4);
    input.extend(le(7, 4));
    input.extend(le(4, 4));
    assert_eq!(muldiv::harness(input), le(10, 4));
    let mut zero_div = le(6, 4);
    zero_div.extend(le(7, 4));
    zero_div.extend(le(0, 4));
    assert_eq!(muldiv::harness(zero_div), Vec::<u8>::new());
    assert_eq!(overflow_stack(), 1024);
    assert_eq!(overflow::harness(vec![]), le(1024, 4));
}

#[test]
fn decimal_concatenation() {
    assert_eq!(string_concat::harness(le(3, 4)), b"012".to_vec());
    assert_eq!(string_concat::harness(le(12, 4)), b"01234567891011".to_vec());
    assert_eq!(string_concat::harness((-5i32).to_le_bytes().to_vec()), Vec::<u8>::new());
    assert_eq!(string_concat::harness(vec![1]), Vec::<u8>::new());
    let mut out = b"x".to_vec();
    push_decimal(&mut out, 4_294_967_295);
    assert_eq!(out, b"x4294967295".to_vec());
}

#[test]
fn memory_operations() {
    assert_eq!(memory_ops(), (0x12, 0, 0x3456, 0));
    let mut data = [0u8; 8];
    store_byte(&mut data, 3, 0x1_80);
    assert_eq!(data[3], 0x80);
    assert_eq!(load_byte_signed(&data, 3), -128);
    store_half(&mut data, 4, 0xABCD_FFFE);
    assert_eq!(load_half_signed(&data, 4), -2);
    assert_eq!(load_half_unsigned(&data, 4), 0xFFFE);
    let mut want = le(0x12, 4);
    want.extend(le(0, 4));
    want.extend(le(0x3456, 4));
    want.extend(le(0, 4));
    assert_eq!(mem::harness(vec![]), want);
}

fn reference_workload(n: u32) -> u128 {
    let mix = |x: u64| {
        let mut x = x;
        x ^= x >> 32;
        x = x.wrapping_mul(0xd6e8feb86659fd93);
        x ^= x >> 32;
        x.wrapping_mul(0xd6e8feb86659fd93)
    };
    let mut map = BTreeMap::new();
    let mut keys = Vec::new();
    for i in 0..n {
        keys.push(mix(i as u64));
        map.insert(mix(i as u64), i as u64);
    }
    for k in keys.iter().take((n / 4) as usize) {
        map.remove(k);
    }
    for i in 0..n / 2 {
        map.insert(mix((i + 2 * n) as u64), (i + n) as u64);
    }
    let mut sum = 0u64;
    if let (Some((&lo, _)), Some((&hi, _))) = (map.first_key_value(), map.last_key_value()) {
        let w = (hi - lo) / 4;
        let start = lo + w;
        for (_, v) in map.range(start..start + w) {
            sum = sum.wrapping_add(*v);
        }
    }
    map.len() as u128 + sum as u128
}

#[test]
fn ordered_map_workload_matches_a_balanced_tree() {
    for n in [0u32, 1, 2, 3, 4, 7, 8, 13, 50, 63] {
        assert_eq!(btreemap(n), reference_workload(n), "n = {n}");
    }
    assert_eq!(btreemap_bench::harness(vec![50 + 64, 0, 0, 0]), reference_workload(50).to_le_bytes().to_vec());
    assert_eq!(btreemap_bench::harness(vec![1, 2]), Vec::<u8>::new());
}

#[test]
fn mixing_hash_is_injective_on_the_workload_keys() {
    let mut seen = std::collections::BTreeSet::new();
    for i in 0..10_000u64 {
        assert!(seen.insert(wyhash64(i)));
    }
}

#[test]
fn mixing_hash_values() {
    assert_eq!(wyhash64(0), 0);
    let x: u64 = 1;
    let a = x ^ (x >> 32);
    let b = a.wrapping_mul(0xd6e8feb86659fd93);
    let c = b ^ (b >> 32);
    assert_eq!(wyhash64(1), c.wrapping_mul(0xd6e8feb86659fd93));
}

#[test]
fn ordered_map_operations() {
    let mut m = OrderedMap::new();
    assert_eq!(m.len(), 0);
    assert_eq!(m.first_key_value(), None);
    assert_eq!(m.insert(5, 50), None);
    assert_eq!(m.insert(1, 10), None);
    assert_eq!(m.insert(9, 90), None);
    assert_eq!(m.insert(5, 55), Some(50));
    assert_eq!(m.len(), 3);
    assert_eq!(m.first_key_value(), Some((1, 10)));
    assert_eq!(m.last_key_value(), Some((9, 90)));
    assert_eq!(m.range_values(1, 9), vec![10, 55]);
    assert_eq!(m.range_values(0, u64::MAX), vec![10, 55, 90]);
    assert_eq!(m.range_values(6, 6), Vec::<u64>::new());
    assert_eq!(m.remove(5), Some(55));
    assert_eq!(m.remove(5), None);
    assert_eq!(m.range_values(0, 100), vec![10, 90]);
    assert_eq!(m.len(), 2);
}

#[test]
fn random_range_decoding() {
    let mut input = le(10, 4);
    input.extend(le(20, 4));
    assert_eq!(random_range(&input), Some((10, 20)));
    let mut raised = le(10, 4);
    raised.extend(le(3, 4));
    assert_eq!(random_range(&raised), Some((10, 11)));
    let mut top = le(u32::MAX as u64, 4);
    top.extend(le(0, 4));
    assert_eq!(random_range(&top), None);
    assert_eq!(random_range(&[1, 2, 3]), None);
}

#[test]
fn combined_draws_stay_in_range() {
    for _ in 0..20 {
        let out = combined_draws(10, 20, 5);
        let v = u32::from_le_bytes([out[0], out[1], out[2], out[3]]);
        assert!((15..25).contains(&v));
    }
    assert_eq!(combined_draws(7, 8, 7), le(14, 4));
    assert_eq!(encode_draw_sum(3, 4), le(7, 4));
    assert_eq!(encode_draw_sum(u32::MAX, 2), le(1, 4));
    assert_eq!(combined_draws(u32::MAX - 1, u32::MAX, u32::MAX - 1), le(0xFFFF_FFFC, 4));
}

#[test]
fn little_endian_round_trip() {
    use_bytes_round_trip(0x1234_5678, 4);
    use_bytes_round_trip(u32::MAX as u64, 4);
    use_bytes_round_trip(0x0102_0304_0506_0708, 8);
}

fn use_bytes_round_trip(x: u64, n: usize) {
    let mut out = vec![0xAA];
    zkguest::bytes::push_le(&mut out, x as u128, n);
    assert_eq!(out.len(), 1 + n);
    assert_eq!(zkguest::bytes::read_le(&out, 1, n), x as u128);
    if n == 4 {
        assert_eq!(zkguest::bytes::read_u32_le(&out, 1) as u64, x);
    } else {
        assert_eq!(zkguest::bytes::read_u64_le(&out, 1), x);
    }
}
