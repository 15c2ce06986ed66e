use zkguest::amm_price::{publish_twap_price, significant_bits, twap_price_log2};
use zkguest::keystream_cipher::keystream_encrypt;
use zkguest::knn::{classify_knn, pop_nearest};
use zkguest::merkle_sibling::{cold_resolve_node, hash_pair, verify_merkle_inclusion};
use zkguest::quantised_weight::{dequant, score_sample, StoredWeight};
use zkguest::turn_scoring::{points_of, score_match, P1_WINS};
use zkguest::tx_signature::{compute_msg_hash, sig_components_valid, verify_tx_signature};

fn keystream_message() -> [u32; 32] {
    let mut message = [0u32; 32];
    for (k, m) in message.iter_mut().enumerate() {
        *m = (k as u32).wrapping_mul(2_654_435_761) ^ 0xDEAD_0000;
    }
    message[31] = 0x30E8_1E76;
    message
}

#[test]
fn keystream_digest_of_the_committed_message() {
    let message = keystream_message();
    assert_eq!(keystream_encrypt(message, false), 0x5449_933a);
    assert_eq!(keystream_encrypt(message, true), 0x2e47_ddfa);
}

#[test]
fn keystream_digest_of_zero_message() {
    let mut d: u32 = 0x811C_9DC5;
    for i in 0..32 {
        let mask = if i % 2 == 0 { 0x5A5A_5A5Au32 } else { 0xA5A5_A5A5 };
        d = (d ^ mask).wrapping_mul(0x0100_0193);
    }
    assert_eq!(keystream_encrypt([0u32; 32], false), d);
}

#[test]
fn score_match_alternating_moves() {
    let mut moves = [0u32; 32];
    for k in 0..16 {
        moves[2 * k + 1] = 510;
    }
    assert_eq!(score_match(moves, false), 0x8000_0000_0000_00e0);
    assert_eq!(score_match(moves, true), 0xe0);
}

#[test]
fn score_match_mixed_moves() {
    let mut moves = [0u32; 32];
    for (k, m) in moves.iter_mut().enumerate() {
        *m = (k as u32).wrapping_mul(2_654_435_761) ^ 0x0BAD_F00D;
    }
    assert_eq!(score_match(moves, false), 0xd);
    assert_eq!(score_match(moves, true), 0x8000_0000_0000_000d);
    assert_eq!(score_match([0u32; 32], false), 0);
}

#[test]
fn move_points() {
    assert_eq!(points_of(0), 0);
    assert_eq!(points_of(510), 8 + 6);
    assert_eq!(points_of(0xFF), 8 + 0xFF % 7);
    assert!(P1_WINS == 1 << 63);
}

#[test]
fn knn_scenario_predicts_class_three() {
    let encoded: [u32; 16] = [
        0x02_03, 0x05_01, 0x09_03, 0x0c_02, 0x11_01, 0x14_03, 0x1a_02, 0x22_03, 0, 0, 0, 0, 0, 0,
        0, 0,
    ];
    assert_eq!(classify_knn(encoded), 3);
}

#[test]
fn knn_edge_cases() {
    let mut e = [0u32; 16];
    assert_eq!(classify_knn(e), 0);
    e[0] = 0x01_01;
    e[1] = 0x02_02;
    e[2] = 0x03_02;
    assert_eq!(classify_knn(e), 2);
    // distances wrap modulo 64 and a later entry replaces an earlier one
    let mut f = [0u32; 16];
    f[0] = 0x40_05;
    assert_eq!(classify_knn(f), 5);
    f[1] = 0x01_01;
    f[2] = 0x01_02;
    assert_eq!(classify_knn(f), 5);
}

#[test]
fn pop_nearest_takes_the_first_occupied_bucket() {
    let mut bucket: Vec<Option<u32>> = vec![None, Some(4), None, Some(9)];
    assert_eq!(pop_nearest(&mut bucket), Some(4));
    assert_eq!(bucket, vec![None, None, None, Some(9)]);
    assert_eq!(pop_nearest(&mut bucket), Some(9));
    assert_eq!(pop_nearest(&mut bucket), None);
}

#[test]
fn quantised_weight_scenario() {
    assert_eq!(score_sample(0x05, [0x02, 0x03], 1000), 5016);
    assert_eq!(score_sample(0xFF, [0xFE, 0x0A], 3), 0xFFFF_FFF5);
    assert_eq!(dequant(StoredWeight::Pair(2, 3)), Some((2, 3)));
    assert_eq!(dequant(StoredWeight::Scalar(5)), None);
}

#[test]
fn twap_scenario_publishes_two_to_the_35() {
    let price = publish_twap_price(
        47_000_000_000_000,
        6_100_000_000_000,
        1800,
        49_000_000_000_000,
        5_900_000_000_000,
        1800,
    );
    assert_eq!(price, 34_359_738_368);
}

#[test]
fn twap_exponent_and_bits() {
    assert_eq!(significant_bits(0), 0);
    assert_eq!(significant_bits(1), 1);
    assert_eq!(significant_bits(255), 8);
    assert_eq!(significant_bits(-1), 128);
    assert_eq!(twap_price_log2(8, 1), Some(3));
    assert_eq!(twap_price_log2(1, 8), Some(0));
    // a quote window shorter than the base window prices at one
    assert_eq!(publish_twap_price(1, 8, 1, 0, 0, 1), 1u64 << 32);
    // prices from 2^64 up saturate
    assert_eq!(publish_twap_price(1u64 << 31, 1, 1, 0, 0, 0), 1u64 << 63);
    assert_eq!(publish_twap_price(1u64 << 32, 1, 1, 0, 0, 0), u64::MAX);
    assert_eq!(publish_twap_price(1u64 << 40, 1, 1, 0, 0, 0), u64::MAX);
    assert_eq!(publish_twap_price(1u64 << 62, 1, 1u64 << 62, 0, 0, 0), u64::MAX);
}

#[test]
fn merkle_hash_pair_value() {
    assert_eq!(hash_pair(1, 2), 0x68e1_3122_a3d4_888d);
    assert_ne!(hash_pair(1, 2), hash_pair(2, 1));
    assert_eq!(cold_resolve_node(3), Ok(3));
}

#[test]
fn merkle_inclusion_accepts_the_true_root_only() {
    let leaf = 0xCAFE_BABE_1234_5678u64;
    let root = 0x5e5c_81c6_a6e7_b0bfu64;
    assert!(verify_merkle_inclusion(leaf, 1, 2, 3, 4, 5, 6, 7, 8, 0x7654_3210, 0b0101_0101, root));
    assert!(!verify_merkle_inclusion(leaf, 1, 2, 3, 4, 5, 6, 7, 8, 0x7654_3210, 0b0101_0101, root + 1));
    assert!(!verify_merkle_inclusion(leaf, 1, 2, 3, 4, 5, 6, 7, 9, 0x7654_3210, 0b0101_0101, root));
    assert!(verify_merkle_inclusion(leaf, 1, 2, 3, 4, 5, 6, 7, 8, 0, 0, 0x791c_ed4e_5862_7814));
}

#[test]
fn tx_signature_scenario_rejects_zero_s() {
    let h = compute_msg_hash(1, 42, 1_000, 21_000, 0);
    assert_eq!(h, 0x5ee1_041a_8e08_d32e);
    assert_eq!(verify_tx_signature(1, 5, 0, 1, 42, 1_000, 21_000, 0, h), 0);
}

#[test]
fn tx_signature_commitment_and_refusals() {
    let h = compute_msg_hash(1, 42, 1_000, 21_000, 0);
    assert_eq!(verify_tx_signature(1, 5, 6, 1, 42, 1_000, 21_000, 0, h), 0xa3c3_5042_f456_a9db);
    assert_eq!(verify_tx_signature(1, 5, 6, 1, 42, 1_000, 21_000, 0, h ^ 1), 0);
    assert_eq!(verify_tx_signature(2, 5, 6, 1, 42, 1_000, 21_000, 0, h), 0);
    assert_eq!(verify_tx_signature(1, 0, 6, 1, 42, 1_000, 21_000, 0, h), 0);
    assert_eq!(verify_tx_signature(1, 0xFFFF_FFFE_FFFF_FFFF, 6, 1, 42, 1_000, 21_000, 0, h), 0);
    assert!(sig_components_valid(1, 0xFFFF_FFFE_FFFF_FFFE, 1));
    assert!(!sig_components_valid(1, 1, 0xFFFF_FFFE_FFFF_FFFF));
}
