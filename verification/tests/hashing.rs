use secp256k1::ecdsa::RecoverableSignature;
use secp256k1::{Message, PublicKey, SecretKey};
use sha2::Digest;
use starknet_crypto::{poseidon_hash_many, Felt};

use zkguest::digests::{concat_32, digest_to_vec, first_32};
use zkguest::keccak_chain::sha3_chain;
use zkguest::merkle_tree::{merkle_tree, slice_range};
use zkguest::poseidon::bytes_to_felts;
use zkguest::sha2_chain::sha2_chain;
use zkguest::{bigint, keccak_bench, keccak_chain, merkle_tree as tree, poseidon, recover_ecdsa, sha2_bench, sha2_chain as chain2, sha3_bench};

fn unhex(s: &str) -> Vec<u8> {
    (0..s.len()).step_by(2).map(|i| u8::from_str_radix(&s[i..i + 2], 16).unwrap()).collect()
}

fn sha(data: &[u8]) -> [u8; 32] {
    sha2::Sha256::digest(data).into()
}

#[test]
fn sha256_known_digests() {
    assert_eq!(
        sha2_bench::harness(b"abc".to_vec()),
        unhex("ba7816bf8f01cfea414140de5dae2223b00361a396177a9cb410ff61f20015ad")
    );
    assert_eq!(
        sha2_bench::harness(vec![]),
        unhex("e3b0c44298fc1c149afbf4c8996fb92427ae41e4649b934ca495991b7852b855")
    );
}

#[test]
fn keccak256_known_digests() {
    assert_eq!(
        keccak_bench::harness(vec![]),
        unhex("c5d2460186f7233c927e7db2dcc703c0e500b653ca82273b7bfad8045d85a470")
    );
    assert_eq!(
        keccak_bench::harness(b"abc".to_vec()),
        unhex("4e03657aea45a94fc7d47ba826c8d667c0d1e6e33a64a036ec44f58fa12d6c45")
    );
}

#[test]
fn sha3_256_known_digests() {
    assert_eq!(
        sha3_bench::harness(b"abc".to_vec()),
        unhex("3a985da74fe225b2045c172d6bd390bd855f086e3e9d525b46bfe24511431532")
    );
    assert_eq!(
        sha3_bench::harness(vec![]),
        unhex("a7ffc6f8bf1ed76651c14756a061d662f580ff4de43b49fa82d80a4b80f8434a")
    );
}

#[test]
fn sha256_chain_iterates() {
    let seed = [7u8; 32];
    assert_eq!(sha2_chain(seed, 0), seed);
    assert_eq!(sha2_chain(seed, 1), sha(&seed));
    assert_eq!(sha2_chain(seed, 2), sha(&sha(&seed)));
    let mut input = seed.to_vec();
    input.extend(2u32.to_le_bytes());
    assert_eq!(chain2::harness(input), sha(&sha(&seed)).to_vec());
    assert_eq!(chain2::harness(vec![0; 35]), Vec::<u8>::new());
}

#[test]
fn keccak_chain_iterates() {
    let empty_digest = unhex("c5d2460186f7233c927e7db2dcc703c0e500b653ca82273b7bfad8045d85a470");
    let seed = [0u8; 32];
    assert_eq!(sha3_chain(seed, 0), seed);
    let once = sha3_chain(seed, 1);
    assert_ne!(once.to_vec(), seed.to_vec());
    assert_ne!(once.to_vec(), empty_digest);
    assert_eq!(sha3_chain(seed, 2), sha3_chain(once, 1));
    let mut input = seed.to_vec();
    input.push(9);
    assert_eq!(keccak_chain::harness(input), sha3_chain(seed, 2).to_vec());
    assert_eq!(keccak_chain::harness(vec![0; 32]), Vec::<u8>::new());
}

#[test]
fn four_leaf_merkle_root() {
    let leaves: Vec<[u8; 32]> = (0..4u8).map(|i| [i; 32]).collect();
    let h: Vec<[u8; 32]> = leaves.iter().map(|l| sha(l)).collect();
    let h01 = sha(&[h[0], h[1]].concat());
    let h23 = sha(&[h[2], h[3]].concat());
    let root = sha(&[h01, h23].concat());
    assert_eq!(merkle_tree(&leaves[0], &leaves[1], &leaves[2], &leaves[3]), root);
    assert_eq!(tree::harness(leaves.concat()), root.to_vec());
    assert_eq!(tree::harness(vec![0; 127]), Vec::<u8>::new());
}

#[test]
fn byte_helpers() {
    let a = [1u8; 32];
    let b = [2u8; 32];
    let pair = concat_32(&a, &b);
    assert_eq!(&pair[..32], &a);
    assert_eq!(&pair[32..], &b);
    assert_eq!(first_32(&pair), a);
    assert_eq!(digest_to_vec(&b), vec![2u8; 32]);
    assert_eq!(slice_range(&[1, 2, 3, 4], 1, 3), vec![2, 3]);
}

#[test]
fn felt_chunks() {
    let input: Vec<u8> = (1..=40).collect();
    let chunks = bytes_to_felts(&input);
    assert_eq!(chunks.len(), 2);
    let mut first = [0u8; 32];
    first[1..].copy_from_slice(&input[..31]);
    assert_eq!(chunks[0], first);
    let mut second = [0u8; 32];
    second[23..].copy_from_slice(&input[31..]);
    assert_eq!(chunks[1], second);
    assert!(bytes_to_felts(&[]).is_empty());
    assert_eq!(bytes_to_felts(&[0u8; 62]).len(), 2);
}

#[test]
fn poseidon_hash_of_chunks() {
    let input: Vec<u8> = (1..=40).collect();
    let felts: Vec<Felt> = bytes_to_felts(&input).iter().map(Felt::from_bytes_be).collect();
    let want = poseidon_hash_many(&felts).to_bytes_be();
    assert_eq!(poseidon::harness(input.clone()), want.to_vec());
    assert_ne!(poseidon::harness(input), poseidon::harness(vec![1]));
    let none: Vec<Felt> = vec![];
    assert_eq!(poseidon::harness(vec![]), poseidon_hash_many(&none).to_bytes_be().to_vec());
}

#[test]
fn bigint_product_and_order() {
    let mut input = vec![0u8; 64];
    input[0] = 2;
    input[32] = 3;
    let mut want = vec![0u8; 33];
    want[0] = 6;
    assert_eq!(bigint::harness(input), want);

    let mut wrap = vec![0u8; 64];
    wrap[31] = 0x80;
    wrap[32] = 2;
    let mut want = vec![0u8; 33];
    want[32] = 1;
    assert_eq!(bigint::harness(wrap), want);

    let mut big = vec![0u8; 64];
    big[0] = 0xFF;
    big[1] = 0xFF;
    big[32] = 0xFF;
    big[33] = 0xFF;
    let mut want = vec![0u8; 33];
    let p: u64 = 0xFFFF * 0xFFFF;
    want[..8].copy_from_slice(&p.to_le_bytes());
    assert_eq!(bigint::harness(big), want);
    assert_eq!(bigint::harness(vec![0; 63]), Vec::<u8>::new());
}

#[test]
fn ecdsa_public_key_recovery() {
    let sk = SecretKey::from_byte_array([0x11; 32]).unwrap();
    let digest = sha(b"message");
    let sig = RecoverableSignature::sign_ecdsa_recoverable(Message::from_digest(digest), &sk);
    let (recid, compact) = sig.serialize_compact();
    let mut input = compact.to_vec();
    input.push(u8::from(recid));
    input.extend(digest);
    let want = PublicKey::from_secret_key(&sk).serialize_uncompressed();
    assert_eq!(recover_ecdsa::harness(input.clone()), want.to_vec());

    let mut bad_id = input.clone();
    bad_id[64] = 4;
    assert_eq!(recover_ecdsa::harness(bad_id), Vec::<u8>::new());
    let mut other_digest = input.clone();
    other_digest[70] ^= 1;
    assert_ne!(recover_ecdsa::harness(other_digest), want.to_vec());
    assert_eq!(recover_ecdsa::harness(vec![0; 96]), Vec::<u8>::new());
}
