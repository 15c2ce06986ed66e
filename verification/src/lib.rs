//! Verified guest programs for zero-knowledge virtual machines: settlement,
//! authorisation, credential and inference rules, hashing pipelines, and the
//! byte formats that carry their inputs and outputs.
#![allow(unused_imports)]

pub mod bits;
pub mod bytes;
pub mod quorum_auth;
pub mod two_key_vault;
pub mod emission_guard;
pub mod settlement_guard;
pub mod rollup_ledger;
pub mod rollup_ledger_legacy;
pub mod eligibility;
pub mod lending_credential;
pub mod merkle_sibling;
pub mod tx_signature;
pub mod keystream_cipher;
pub mod turn_scoring;
pub mod quantised_weight;
pub mod amm_price;
pub mod knn;
pub mod modinv;
pub mod collatz;
pub mod advice;
pub mod alloc_bench;
pub mod backtrace;
pub mod muldiv;
pub mod overflow;
pub mod string_concat;
pub mod memory_ops;
pub mod digests;
pub mod sha2_bench;
pub mod sha2_chain;
pub mod merkle_tree;
pub mod keccak_bench;
pub mod keccak_chain;
pub mod sha3_bench;
pub mod poseidon;
pub mod bigint;
pub mod recover_ecdsa;
pub mod ecdsa_verify;
pub mod sig_recovery;
pub mod guest_template;
pub mod host_driver;
pub mod ordered_map;
pub mod btreemap_bench;
pub mod random_bench;
