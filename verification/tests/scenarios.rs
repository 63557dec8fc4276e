use num_bigint::BigInt;
use num_traits::ToPrimitive;
use rustaxa_vdf::hash::{HashToPrime, PrecisionCache};
use rustaxa_vdf::primality::is_probably_prime;
use rustaxa_vdf::prng::SplitMix64;
use rustaxa_vdf::prover::CancellationToken;
use rustaxa_vdf::storage::{compare_uint64_keys, last_level_from_entry, le64_decode, le64_encode,
    period_from_value, Column, StorageError};
use rustaxa_vdf::vdf::{
    cancellation_token_cancel, make_cancellation_token, make_cancellation_token_with_atomic,
    make_solution, make_vdf, prove, solution_get_output, solution_get_proof, verify,
};
use std::cmp::Ordering;
use std::sync::atomic::AtomicBool;
use std::sync::Arc;

#[test]
fn test_scenario_small_puzzle_round_trip() {
    // lambda 128, time_bits 4, input [0x02], modulus [0x01, 0x01] (N = 257)
    let vdf = make_vdf(128, 4, &[0x02], &[0x01, 0x01]);
    assert_eq!(*vdf.iterations(), BigInt::from(16));

    let token = make_cancellation_token();
    let solution = prove(&vdf, &token);
    assert!(!solution_get_proof(&solution).is_empty());
    assert!(!solution_get_output(&solution).is_empty());
    assert!(verify(&vdf, &solution));

    // Incrementing the last byte of the output must break verification.
    let mut corrupted = solution_get_output(&solution).to_vec();
    let last = corrupted.len() - 1;
    corrupted[last] = corrupted[last].wrapping_add(1);
    let bad = make_solution(solution_get_proof(&solution), &corrupted);
    assert!(!verify(&vdf, &bad));
}

#[test]
fn test_facade_cancellation() {
    let vdf = make_vdf(128, 10, &[0x02], &[0x01, 0x01]);
    let token = make_cancellation_token();
    cancellation_token_cancel(&token);
    let solution = prove(&vdf, &token);
    assert!(solution_get_proof(&solution).is_empty());
    assert!(solution_get_output(&solution).is_empty());
}

#[test]
fn test_external_flag_token() {
    let flag = Arc::new(AtomicBool::new(false));
    let token = make_cancellation_token_with_atomic(flag.clone());
    assert!(!token.is_cancelled());

    // Cancelling through a second token bound to the same flag is seen by
    // the first.
    let other = CancellationToken::from_atomic_ptr(flag);
    other.cancel();
    assert!(token.is_cancelled());
}

#[test]
fn test_make_solution_round_trip() {
    let solution = make_solution(&[1, 2, 3], &[4, 5]);
    assert_eq!(solution_get_proof(&solution), &[1, 2, 3]);
    assert_eq!(solution_get_output(&solution), &[4, 5]);
}

#[test]
fn test_precision_cache_agrees_with_fresh_instances() {
    let mut cache = PrecisionCache::new();
    let b1 = cache.bound_bits(128);
    let b2 = cache.bound_bits(128);
    assert_eq!(b1, b2);
    assert!(64 <= b1 && b1 <= 8192);

    let cached = HashToPrime::new_with_cache(128, &mut cache);
    let fresh = HashToPrime::new(128);
    assert_eq!(cached.max_int(), fresh.max_int());
}

#[test]
fn test_precision_bound_uses_lambert_estimate() {
    // For a large security parameter the estimated magnitude is far above
    // the 64-bit fallback floor.
    let bound = rustaxa_vdf::hash::compute_precision_bound(1500);
    assert!(bound.bits() > 500);
}

#[test]
fn test_splitmix_streams() {
    let mut a = SplitMix64::new(42);
    let mut b = SplitMix64::new(42);
    let mut c = SplitMix64::new(43);
    let xs: Vec<u64> = (0..8).map(|_| a.next_u64()).collect();
    let ys: Vec<u64> = (0..8).map(|_| b.next_u64()).collect();
    let zs: Vec<u64> = (0..8).map(|_| c.next_u64()).collect();
    assert_eq!(xs, ys);
    assert_ne!(xs, zs);
}

#[test]
fn test_probable_prime_known_values() {
    assert!(is_probably_prime(2, 30));
    assert!(is_probably_prime(3, 30));
    assert!(is_probably_prime(5, 30));
    assert!(is_probably_prime(817_504_243, 30));
    assert!(is_probably_prime(1_000_000_007, 30));

    assert!(!is_probably_prime(0, 30));
    assert!(!is_probably_prime(1, 30));
    assert!(!is_probably_prime(4, 30));
    assert!(!is_probably_prime(9, 30));
    assert!(!is_probably_prime(163 * 4003, 30));
    assert!(!is_probably_prime(1_000_000_007u64 * 998_244_353, 30));
}

#[test]
fn test_hash_to_prime_result_fits_candidate_range() {
    let h2p = HashToPrime::new(128);
    let p = h2p.hash_to_prime(&BigInt::from(7u32)).unwrap();
    let v = p.to_u64().unwrap();
    // candidates are of the form 6k +/- 1 with k below the 32-bit ceiling
    assert!(v <= 6 * (u32::MAX as u64 / 6 - 1) + 7);
    assert!(v >= 2);
}

#[test]
fn test_le64_codec() {
    let bytes = le64_encode(0x0102030405060708);
    assert_eq!(bytes, vec![8, 7, 6, 5, 4, 3, 2, 1]);
    assert_eq!(le64_decode(&bytes), 0x0102030405060708);

    assert_eq!(le64_encode(0), vec![0; 8]);
    assert_eq!(le64_decode(&le64_encode(u64::MAX)), u64::MAX);
}

#[test]
fn test_last_level_from_entry_cases() {
    assert_eq!(last_level_from_entry(&None), 0);
    // malformed key lengths fall back to zero
    assert_eq!(last_level_from_entry(&Some((vec![1, 2, 3], vec![]))), 0);
    let key = le64_encode(77);
    assert_eq!(last_level_from_entry(&Some((key, vec![]))), 77);
}

#[test]
fn test_period_from_value_cases() {
    assert_eq!(period_from_value(&None).unwrap(), None);
    let good = le64_encode(12);
    assert_eq!(period_from_value(&Some(good)).unwrap(), Some(12));
    // a value of the wrong size is a DAG error
    let err = period_from_value(&Some(vec![1, 2, 3, 4]));
    assert!(matches!(err, Err(StorageError::Dag(_))));
}

#[test]
fn test_from_name_error_variant() {
    let err = Column::from_name("no_such_column");
    assert!(matches!(err, Err(StorageError::Config(_))));
}

#[test]
fn test_compare_uint64_keys_little_endian_order() {
    // 1 < 256, although the byte strings compare the other way around
    // lexicographically: the comparator must read little-endian values.
    let one = 1u64.to_le_bytes();
    let two_fifty_six = 256u64.to_le_bytes();
    assert_eq!(compare_uint64_keys(&one, &two_fifty_six), Ordering::Less);
    assert_eq!(compare_uint64_keys(&two_fifty_six, &one), Ordering::Greater);
    assert_eq!(compare_uint64_keys(&one, &one), Ordering::Equal);
}
