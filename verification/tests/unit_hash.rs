use num_bigint::BigInt;
use num_traits::ToPrimitive;
use rustaxa_vdf::hash::{compute_precision_bound, HashToPrime};
use rustaxa_vdf::primality::is_probably_prime;

fn pow2_int(bits: u32) -> BigInt {
    BigInt::from(1u32) << bits
}

fn prime_passes(p: &BigInt, rounds: u32) -> bool {
    is_probably_prime(p.to_u64().unwrap(), rounds)
}

#[test]
fn test_compute_precision_bound_basic() {
    // Test with a reasonable lambda value
    let result = compute_precision_bound(128);

    // The result should be a positive integer (at least our fallback values)
    assert!(result > BigInt::from(0));

    // Should be at least 2^64 (our minimum fallback)
    assert!(result >= pow2_int(64));
}

#[test]
fn test_compute_precision_bound_small_lambda() {
    // Test with a small lambda value
    let result = compute_precision_bound(32);

    // Should still produce a valid result
    assert!(result > BigInt::from(0));
    assert!(result >= pow2_int(64));
}

#[test]
fn test_compute_precision_bound_large_lambda() {
    // Test with a larger lambda value
    let result = compute_precision_bound(256);

    // Should produce a valid precision bound
    assert!(result > BigInt::from(0));
    assert!(result >= pow2_int(64));
}

#[test]
fn test_compute_precision_bound_deterministic() {
    // Test that the function is deterministic - same input gives same output
    let result1 = compute_precision_bound(128);
    let result2 = compute_precision_bound(128);

    assert_eq!(result1, result2);
}

#[test]
fn test_compute_precision_bound_monotonic() {
    // Test that the function produces consistent results
    let result_small = compute_precision_bound(64);
    let result_large = compute_precision_bound(256);

    // Both should be positive
    assert!(result_small > BigInt::from(0));
    assert!(result_large > BigInt::from(0));

    // Both should be at least our minimum
    let min_bound = pow2_int(64);
    assert!(result_small >= min_bound);
    assert!(result_large >= min_bound);
}

#[test]
fn test_compute_precision_bound_zero_lambda() {
    // Test edge case with lambda=0
    let result = compute_precision_bound(0);

    // Should handle this gracefully and return a valid integer
    assert!(result > BigInt::from(0));
    assert!(result >= pow2_int(64));
}

#[test]
fn test_compute_precision_bound_edge_cases() {
    // Test with very small lambda
    let result_small = compute_precision_bound(1);
    assert!(result_small > BigInt::from(0));
    assert!(result_small >= pow2_int(64));

    // Test with large lambda value (1500 is a realistic value)
    let result_large = compute_precision_bound(1500);
    assert!(result_large > BigInt::from(0));
    assert!(result_large >= pow2_int(64));
}

#[test]
fn test_compute_precision_bound_lambda_1500() {
    // Test specifically with lambda=1500 (expected real-world value)
    let result = compute_precision_bound(1500);

    // Should compute successfully without using fallback
    assert!(result > BigInt::from(0));
    assert!(result >= pow2_int(64));

    // Should be deterministic
    let result2 = compute_precision_bound(1500);
    assert_eq!(result, result2);

    // Should be a power of 2
    let bit_count = result.magnitude().count_ones();
    assert_eq!(bit_count, 1);

    // Should be in a reasonable range
    assert!(result.bits() < 10000);
}

#[test]
fn test_precision_bound_power_of_two() {
    // Test that the result is indeed a power of 2 (when computation succeeds)
    let result = compute_precision_bound(128);

    if result > BigInt::from(0) {
        // Check if it's a power of 2 by checking if only one bit is set
        // Count the number of 1 bits - should be exactly 1 for powers of 2
        let bit_count = result.magnitude().count_ones();
        assert_eq!(
            bit_count, 1,
            "Result should be a power of 2 (have exactly 1 bit set): {}",
            result
        );
    }
}

#[test]
fn test_precision_bound_reasonable_range() {
    // Test that the precision bounds are in a reasonable range for cryptographic use
    let lambdas = [64, 128, 192, 256];

    for lambda in lambdas.iter() {
        let result = compute_precision_bound(*lambda);

        // Should be at least 2^64 (our minimum fallback)
        let min_bound = pow2_int(64);
        assert!(
            result >= min_bound,
            "Precision bound too small for lambda={}",
            lambda
        );

        // Should not be extremely large (less than 2^10000 for practical purposes)
        assert!(
            result.bits() < 10000,
            "Precision bound too large for lambda={}",
            lambda
        );
    }
}

#[test]
fn test_hash_to_prime_basic() {
    let h2p = HashToPrime::new(128);
    let input = BigInt::from(42u32);

    let result = h2p.hash_to_prime(&input);

    if let Err(ref e) = result {
        println!("Error: {}", e);
    }

    assert!(result.is_ok());

    let prime = result.unwrap();

    // Verify it's actually a probable prime
    assert!(prime_passes(&prime, 30));

    // Verify it's greater than 1
    assert!(prime > BigInt::from(1));
}

#[test]
fn test_hash_to_prime_deterministic() {
    let h2p1 = HashToPrime::new(128);
    let h2p2 = HashToPrime::new(128);
    let input = BigInt::from(1337u32);

    let result1 = h2p1.hash_to_prime(&input).unwrap();
    let result2 = h2p2.hash_to_prime(&input).unwrap();

    // Same input should produce same prime (deterministic)
    assert_eq!(result1, result2);
}

#[test]
fn test_hash_to_prime_6k_plus_minus_1_form() {
    let h2p = HashToPrime::new(128);
    let input = BigInt::from(12345u32);

    let prime = h2p.hash_to_prime(&input).unwrap();

    // The algorithm generates primes of the form 6k±1
    // So prime % 6 should be either 1 or 5 (equivalent to -1 mod 6)
    let remainder: BigInt = &prime % BigInt::from(6);
    let rem_val = remainder.to_u32().unwrap();
    assert!(
        rem_val == 1 || rem_val == 5,
        "Prime {} should be of form 6k±1, but {} % 6 = {}",
        prime,
        prime,
        rem_val
    );
}

#[test]
fn test_integer_bytes_conversion() {
    // Test integer to bytes conversion (used internally for seeding)
    let small_int = BigInt::from(255u32);
    let (_, cache) = small_int.to_bytes_be();

    // Verify we can reconstruct the integer
    let reconstructed = BigInt::from_bytes_be(num_bigint::Sign::Plus, &cache);
    assert_eq!(small_int, reconstructed);

    // Test with larger integer
    let large_int = BigInt::from(2u32).pow(100);
    let (_, cache_large) = large_int.to_bytes_be();
    let reconstructed_large = BigInt::from_bytes_be(num_bigint::Sign::Plus, &cache_large);
    assert_eq!(large_int, reconstructed_large);
}

#[test]
fn test_hashtoprime_with_lambda_1500() {
    // Test HashToPrime creation and usage with lambda=1500
    let h2p = HashToPrime::new(1500);
    let input = BigInt::from(12345u32);

    let result = h2p.hash_to_prime(&input);
    assert!(result.is_ok());

    let prime = result.unwrap();

    // Verify it's actually a probable prime
    assert!(prime_passes(&prime, 30));

    // Verify it's greater than 1
    assert!(prime > BigInt::from(1));

    // Verify it's of the form 6k±1
    let remainder: BigInt = &prime % BigInt::from(6);
    let rem_val = remainder.to_u32().unwrap();
    assert!(rem_val == 1 || rem_val == 5);
}
