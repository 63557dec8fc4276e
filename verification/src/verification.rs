//! The Wesolowski verifier: checks a claimed proof/output pair in time
//! independent of the delay, and the round-trip law that makes a proven
//! solution verify.

use vstd::prelude::*;
use vstd::arithmetic::power::pow;
use vstd::arithmetic::power2::pow2;
use crate::bigint::{
    be_value, int_add_assign, int_bits, int_clone, int_eq, int_from_digits_be, int_from_u64,
    int_ge, int_is_zero, int_modpow, int_mul_assign, int_rem_assign, int_shl_assign, int_value,
    lemma_be_value_nonneg,
};
use crate::vdf::{accepts, challenge_of, prove_result_ok, vdf_output, vdf_proof, Solution,
    WesolowskiVdf};

verus! {

/// Checks solutions against a borrowed VDF instance.
pub struct WesolowskiVerifier<'a> {
    pub vdf: &'a WesolowskiVdf,
}

impl<'a> WesolowskiVerifier<'a> {
    /// A verifier over a borrowed VDF instance.
    pub fn new(vdf: &'a WesolowskiVdf) -> (r: WesolowskiVerifier<'a>)
        ensures
            r.vdf == vdf,
    {
        WesolowskiVerifier { vdf }
    }

    /// Decodes the pair, rejects values of zero or outside the modulus,
    /// recomputes the challenge prime, and accepts exactly when
    /// `x^r * pi^p == y (mod N)` with `r = 2^T mod p`.  Malformed input never
    /// raises: it returns false.
    pub fn verify(&self, solution: &Solution) -> (r: bool)
        requires
            self.vdf.wf(),
        ensures
            r == accepts(
                self.vdf.base_val(),
                self.vdf.modulus_val(),
                self.vdf.iterations_val() as nat,
                solution.first@,
                solution.second@,
            ),
    {
        let ghost x = self.vdf.base_val();
        let ghost n = self.vdf.modulus_val();
        let ghost t = self.vdf.iterations_val() as nat;
        let modulus = self.vdf.modulus();
        let base = self.vdf.base();
        let iterations = self.vdf.iterations();

        let pi = int_from_digits_be(solution.first.as_slice());
        let sigma = int_from_digits_be(solution.second.as_slice());
        proof {
            lemma_be_value_nonneg(solution.first@);
            lemma_be_value_nonneg(solution.second@);
        }

        if int_is_zero(&sigma) || int_is_zero(&pi) || int_ge(&sigma, modulus) || int_ge(
            &pi,
            modulus,
        ) {
            return false;
        }

        // The challenge prime p = HashToPrime(x * 2^bitlen(N) + y).
        let bits = int_bits(modulus);
        let mut xy = int_clone(base);
        int_shl_assign(&mut xy, bits);
        int_add_assign(&mut xy, &sigma);
        let p = match self.vdf.hash_to_prime(&xy) {
            Ok(p) => p,
            Err(_) => {
                return false;
            },
        };

        // r = 2^T mod p
        let two = int_from_u64(2);
        let r_exp = int_modpow(&two, iterations, &p);
        proof {
            vstd::arithmetic::div_mod::lemma_mod_bound(pow(2, t), int_value(p));
        }

        // candidate = (x^r mod N) * (pi^p mod N) mod N
        let x_r = int_modpow(base, &r_exp, modulus);
        let pi_p = int_modpow(&pi, &p, modulus);
        proof {
            vstd::arithmetic::div_mod::lemma_mod_bound(pow(x, int_value(r_exp) as nat), n);
            vstd::arithmetic::div_mod::lemma_mod_bound(pow(int_value(pi), int_value(p) as nat), n);
            vstd::arithmetic::mul::lemma_mul_nonnegative(int_value(x_r), int_value(pi_p));
        }
        let mut h = x_r;
        int_mul_assign(&mut h, &pi_p);
        int_rem_assign(&mut h, modulus);

        int_eq(&sigma, &h)
    }
}

/// A solution produced by a completed proving run verifies, provided the
/// decoded values pass the range checks: the output and the proof are not
/// zero.  (A base of zero, for one, makes the output zero and is rejected.)
pub proof fn lemma_prove_verify_round_trip(
    x: int,
    n: int,
    t: nat,
    first: Seq<u8>,
    second: Seq<u8>,
)
    requires
        n >= 1,
        0 <= x < n,
        prove_result_ok(x, n, t, first, second),
        be_value(first) != 0,
        be_value(second) != 0,
    ensures
        accepts(x, n, t, first, second),
{
    let y = vdf_output(x, n, t);
    let p = challenge_of(x, n, y)->Some_0;
    crate::hash::lemma_search_bounds(
        crate::hash::seed_u64_of(x * pow2(crate::bigint::bitlen(n as nat)) + y),
        crate::hash::MAX_ITER as nat,
    );
    assert(2 <= p);
    let cap = pow2(t) as int;
    let q = cap / p;
    let r = cap % p;
    vstd::arithmetic::power2::lemma_pow2_pos(t);
    vstd::arithmetic::div_mod::lemma_mod_bound(cap, p);
    vstd::arithmetic::div_mod::lemma_div_pos_is_pos(cap, p);
    vstd::arithmetic::div_mod::lemma_mod_bound(pow(x, pow2(t)), n);
    vstd::arithmetic::div_mod::lemma_mod_bound(pow(x, q as nat), n);

    // the verifier's exponent 2^T mod p is the prover's final remainder
    vstd::arithmetic::power2::lemma_pow2(t);

    // pi^p mod n == x^(q*p) mod n
    let pi = be_value(first);
    assert(pi == vdf_proof(x, n, p, t));
    vstd::arithmetic::power::lemma_pow_mod_noop(pow(x, q as nat), p as nat, n);
    vstd::arithmetic::power::lemma_pow_multiplies(x, q as nat, p as nat);

    // (x^r mod n) * (x^(q*p) mod n) mod n == x^(q*p + r) mod n == y
    vstd::arithmetic::div_mod::lemma_mul_mod_noop_general(
        pow(x, r as nat),
        pow(x, (q * p) as nat),
        n,
    );
    vstd::arithmetic::power::lemma_pow_adds(x, r as nat, (q * p) as nat);
    vstd::arithmetic::div_mod::lemma_fundamental_div_mod(cap, p);
    assert((r + q * p) as nat == pow2(t)) by (nonlinear_arith)
        requires
            cap == p * q + r,
            cap == pow2(t),
            r >= 0,
            q >= 0,
            p >= 2,
    ;
    assert(((pow(x, r as nat) % n) * (pow(pi, p as nat) % n)) % n == y);
}

/// Degenerate inputs are rejected outright: a zero field, or a field whose
/// value reaches the modulus, never verifies.
pub proof fn lemma_verify_rejects_degenerate(
    x: int,
    n: int,
    t: nat,
    first: Seq<u8>,
    second: Seq<u8>,
)
    requires
        be_value(first) == 0 || be_value(second) == 0 || be_value(first) >= n || be_value(second)
            >= n,
    ensures
        !accepts(x, n, t, first, second),
{
}

} // verus!
