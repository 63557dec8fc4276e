//! The Wesolowski prover: the sequential squaring delay, the compact proof
//! construction, and cooperative cancellation.

use vstd::prelude::*;
use vstd::arithmetic::power::pow;
use vstd::arithmetic::power2::pow2;
use crate::bigint::{
    int_add_assign, int_bits, int_clone, int_from_u64, int_ge, int_mul_assign, int_rem_assign,
    int_shl_assign, int_square_rem, int_to_u64, int_value,
};
use crate::vdf::{challenge_of, prove_result_ok, vdf_output, vdf_proof, Solution, WesolowskiVdf};
use std::sync::atomic::AtomicBool;
use std::sync::atomic::Ordering;
use std::sync::Arc;

verus! {

/// Cancellation poll period of the big-integer fallback loop.
pub const LARGE_CHECK_INTERVAL: u64 = 100000;

/// A cooperative stop signal: an atomic flag, either self-owned or shared
/// with an external canceller.  Nothing is assumed about the value a poll
/// returns: another thread may raise the flag at any moment.
pub struct CancellationToken {
    pub flag: Arc<AtomicBool>,
}

impl CancellationToken {
    /// A fresh, unsignalled token.
    pub fn new() -> CancellationToken {
        CancellationToken { flag: Arc::new(AtomicBool::new(false)) }
    }

    /// A token acting through a flag owned elsewhere.
    pub fn from_atomic_ptr(flag: Arc<AtomicBool>) -> (r: CancellationToken)
        ensures
            r.flag == flag,
    {
        CancellationToken { flag }
    }

    /// Signals cancellation to any listening operation.
    pub fn cancel(&self) {
        self.flag.store(true, Ordering::Release);
    }

    /// Polls the flag without blocking.
    pub fn is_cancelled(&self) -> bool {
        self.flag.load(Ordering::Acquire)
    }
}

/// One squaring step: `(v % n)` squared and reduced again equals the next
/// power-tower value.
proof fn lemma_square_step(x: int, n: int, k: nat)
    requires
        n >= 1,
    ensures
        ((pow(x, pow2(k)) % n) * (pow(x, pow2(k)) % n)) % n == pow(x, pow2((k + 1) as nat)) % n,
{
    vstd::arithmetic::div_mod::lemma_mul_mod_noop_general(pow(x, pow2(k)), pow(x, pow2(k)), n);
    vstd::arithmetic::power::lemma_pow_adds(x, pow2(k), pow2(k));
    vstd::arithmetic::power2::lemma_pow2_unfold((k + 1) as nat);
}

/// Doubling a remainder: quotient and remainder of `2a` by `p` from those of
/// `a`.
proof fn lemma_div_mod_doubling(a: int, p: int)
    requires
        p >= 1,
        a >= 0,
    ensures
        2 * (a % p) >= p ==> (2 * a) / p == 2 * (a / p) + 1 && (2 * a) % p == 2 * (a % p) - p,
        2 * (a % p) < p ==> (2 * a) / p == 2 * (a / p) && (2 * a) % p == 2 * (a % p),
{
    vstd::arithmetic::div_mod::lemma_fundamental_div_mod(a, p);
    vstd::arithmetic::div_mod::lemma_mod_bound(a, p);
    let q = a / p;
    let r = a % p;
    assert(2 * a == p * (2 * q) + 2 * r) by (nonlinear_arith)
        requires
            a == p * q + r,
    ;
    if 2 * r >= p {
        assert(2 * a == p * (2 * q + 1) + (2 * r - p)) by (nonlinear_arith)
            requires
                2 * a == p * (2 * q) + 2 * r,
        ;
        vstd::arithmetic::div_mod::lemma_fundamental_div_mod_converse(
            2 * a,
            p,
            2 * q + 1,
            2 * r - p,
        );
    } else {
        vstd::arithmetic::div_mod::lemma_fundamental_div_mod_converse(2 * a, p, 2 * q, 2 * r);
    }
}

/// One step of the proof-construction pass: squares the accumulator, doubles
/// the remainder, and multiplies the base in when the remainder wraps.  After
/// the step both track the next power of two.
fn proof_step(
    pi: &mut num_bigint::BigInt,
    r_rem: &mut u64,
    base: &num_bigint::BigInt,
    modulus: &num_bigint::BigInt,
    p64: u64,
    Ghost(e): Ghost<nat>,
)
    requires
        2 <= p64 <= 0xFFFF_FFF7,
        int_value(*modulus) >= 1,
        0 <= int_value(*base) < int_value(*modulus),
        *old(r_rem) < p64,
        *old(r_rem) as int == (pow2(e) as int) % (p64 as int),
        int_value(*old(pi)) == pow(
            int_value(*base),
            ((pow2(e) as int) / (p64 as int)) as nat,
        ) % int_value(*modulus),
        int_value(*old(pi)) >= 0,
    ensures
        *final(r_rem) < p64,
        *final(r_rem) as int == (pow2((e + 1) as nat) as int) % (p64 as int),
        int_value(*final(pi)) == pow(
            int_value(*base),
            ((pow2((e + 1) as nat) as int) / (p64 as int)) as nat,
        ) % int_value(*modulus),
        int_value(*final(pi)) >= 0,
{
    let ghost n = int_value(*modulus);
    let ghost x = int_value(*base);
    let ghost cap = pow2(e) as int;
    let ghost q = cap / (p64 as int);
    let ghost r0 = cap % (p64 as int);
    proof {
        vstd::arithmetic::power2::lemma_pow2_pos(e);
        vstd::arithmetic::div_mod::lemma_div_pos_is_pos(cap, p64 as int);
        lemma_div_mod_doubling(cap, p64 as int);
        vstd::arithmetic::power2::lemma_pow2_unfold((e + 1) as nat);
    }
    int_square_rem(pi, modulus);
    proof {
        // pi is now pow(x, 2q) % n
        vstd::arithmetic::div_mod::lemma_mul_mod_noop_general(pow(x, q as nat), pow(x, q as nat), n);
        vstd::arithmetic::power::lemma_pow_adds(x, q as nat, q as nat);
    }
    proof {
        assert(pow2((e + 1) as nat) as int == 2 * cap);
    }
    let r2 = 2 * *r_rem;
    if r2 >= p64 {
        *r_rem = r2 - p64;
        proof {
            assert(2 * r0 >= p64 as int);
            assert(*r_rem as int == 2 * r0 - p64 as int);
            assert((2 * cap) % (p64 as int) == 2 * r0 - p64 as int);
        }
        let ghost pi1 = int_value(*pi);
        int_mul_assign(pi, base);
        proof {
            vstd::arithmetic::div_mod::lemma_mod_bound(pow(x, (2 * q) as nat), n);
            vstd::arithmetic::mul::lemma_mul_nonnegative(pi1, x);
        }
        int_rem_assign(pi, modulus);
        proof {
            vstd::arithmetic::div_mod::lemma_mul_mod_noop_left(pow(x, (2 * q) as nat), x, n);
            vstd::arithmetic::power::lemma_pow1(x);
            vstd::arithmetic::power::lemma_pow_adds(x, (2 * q) as nat, 1);
            assert((2 * q + 1) as nat == ((pow2((e + 1) as nat) as int) / (p64 as int)) as nat);
            vstd::arithmetic::div_mod::lemma_mod_bound(pow(x, (2 * q + 1) as nat), n);
        }
    } else {
        *r_rem = r2;
        proof {
            assert(2 * r0 < p64 as int);
            assert((2 * cap) % (p64 as int) == 2 * r0);
            assert((2 * q) as nat == ((pow2((e + 1) as nat) as int) / (p64 as int)) as nat);
            vstd::arithmetic::div_mod::lemma_mod_bound(pow(x, (2 * q) as nat), n);
        }
    }
}

/// Produces a compact proof/output pair for a VDF instance.
pub struct WesolowskiProver<'a> {
    pub vdf: &'a WesolowskiVdf,
}

impl<'a> WesolowskiProver<'a> {
    /// A prover over a borrowed VDF instance.
    pub fn new(vdf: &'a WesolowskiVdf) -> (r: WesolowskiProver<'a>)
        ensures
            r.vdf == vdf,
    {
        WesolowskiProver { vdf }
    }

    /// Runs the delay and builds the solution.  Whatever the polls of the
    /// cancellation token return, the result is either the empty pair or the
    /// encoding of the unique proof and output of this instance; a run whose
    /// polls all come back false and whose challenge exists returns the
    /// latter.  When no challenge prime is found the result is empty.
    #[verifier::rlimit(60)]
    pub fn prove(&self, cancelled: &CancellationToken) -> (r: Solution)
        requires
            self.vdf.wf(),
        ensures
            r.is_empty_pair() || prove_result_ok(
                self.vdf.base_val(),
                self.vdf.modulus_val(),
                self.vdf.iterations_val() as nat,
                r.first@,
                r.second@,
            ),
            challenge_of(
                self.vdf.base_val(),
                self.vdf.modulus_val(),
                vdf_output(
                    self.vdf.base_val(),
                    self.vdf.modulus_val(),
                    self.vdf.iterations_val() as nat,
                ),
            ) is None ==> r.is_empty_pair(),
    {
        let modulus = self.vdf.modulus();
        let base = self.vdf.base();
        let iterations = self.vdf.iterations();
        let ghost n = self.vdf.modulus_val();
        let ghost x = self.vdf.base_val();
        let ghost t = self.vdf.iterations_val() as nat;

        let iterations_u64 = match int_to_u64(iterations) {
            Some(v) => v,
            None => {
                return self.prove_large_iterations(cancelled);
            },
        };

        // T fits the native width, so time_bits is at most 63 and the loop
        // counter below cannot wrap.
        proof {
            let tb = self.vdf.puzzle.time_bits as nat;
            if tb >= 64 {
                if tb > 64 {
                    vstd::arithmetic::power2::lemma_pow2_strictly_increases(64, tb);
                }
                vstd::arithmetic::power2::lemma2_to64_rest();
                assert(false);
            }
            if tb < 63 {
                vstd::arithmetic::power2::lemma_pow2_strictly_increases(tb, 63);
            }
            vstd::arithmetic::power2::lemma2_to64_rest();
            assert(iterations_u64 <= 0x8000_0000_0000_0000);
        }

        // Cancellation is polled every `check_interval` squarings.
        let q0 = iterations_u64 / 100;
        let check_interval: u64 = if q0 < 1 {
            1
        } else if q0 > 10000 {
            10000
        } else {
            q0
        };

        // First pass: y = x^(2^T) mod N by T sequential squarings.
        let mut y = int_clone(base);
        proof {
            vstd::arithmetic::power::lemma_pow1(x);
            vstd::arithmetic::power2::lemma2_to64();
            vstd::arithmetic::div_mod::lemma_small_mod(x as nat, n as nat);
        }
        let mut i: u64 = 1;
        while i <= iterations_u64
            invariant
                1 <= i <= iterations_u64 + 1,
                iterations_u64 <= 0x8000_0000_0000_0000,
                check_interval >= 1,
                n >= 1,
                0 <= x < n,
                int_value(*modulus) == n,
                int_value(*base) == x,
                int_value(y) == pow(x, pow2((i - 1) as nat)) % n,
                int_value(y) >= 0,
            decreases iterations_u64 + 1 - i,
        {
            if i % check_interval == 0 && cancelled.is_cancelled() {
                return Solution { first: Vec::new(), second: Vec::new() };
            }
            proof {
                lemma_square_step(x, n, (i - 1) as nat);
                vstd::arithmetic::div_mod::lemma_mod_bound(pow(x, pow2(i as nat)), n);
            }
            int_square_rem(&mut y, modulus);
            i = i + 1;
        }
        assert(int_value(y) == vdf_output(x, n, iterations_u64 as nat));
        assert(iterations_u64 as nat == t);

        // The challenge prime p = HashToPrime(x * 2^bitlen(N) + y).
        let bits = int_bits(modulus);
        let mut xy = int_clone(base);
        int_shl_assign(&mut xy, bits);
        int_add_assign(&mut xy, &y);
        let p = match self.vdf.hash_to_prime(&xy) {
            Ok(p) => p,
            Err(_) => {
                return Solution { first: Vec::new(), second: Vec::new() };
            },
        };
        let p64 = match int_to_u64(&p) {
            Some(v) => v,
            None => {
                proof {
                    assert(false);
                }
                return Solution { first: Vec::new(), second: Vec::new() };
            },
        };
        assert(challenge_of(x, n, vdf_output(x, n, t)) == Some(p64 as int));

        // Second pass: pi = x^floor(2^T / p) mod N, tracking the remainder.
        let mut r_rem: u64 = 1;
        let mut pi = int_from_u64(1);
        int_rem_assign(&mut pi, modulus);
        proof {
            vstd::arithmetic::power2::lemma2_to64();
            vstd::arithmetic::div_mod::lemma_small_mod(1nat, p64 as nat);
            vstd::arithmetic::div_mod::lemma_basic_div(1, p64 as int);
            vstd::arithmetic::power::lemma_pow0(x);
        }
        let mut i: u64 = 1;
        while i <= iterations_u64
            invariant
                1 <= i <= iterations_u64 + 1,
                iterations_u64 <= 0x8000_0000_0000_0000,
                check_interval >= 1,
                n >= 1,
                0 <= x < n,
                2 <= p64 <= 0xFFFF_FFF7,
                int_value(*modulus) == n,
                int_value(*base) == x,
                r_rem < p64,
                r_rem as int == (pow2((i - 1) as nat) as int) % (p64 as int),
                int_value(pi) == pow(x, ((pow2((i - 1) as nat) as int) / (p64 as int)) as nat) % n,
                int_value(pi) >= 0,
            decreases iterations_u64 + 1 - i,
        {
            if i % check_interval == 0 && cancelled.is_cancelled() {
                return Solution { first: Vec::new(), second: Vec::new() };
            }
            proof_step(&mut pi, &mut r_rem, base, modulus, p64, Ghost((i - 1) as nat));
            i = i + 1;
        }
        assert(int_value(pi) == vdf_proof(x, n, p64 as int, t));

        let pi_bytes = crate::bigint::int_encode_be(&pi);
        let y_bytes = crate::bigint::int_encode_be(&y);
        Solution { first: pi_bytes, second: y_bytes }
    }

    /// The same construction under a big-integer loop counter, for iteration
    /// counts that do not fit the native width, polling cancellation at a
    /// fixed period.
    #[verifier::rlimit(60)]
    fn prove_large_iterations(&self, cancelled: &CancellationToken) -> (r: Solution)
        requires
            self.vdf.wf(),
        ensures
            r.is_empty_pair() || prove_result_ok(
                self.vdf.base_val(),
                self.vdf.modulus_val(),
                self.vdf.iterations_val() as nat,
                r.first@,
                r.second@,
            ),
            challenge_of(
                self.vdf.base_val(),
                self.vdf.modulus_val(),
                vdf_output(
                    self.vdf.base_val(),
                    self.vdf.modulus_val(),
                    self.vdf.iterations_val() as nat,
                ),
            ) is None ==> r.is_empty_pair(),
    {
        let modulus = self.vdf.modulus();
        let base = self.vdf.base();
        let iterations = self.vdf.iterations();
        let ghost n = self.vdf.modulus_val();
        let ghost x = self.vdf.base_val();
        let ghost t = self.vdf.iterations_val() as nat;
        let one = int_from_u64(1);

        let mut y = int_clone(base);
        proof {
            vstd::arithmetic::power::lemma_pow1(x);
            vstd::arithmetic::power2::lemma2_to64();
            vstd::arithmetic::div_mod::lemma_small_mod(x as nat, n as nat);
        }
        let mut current = int_from_u64(1);
        let mut check_counter: u64 = 0;
        while int_ge(iterations, &current)
            invariant
                1 <= int_value(current) <= int_value(*iterations) + 1,
                int_value(*iterations) == t,
                n >= 1,
                0 <= x < n,
                int_value(*modulus) == n,
                int_value(*base) == x,
                int_value(one) == 1,
                int_value(y) == pow(x, pow2((int_value(current) - 1) as nat)) % n,
                int_value(y) >= 0,
                check_counter <= LARGE_CHECK_INTERVAL,
            decreases int_value(*iterations) + 1 - int_value(current),
        {
            check_counter = check_counter + 1;
            if check_counter >= LARGE_CHECK_INTERVAL {
                check_counter = 0;
                if cancelled.is_cancelled() {
                    return Solution { first: Vec::new(), second: Vec::new() };
                }
            }
            proof {
                lemma_square_step(x, n, (int_value(current) - 1) as nat);
                vstd::arithmetic::div_mod::lemma_mod_bound(
                    pow(x, pow2(int_value(current) as nat)),
                    n,
                );
            }
            int_square_rem(&mut y, modulus);
            int_add_assign(&mut current, &one);
        }
        assert(int_value(y) == vdf_output(x, n, t));

        let bits = int_bits(modulus);
        let mut xy = int_clone(base);
        int_shl_assign(&mut xy, bits);
        int_add_assign(&mut xy, &y);
        let p = match self.vdf.hash_to_prime(&xy) {
            Ok(p) => p,
            Err(_) => {
                return Solution { first: Vec::new(), second: Vec::new() };
            },
        };
        let p64 = match int_to_u64(&p) {
            Some(v) => v,
            None => {
                proof {
                    assert(false);
                }
                return Solution { first: Vec::new(), second: Vec::new() };
            },
        };
        assert(challenge_of(x, n, vdf_output(x, n, t)) == Some(p64 as int));

        let mut r_rem: u64 = 1;
        let mut pi = int_from_u64(1);
        int_rem_assign(&mut pi, modulus);
        proof {
            vstd::arithmetic::power2::lemma2_to64();
            vstd::arithmetic::div_mod::lemma_small_mod(1nat, p64 as nat);
            vstd::arithmetic::div_mod::lemma_basic_div(1, p64 as int);
            vstd::arithmetic::power::lemma_pow0(x);
        }
        let mut current = int_from_u64(1);
        check_counter = 0;
        while int_ge(iterations, &current)
            invariant
                1 <= int_value(current) <= int_value(*iterations) + 1,
                int_value(*iterations) == t,
                n >= 1,
                0 <= x < n,
                2 <= p64 <= 0xFFFF_FFF7,
                int_value(*modulus) == n,
                int_value(*base) == x,
                int_value(one) == 1,
                r_rem < p64,
                r_rem as int == (pow2((int_value(current) - 1) as nat) as int) % (p64 as int),
                int_value(pi) == pow(
                    x,
                    ((pow2((int_value(current) - 1) as nat) as int) / (p64 as int)) as nat,
                ) % n,
                int_value(pi) >= 0,
                check_counter <= LARGE_CHECK_INTERVAL,
            decreases int_value(*iterations) + 1 - int_value(current),
        {
            check_counter = check_counter + 1;
            if check_counter >= LARGE_CHECK_INTERVAL {
                check_counter = 0;
                if cancelled.is_cancelled() {
                    return Solution { first: Vec::new(), second: Vec::new() };
                }
            }
            proof_step(
                &mut pi,
                &mut r_rem,
                base,
                modulus,
                p64,
                Ghost((int_value(current) - 1) as nat),
            );
            int_add_assign(&mut current, &one);
        }
        assert(int_value(pi) == vdf_proof(x, n, p64 as int, t));

        let pi_bytes = crate::bigint::int_encode_be(&pi);
        let y_bytes = crate::bigint::int_encode_be(&y);
        Solution { first: pi_bytes, second: y_bytes }
    }
}

} // verus!
