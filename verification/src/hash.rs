//! Deterministic hash-to-prime.
//!
//! A `HashToPrime` instance carries a search bound derived from the security
//! parameter `lambda` by a Lambert-W estimate computed in extended-precision
//! floating point.  `hash_to_prime` then maps an integer to a probable prime
//! of the form `6k ± 1`: it seeds a deterministic generator from the input,
//! draws candidates, and accepts the first one that passes a 30-round
//! probabilistic primality test.  The whole search is a mathematical function
//! of the input, stated by `hash_prime_outcome`.

use vstd::prelude::*;
use vstd::arithmetic::power2::pow2;
use crate::bigfloat::{
    consts_new, f_abs, f_add, f_ceil, f_div, f_exp, f_from_u64, f_gt, f_is_inf, f_is_nan,
    f_is_positive, f_is_zero, f_le, f_ln, f_lt, f_mul, f_neg, f_powi, f_recip, f_sub,
};
use crate::bigint::{
    bitlen, int_add_assign, int_bits, int_div_u32, int_from_u64, int_ge, int_is_zero, int_rem,
    int_shl_assign, int_to_u64, int_value, trunc_rem,
};
use crate::primality::{is_probably_prime, probable_prime_spec};
use crate::prng::{mix_output, mix_state, SplitMix64};

verus! {

/// Cap on the number of candidates drawn by one search.
pub const MAX_ITER: u32 = 10000;

/// Rounds of the probabilistic primality test.
pub const MAX_MILLER_RABIN: u32 = 30;

/// Smallest accepted precision bound, in bits.
pub const MIN_PRECISION_BITS: u32 = 64;

/// Largest accepted precision bound, in bits.
pub const MAX_PRECISION_BITS: u32 = 8192;

/// A large prime just below `2^64`, used to reduce the seed.
pub const SEED_MODULUS: u64 = 0xFFFF_FFFF_FFFF_FFC5;

/// Candidates are drawn below this value and mapped to `6k ± 1`.
pub const PRACTICAL_MAX: u64 = 715827882;

/// The seed of the candidate generator for a given input value: the input
/// reduced modulo a large prime, taken into `[0, 2^64)`, or 1 for zero.
pub open spec fn seed_u64_of(input: int) -> u64 {
    if input == 0 {
        1u64
    } else {
        let t = trunc_rem(input, SEED_MODULUS as int);
        if t < 0 {
            (t + SEED_MODULUS) as u64
        } else {
            t as u64
        }
    }
}

/// The first accepted candidate within `tries` further draws, starting from
/// generator state `state`; `None` when the budget runs out.
pub open spec fn search_from(state: u64, tries: nat) -> Option<int>
    decreases tries,
{
    if tries == 0 {
        None
    } else {
        let s1 = mix_state(state);
        let c = (mix_output(s1) % PRACTICAL_MAX) as int;
        let s2 = mix_state(s1);
        let sb = mix_output(s2) % 2;
        let cand = if sb == 1 {
            6 * c + 1
        } else {
            6 * c - 1
        };
        if cand >= 2 && probable_prime_spec(cand as u64, MAX_MILLER_RABIN) {
            Some(cand)
        } else {
            search_from(s2, (tries - 1) as nat)
        }
    }
}

/// What `hash_to_prime` returns on a given input value.
pub open spec fn hash_prime_outcome(input: int) -> Option<int> {
    search_from(seed_u64_of(input), MAX_ITER as nat)
}

/// A successful search yields a value between 2 and `6 * (PRACTICAL_MAX - 1) + 1`.
pub proof fn lemma_search_bounds(state: u64, tries: nat)
    ensures
        search_from(state, tries) matches Some(v) ==> 2 <= v <= 0xFFFF_FFF7,
    decreases tries,
{
    if tries > 0 {
        let s1 = mix_state(state);
        let s2 = mix_state(s1);
        lemma_search_bounds(s2, (tries - 1) as nat);
    }
}

/// Identical inputs give identical hash-to-prime outcomes: the outcome is a
/// function of the input value alone.
pub proof fn lemma_hash_to_prime_deterministic(input: int, a: Option<int>, b: Option<int>)
    requires
        a == hash_prime_outcome(input),
        b == hash_prime_outcome(input),
    ensures
        a == b,
{
}

/// `v >= 2^k` needs more than `k` bits.
proof fn lemma_bitlen_lower(v: nat, k: nat)
    requires
        v >= pow2(k),
    ensures
        bitlen(v) >= k + 1,
    decreases k,
{
    vstd::arithmetic::power2::lemma_pow2_pos(k);
    if k == 0 {
    } else {
        vstd::arithmetic::power2::lemma_pow2_unfold(k);
        assert(v / 2 >= pow2((k - 1) as nat)) by {
            vstd::arithmetic::div_mod::lemma_div_is_ordered(
                pow2(k) as int,
                v as int,
                2,
            );
            vstd::arithmetic::div_mod::lemma_div_multiples_vanish(
                pow2((k - 1) as nat) as int,
                2,
            );
        };
        lemma_bitlen_lower(v / 2, (k - 1) as nat);
    }
}

/// A bound of `2^b / 6` with `b >= 64` spans at least 62 bits.
proof fn lemma_bound_bits(b: int, v: int)
    requires
        64 <= b <= 8192,
        v == pow2(b as nat) as int / 6,
    ensures
        bitlen(v as nat) >= 62,
{
    vstd::arithmetic::power2::lemma_pow2_adds((b - 3) as nat, 3);
    vstd::arithmetic::power2::lemma_pow2_pos((b - 3) as nat);
    assert(pow2(3) == 8) by {
        vstd::arithmetic::power2::lemma2_to64();
    };
    let x = pow2((b - 3) as nat) as int;
    assert(pow2(b as nat) == x * 8);
    assert((x * 8) / 6 >= (x * 8) / 8) by {
        vstd::arithmetic::div_mod::lemma_div_is_ordered_by_denominator(x * 8, 6, 8);
        vstd::arithmetic::mul::lemma_mul_nonnegative(x, 8);
    };
    assert((x * 8) / 8 == x) by {
        vstd::arithmetic::div_mod::lemma_div_multiples_vanish(x, 8);
        vstd::arithmetic::mul::lemma_mul_is_commutative(x, 8);
    };
    assert(v >= x);
    assert(pow2(61) <= x) by {
        if b > 64 {
            vstd::arithmetic::power2::lemma_pow2_strictly_increases(61, (b - 3) as nat);
        }
    };
    lemma_bitlen_lower(v as nat, 61);
}

/// Hash-to-prime, with its candidate search bound.
pub struct HashToPrime {
    pub max_int: num_bigint::BigInt,
}

impl HashToPrime {
    /// The bound is a power of two between `2^64` and `2^8192`, divided by
    /// six: only values mapped to the form `6k ± 1` are drawn.
    pub open spec fn wf(&self) -> bool {
        exists|b: int|
            64 <= b <= 8192 && int_value(self.max_int) == (#[trigger] pow2(b as nat)) as int / 6
    }

    /// Builds the instance for `lambda`, computing its precision bound.
    pub fn new(lambda: u32) -> (r: HashToPrime)
        ensures
            r.wf(),
    {
        let bound = compute_precision_bound(lambda);
        let ghost b = choose|b: int|
            64 <= b <= 8192 && int_value(bound) == (#[trigger] pow2(b as nat)) as int;
        proof {
            vstd::arithmetic::power2::lemma_pow2_pos(b as nat);
        }
        let max_int = int_div_u32(bound, 6);
        let r = HashToPrime { max_int };
        proof {
            assert(64 <= b <= 8192 && int_value(r.max_int) == pow2(b as nat) as int / 6);
        }
        r
    }

    /// Builds the instance for `lambda`, consulting the given cache first.
    pub fn new_with_cache(lambda: u32, cache: &mut PrecisionCache) -> (r: HashToPrime)
        requires
            old(cache).wf(),
        ensures
            r.wf(),
            final(cache).wf(),
    {
        let bits = cache.bound_bits(lambda);
        let mut bound = int_from_u64(1);
        int_shl_assign(&mut bound, bits as u64);
        proof {
            vstd::arithmetic::power2::lemma_pow2_pos(bits as nat);
        }
        let max_int = int_div_u32(bound, 6);
        let r = HashToPrime { max_int };
        proof {
            let bb: int = bits as int;
            assert(64 <= bb <= 8192 && int_value(r.max_int) == pow2(bb as nat) as int / 6);
        }
        r
    }

    /// The search bound.
    pub fn max_int(&self) -> (r: &num_bigint::BigInt)
        ensures
            int_value(*r) == int_value(self.max_int),
    {
        &self.max_int
    }

    /// Maps `input` to a probable prime of the form `6k ± 1`, or reports that
    /// the candidate budget ran out.  The result is `hash_prime_outcome` of
    /// the input value: identical inputs always give identical results.
    pub fn hash_to_prime(&self, input: &num_bigint::BigInt) -> (r: Result<
        num_bigint::BigInt,
        String,
    >)
        requires
            self.wf(),
        ensures
            match r {
                Ok(p) => {
                    &&& hash_prime_outcome(int_value(*input)) == Some(int_value(p))
                    &&& 2 <= int_value(p) <= 0xFFFF_FFF7
                    &&& int_value(p) % 6 == 1 || int_value(p) % 6 == 5
                    &&& probable_prime_spec(int_value(p) as u64, MAX_MILLER_RABIN)
                },
                Err(e) => {
                    &&& hash_prime_outcome(int_value(*input)) == None::<int>
                    &&& e@ == "Prime not found within 10000 iterations for practical_bits=32"@
                },
            },
    {
        // The bound always spans more than 32 bits, so the candidate range is
        // the fixed 32-bit one.
        let mib = int_bits(&self.max_int);
        proof {
            let b = choose|b: int|
                64 <= b <= 8192 && int_value(self.max_int) == (#[trigger] pow2(b as nat)) as int / 6;
            lemma_bound_bits(b, int_value(self.max_int));
        }
        let practical_bits: u32 = if mib < 32 {
            mib as u32
        } else {
            32
        };
        assert(practical_bits == 32);
        let practical_max: u64 = (1u64 << practical_bits) / 6;
        proof {
            assert(1u64 << 32u32 == 0x1_0000_0000) by (bit_vector);
        }
        assert(practical_max == PRACTICAL_MAX);

        // Seed the generator from the input value alone.
        let su: u64;
        if int_is_zero(input) {
            su = 1;
        } else {
            let pbig = int_from_u64(SEED_MODULUS);
            let zero = int_from_u64(0);
            let mut s = int_rem(input, &pbig);
            proof {
                vstd::arithmetic::div_mod::lemma_mod_bound(int_value(*input), SEED_MODULUS as int);
                vstd::arithmetic::div_mod::lemma_mod_bound(-int_value(*input), SEED_MODULUS as int);
            }
            if !int_ge(&s, &zero) {
                int_add_assign(&mut s, &pbig);
            }
            match int_to_u64(&s) {
                Some(v) => {
                    su = v;
                },
                None => {
                    proof {
                        assert(false);
                    }
                    su = 0;
                },
            }
        }
        assert(su == seed_u64_of(int_value(*input)));

        let ghost s0 = su;
        let mut gen = SplitMix64::new(su);
        let mut count: u32 = 0;
        let mut found: Option<u64> = None;
        while found.is_none() && count < MAX_ITER
            invariant
                count <= MAX_ITER,
                practical_max == PRACTICAL_MAX,
                found matches None ==> search_from(s0, MAX_ITER as nat) == search_from(
                    gen.state,
                    (MAX_ITER - count) as nat,
                ),
                found matches Some(p) ==> {
                    &&& search_from(s0, MAX_ITER as nat) == Some(p as int)
                    &&& 2 <= p <= 0xFFFF_FFF7
                    &&& p % 6 == 1 || p % 6 == 5
                    &&& probable_prime_spec(p, MAX_MILLER_RABIN)
                },
            decreases MAX_ITER - count,
        {
            let ghost st = gen.state;
            let c = gen.next_u64() % practical_max;
            let sb = gen.next_u64() % 2;
            if c >= 1 {
                let cand: u64 = if sb == 1 {
                    6 * c + 1
                } else {
                    6 * c - 1
                };
                proof {
                    if sb == 1 {
                        assert(cand % 6 == 1) by {
                            vstd::arithmetic::div_mod::lemma_mod_multiples_vanish(
                                c as int,
                                1,
                                6,
                            );
                        };
                    } else {
                        assert(cand as int == 6 * (c - 1) + 5);
                        assert(cand % 6 == 5) by {
                            vstd::arithmetic::div_mod::lemma_mod_multiples_vanish(
                                c as int - 1,
                                5,
                                6,
                            );
                        };
                    }
                }
                if is_probably_prime(cand, MAX_MILLER_RABIN) {
                    found = Some(cand);
                }
            }
            count = count + 1;
        }
        match found {
            Some(p) => Ok(int_from_u64(p)),
            None => Err("Prime not found within 10000 iterations for practical_bits=32".to_owned()),
        }
    }
}

/// An explicit cache of precision bounds by `lambda`.  The process-wide
/// instance, if one is wanted, lives with the embedder; contention or misses
/// only cost recomputation, never correctness.
pub struct PrecisionCache {
    pub entries: Vec<(u32, u32)>,
}

impl PrecisionCache {
    /// Every cached bound is within the accepted range.
    pub open spec fn wf(&self) -> bool {
        forall|i: int|
            0 <= i < self.entries@.len() ==> 64 <= #[trigger] self.entries@[i].1 <= 8192
    }

    /// An empty cache.
    pub fn new() -> (r: PrecisionCache)
        ensures
            r.wf(),
    {
        PrecisionCache { entries: Vec::new() }
    }

    /// The precision bound for `lambda`, in bits: the cached value if one is
    /// there, else freshly computed and remembered.
    pub fn bound_bits(&mut self, lambda: u32) -> (b: u32)
        requires
            old(self).wf(),
        ensures
            final(self).wf(),
            64 <= b <= 8192,
    {
        let mut i: usize = 0;
        while i < self.entries.len()
            invariant
                self.wf(),
                i <= self.entries@.len(),
            decreases self.entries@.len() - i,
        {
            if self.entries[i].0 == lambda {
                return self.entries[i].1;
            }
            i = i + 1;
        }
        let b = precision_bound_bits(lambda);
        self.entries.push((lambda, b));
        b
    }
}

/// The precision bound for `lambda`: two to the estimated number of bits.
pub fn compute_precision_bound(lambda: u32) -> (r: num_bigint::BigInt)
    ensures
        exists|b: int| 64 <= b <= 8192 && int_value(r) == (#[trigger] pow2(b as nat)) as int,
{
    let bits = precision_bound_bits(lambda);
    let mut r = int_from_u64(1);
    int_shl_assign(&mut r, bits as u64);
    proof {
        let bb: int = bits as int;
        assert(64 <= bb <= 8192 && int_value(r) == pow2(bb as nat) as int);
    }
    r
}

/// Estimates the number of candidate bits for `lambda` from the Lambert-W
/// value `W(-2^-lambda)`, by Newton and Halley steps in extended-precision
/// floating point.  The magnitude of the result, with a 1.1x safety margin,
/// is clamped to `[64, 8192]` bits; any misbehaviour of the float pipeline
/// falls back to the safe minimum of 64 bits.
pub fn precision_bound_bits(lambda: u32) -> (b: u32)
    ensures
        64 <= b <= 8192,
{
    let p: usize = if lambda > 1000 {
        4096
    } else if lambda > 500 {
        2048
    } else {
        1024
    };
    let mut cc = consts_new();
    let two = f_from_u64(2, p);
    let ten = f_from_u64(10, p);
    let one = f_from_u64(1, p);
    let thousand = f_from_u64(1000, p);

    // x = -2^(-lambda), l1 = ln(2^(-lambda)), l2 = ln(-l1)
    let x_pos = f_recip(&f_powi(&two, lambda as usize, p), p);
    let l1 = f_ln(&x_pos, p, &mut cc);
    let x = f_neg(&x_pos);
    let neg_l1 = f_neg(&l1);
    let l2 = f_ln(&neg_l1, p, &mut cc);

    // initial guess w = L1 - L2 + L2/L1
    let mut w = f_div(&l2, &l1, p);
    w = f_add(&w, &l1, p);
    w = f_sub(&w, &l2, p);

    // convergence tolerance 10 * 2^(-min(200, p/4))
    let eps_exp: usize = if p / 4 < 200 {
        p / 4
    } else {
        200
    };
    let eps = f_recip(&f_powi(&two, eps_exp, p), p);
    let tol = f_mul(&eps, &ten, p);

    let mut iter: u32 = 0;
    while iter < 32
        invariant
            iter <= 32,
        decreases 32 - iter,
    {
        let e = f_exp(&w, p, &mut cc);
        let mut t = f_mul(&e, &w, p);
        t = f_sub(&t, &x, p);
        let p1 = f_add(&w, &one, p);
        if f_is_positive(&w) {
            // Newton step
            let den = f_mul(&e, &p1, p);
            t = f_div(&t, &den, p);
        } else {
            // Halley step: denominator e*(w+1) - (w+2)*t / (2*(w+1))
            let mut den = f_mul(&e, &p1, p);
            let mut num = f_add(&p1, &one, p);
            num = f_mul(&num, &t, p);
            num = f_div(&num, &p1, p);
            num = f_div(&num, &two, p);
            den = f_sub(&den, &num, p);
            t = f_div(&t, &den, p);
        }
        let abs_t = f_abs(&t);
        if f_le(&abs_t, &tol) {
            break ;
        }
        w = f_sub(&w, &t, p);
        let abs_w = f_abs(&w);
        if f_gt(&abs_w, &thousand) {
            break ;
        }
        iter = iter + 1;
    }

    if f_is_nan(&w) || f_is_inf(&w) || f_is_zero(&w) {
        return MIN_PRECISION_BITS;
    }
    let mut wm = f_abs(&w);
    let eleven = f_from_u64(11, p);
    wm = f_mul(&wm, &eleven, p);
    wm = f_div(&wm, &ten, p);
    let c = f_ceil(&wm);

    // clamp the magnitude into [64, 8192] and read it off by bisection
    if !f_gt(&c, &f_from_u64(64, p)) {
        return MIN_PRECISION_BITS;
    }
    if !f_lt(&c, &f_from_u64(8192, p)) {
        return MAX_PRECISION_BITS;
    }
    let mut lo: u32 = 64;
    let mut hi: u32 = 8192;
    while lo + 1 < hi
        invariant
            64 <= lo < hi <= 8192,
        decreases hi - lo,
    {
        let mid = lo + (hi - lo) / 2;
        if f_gt(&c, &f_from_u64(mid as u64, p)) {
            lo = mid;
        } else {
            hi = mid;
        }
    }
    hi
}

} // verus!
