//! A deterministic Miller–Rabin probable-prime test on 64-bit values.
//!
//! The bases of the rounds are drawn from a splitmix64 stream seeded with the
//! number under test, so the verdict is a mathematical function of the number
//! and the round count, and two runs on equal inputs agree.

use vstd::prelude::*;
use vstd::calc;
use vstd::arithmetic::power::pow;
use vstd::arithmetic::power2::pow2;
use crate::prng::{mix_output, mix_state, SplitMix64};

verus! {

/// The largest odd divisor of `m`.
pub open spec fn odd_part(m: nat) -> nat
    decreases m,
{
    if m == 0 {
        0nat
    } else if m % 2 == 1 {
        m
    } else {
        odd_part(m / 2)
    }
}

/// The exponent of two in `m`.
pub open spec fn two_exp(m: nat) -> nat
    decreases m,
{
    if m == 0 {
        0nat
    } else if m % 2 == 1 {
        0nat
    } else {
        1 + two_exp(m / 2)
    }
}

/// The squaring chain of a Miller–Rabin round: starting from `x`, squares
/// modulo `n` up to `j` more times, looking for the value `n - 1`.
pub open spec fn mr_squares(x: int, n: int, j: nat) -> bool
    decreases j,
{
    if x == n - 1 {
        true
    } else if j == 0 {
        false
    } else {
        mr_squares((x * x) % n, n, (j - 1) as nat)
    }
}

/// One Miller–Rabin round of witness `a` against the odd number `n >= 5`.
pub open spec fn mr_round_ok(n: int, a: int) -> bool {
    let d = odd_part((n - 1) as nat);
    let s = two_exp((n - 1) as nat);
    let x0 = pow(a, d) % n;
    x0 == 1 || (s >= 1 && mr_squares(x0, n, (s - 1) as nat))
}

/// The base of a round, derived from one draw of the generator.
pub open spec fn mr_base(n: int, draw: u64) -> int {
    2 + (draw as int) % (n - 3)
}

/// `reps` further rounds pass, with the generator in state `state`.
pub open spec fn mr_rounds_from(n: int, state: u64, reps: nat) -> bool
    decreases reps,
{
    if reps == 0 {
        true
    } else {
        let s1 = mix_state(state);
        mr_round_ok(n, mr_base(n, mix_output(s1))) && mr_rounds_from(n, s1, (reps - 1) as nat)
    }
}

/// The verdict of the whole test on `n` with `reps` rounds.
pub open spec fn probable_prime_spec(n: u64, reps: u32) -> bool {
    if n < 2 {
        false
    } else if n == 2 || n == 3 {
        true
    } else if n % 2 == 0 {
        false
    } else {
        mr_rounds_from(n as int, n, reps as nat)
    }
}

/// `(a * b) % n` without overflow, through a 128-bit product.
pub fn mul_mod_u64(a: u64, b: u64, n: u64) -> (r: u64)
    requires
        n >= 1,
    ensures
        r as int == (a as int * b as int) % (n as int),
        r < n,
{
    proof {
        vstd::arithmetic::mul::lemma_mul_upper_bound(
            a as int,
            0xFFFF_FFFF_FFFF_FFFF,
            b as int,
            0xFFFF_FFFF_FFFF_FFFF,
        );
        vstd::arithmetic::mul::lemma_mul_nonnegative(a as int, b as int);
        vstd::arithmetic::div_mod::lemma_mod_bound(a as int * b as int, n as int);
    }
    let p: u128 = (a as u128) * (b as u128);
    (p % (n as u128)) as u64
}

/// `pow(base, e) % n` by binary exponentiation.
pub fn pow_mod_u64(base: u64, e: u64, n: u64) -> (r: u64)
    requires
        n >= 1,
        base < n,
    ensures
        r as int == pow(base as int, e as nat) % (n as int),
        r < n,
{
    let mut acc: u64 = 1 % n;
    let mut b: u64 = base;
    let mut e2: u64 = e;
    proof {
        vstd::arithmetic::div_mod::lemma_mul_mod_noop_left(1, pow(base as int, e as nat), n as int);
    }
    while e2 > 0
        invariant
            n >= 1,
            acc < n,
            b < n,
            (acc as int * pow(b as int, e2 as nat)) % (n as int) == pow(base as int, e as nat) % (
            n as int),
        decreases e2,
    {
        let ghost acc0 = acc as int;
        let ghost b0 = b as int;
        let ghost e0 = e2 as nat;
        let ghost nn = n as int;
        let ghost k = (e2 / 2) as nat;
        let ghost bit = (e2 % 2) as nat;
        if e2 % 2 == 1 {
            acc = mul_mod_u64(acc, b, n);
        }
        b = mul_mod_u64(b, b, n);
        e2 = e2 / 2;
        proof {
            // pow(b0, e0) == pow(b0, bit) * pow(b0 * b0, k)
            vstd::arithmetic::power::lemma_pow_adds(b0, bit, (2 * k) as nat);
            vstd::arithmetic::power::lemma_pow_multiplies(b0, 2, k);
            vstd::arithmetic::power::lemma_square_is_pow2(b0);
            assert(e0 == bit + 2 * k);
            assert(pow(b0, e0) == pow(b0, bit) * pow(b0 * b0, k));
            // replace the squared base by its residue
            vstd::arithmetic::power::lemma_pow_mod_noop(b0 * b0, k, nn);
            // acc' == (acc0 * pow(b0, bit)) % nn
            if bit == 1 {
                vstd::arithmetic::power::lemma_pow1(b0);
            } else {
                vstd::arithmetic::power::lemma_pow0(b0);
                assert(acc as int == (acc0 * pow(b0, bit)) % nn) by {
                    vstd::arithmetic::div_mod::lemma_small_mod(acc0 as nat, nn as nat);
                };
            }
            assert(acc as int == (acc0 * pow(b0, bit)) % nn);
            assert(b as int == (b0 * b0) % nn);
            // (acc' * pow(b', k)) % nn == (acc0 * pow(b0, e0)) % nn
            calc! {
                (==)
                (acc as int * pow(b as int, k)) % nn; {
                    vstd::arithmetic::div_mod::lemma_mul_mod_noop_right(
                        acc as int,
                        pow(b as int, k),
                        nn,
                    );
                    vstd::arithmetic::power::lemma_pow_mod_noop(b0 * b0, k, nn);
                    vstd::arithmetic::div_mod::lemma_mul_mod_noop_right(
                        acc as int,
                        pow(b0 * b0, k),
                        nn,
                    );
                }
                (acc as int * pow(b0 * b0, k)) % nn; {
                    vstd::arithmetic::div_mod::lemma_mul_mod_noop_left(
                        acc0 * pow(b0, bit),
                        pow(b0 * b0, k),
                        nn,
                    );
                }
                ((acc0 * pow(b0, bit)) * pow(b0 * b0, k)) % nn; {
                    vstd::arithmetic::mul::lemma_mul_is_associative(
                        acc0,
                        pow(b0, bit),
                        pow(b0 * b0, k),
                    );
                }
                (acc0 * (pow(b0, bit) * pow(b0 * b0, k))) % nn; {}
                (acc0 * pow(b0, e0)) % nn;
            }
        }
    }
    proof {
        vstd::arithmetic::power::lemma_pow0(b as int);
        vstd::arithmetic::div_mod::lemma_small_mod(acc as nat, n as nat);
    }
    acc
}

/// The probable-prime test itself.  Small cases are immediate; otherwise
/// `n - 1` is split as `2^s * d` with `d` odd and `reps` rounds run, each on
/// a base drawn deterministically from the stream seeded with `n`.
pub fn is_probably_prime(n: u64, reps: u32) -> (r: bool)
    ensures
        r == probable_prime_spec(n, reps),
{
    if n < 2 {
        return false;
    }
    if n == 2 || n == 3 {
        return true;
    }
    if n % 2 == 0 {
        return false;
    }
    let ghost n1 = (n - 1) as nat;
    let mut d: u64 = n - 1;
    let mut s: u32 = 0;
    proof {
        vstd::arithmetic::power2::lemma2_to64();
    }
    while d % 2 == 0
        invariant
            1 <= d <= n - 1,
            n >= 5,
            pow2(s as nat) * d == n - 1,
            odd_part(n1) == odd_part(d as nat),
            two_exp(n1) == s + two_exp(d as nat),
        decreases d,
    {
        proof {
            vstd::arithmetic::power2::lemma_pow2_unfold((s + 1) as nat);
            assert(pow2((s + 1) as nat) * (d / 2) == pow2(s as nat) * d) by (nonlinear_arith)
                requires
                    pow2((s + 1) as nat) == 2 * pow2(s as nat),
                    d % 2 == 0,
                    d >= 1,
            ;
            assert(pow2(s as nat) >= 1) by {
                vstd::arithmetic::power2::lemma_pow2_pos(s as nat);
            };
            if s >= 64 {
                if s > 64 {
                    vstd::arithmetic::power2::lemma_pow2_strictly_increases(64, s as nat);
                }
                vstd::arithmetic::power2::lemma2_to64_rest();
                assert(pow2(s as nat) >= 0x1_0000_0000_0000_0000);
                assert(pow2(s as nat) * d >= pow2(s as nat)) by (nonlinear_arith)
                    requires
                        d >= 1,
                        pow2(s as nat) >= 0,
                ;
                assert(false);
            }
        }
        d = d / 2;
        s = s + 1;
    }
    let ghost dd = odd_part(n1) as int;
    let ghost ss = two_exp(n1);
    assert(d as int == dd && s as nat == ss);
    let mut gen = SplitMix64::new(n);
    let mut i: u32 = 0;
    while i < reps
        invariant
            i <= reps,
            n >= 5,
            n % 2 == 1,
            n1 == (n - 1) as nat,
            d as int == dd,
            s as nat == ss,
            dd == odd_part(n1),
            ss == two_exp(n1),
            1 <= d <= n - 1,
            s >= 1,
            probable_prime_spec(n, reps) == mr_rounds_from(n as int, gen.state, (reps - i) as nat),
        decreases reps - i,
    {
        let draw = gen.next_u64();
        let a: u64 = 2 + draw % (n - 3);
        assert(a as int == mr_base(n as int, draw));
        let x0 = pow_mod_u64(a, d, n);
        let ghost x0i = x0 as int;
        let mut x = x0;
        let mut pass = x0 == 1 || x0 == n - 1;
        if !pass {
            let mut j: u32 = 1;
            while j < s && !pass
                invariant
                    1 <= j <= s,
                    n >= 5,
                    x < n,
                    pass ==> mr_squares(x0i, n as int, (s - 1) as nat),
                    !pass ==> x != n - 1,
                    !pass ==> mr_squares(x0i, n as int, (s - 1) as nat) == mr_squares(
                        x as int,
                        n as int,
                        (s - j) as nat,
                    ),
                decreases s - j,
            {
                let ghost xi = x as int;
                let ghost jold = j;
                x = mul_mod_u64(x, x, n);
                if x == n - 1 {
                    pass = true;
                }
                j = j + 1;
                proof {
                    assert(mr_squares(xi, n as int, (s - jold) as nat) == mr_squares(
                        (xi * xi) % (n as int),
                        n as int,
                        (s - j) as nat,
                    ));
                    assert(x as int == (xi * xi) % (n as int));
                }
            }
            proof {
                if !pass {
                    assert(mr_squares(x as int, n as int, 0) == false);
                }
            }
        }
        proof {
            assert(x0i == pow(a as int, odd_part(n1)) % (n as int));
            if x0i == n - 1 {
                assert(mr_squares(x0i, n as int, (ss - 1) as nat));
            }
            assert(n1 == (n as int - 1) as nat);
            assert(pass == mr_round_ok(n as int, mr_base(n as int, draw)));
        }
        if !pass {
            return false;
        }
        i = i + 1;
    }
    true
}

} // verus!
