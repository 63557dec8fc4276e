//! The Rivest–Shamir–Wagner time-lock puzzle: a base, a modulus, and an
//! iteration count `2^time_bits`.

use vstd::prelude::*;
use vstd::arithmetic::power2::pow2;
use crate::bigint::{
    be_value, int_from_u64, int_rem, int_shl_assign, int_value, lemma_be_value_nonneg,
};

verus! {

/// Immutable puzzle parameters.
pub struct RswPuzzle {
    pub time_bits: u32,
    pub base: num_bigint::BigInt,
    pub modulus: num_bigint::BigInt,
    pub iterations: num_bigint::BigInt,
}

impl RswPuzzle {
    /// The base value `x`.
    pub open spec fn base_val(&self) -> int {
        int_value(self.base)
    }

    /// The modulus `N`.
    pub open spec fn modulus_val(&self) -> int {
        int_value(self.modulus)
    }

    /// The iteration count `T`.
    pub open spec fn iterations_val(&self) -> int {
        int_value(self.iterations)
    }

    /// The puzzle's invariant: a positive modulus, a reduced base, and an
    /// iteration count that is exactly `2^time_bits`.
    pub open spec fn wf(&self) -> bool {
        &&& self.modulus_val() >= 1
        &&& 0 <= self.base_val() < self.modulus_val()
        &&& self.iterations_val() == pow2(self.time_bits as nat)
    }

    /// Decodes both byte strings as big-endian unsigned integers and reduces
    /// the input by the modulus.  A modulus of value zero is not accepted:
    /// nothing can be reduced by it.
    pub fn new(time_bits: u32, input: &[u8], modulus: &[u8]) -> (r: RswPuzzle)
        requires
            be_value(modulus@) >= 1,
        ensures
            r.wf(),
            r.time_bits == time_bits,
            r.modulus_val() == be_value(modulus@),
            r.base_val() == be_value(input@) % be_value(modulus@),
            r.iterations_val() == pow2(time_bits as nat),
    {
        let m = crate::bigint::int_from_digits_be(modulus);
        let decoded = crate::bigint::int_from_digits_be(input);
        proof {
            lemma_be_value_nonneg(input@);
        }
        let base = int_rem(&decoded, &m);
        let mut iterations = int_from_u64(1);
        int_shl_assign(&mut iterations, time_bits as u64);
        proof {
            vstd::arithmetic::div_mod::lemma_mod_bound(be_value(input@), be_value(modulus@));
        }
        RswPuzzle { time_bits, base, modulus: m, iterations }
    }

    /// The exponent of the iteration count.
    pub fn time_bits(&self) -> (r: u32)
        ensures
            r == self.time_bits,
    {
        self.time_bits
    }

    /// The base value `x`.
    pub fn base(&self) -> (r: &num_bigint::BigInt)
        ensures
            int_value(*r) == self.base_val(),
    {
        &self.base
    }

    /// The modulus `N`.
    pub fn modulus(&self) -> (r: &num_bigint::BigInt)
        ensures
            int_value(*r) == self.modulus_val(),
    {
        &self.modulus
    }

    /// The iteration count `T = 2^time_bits`.
    pub fn iterations(&self) -> (r: &num_bigint::BigInt)
        ensures
            int_value(*r) == self.iterations_val(),
    {
        &self.iterations
    }
}

} // verus!
