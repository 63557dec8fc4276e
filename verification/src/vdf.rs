//! The Wesolowski VDF: a puzzle and a hash-to-prime instance, with the
//! mathematical statements that the prover and the verifier share.

use vstd::prelude::*;
use vstd::arithmetic::power::pow;
use vstd::arithmetic::power2::pow2;
use crate::bigint::{be_value, bitlen, int_value, is_min_be, lemma_min_be_unique};
use crate::hash::{hash_prime_outcome, HashToPrime};
use crate::prover::{CancellationToken, WesolowskiProver};
use crate::puzzle::RswPuzzle;
use crate::verification::WesolowskiVerifier;

verus! {

/// A claimed proof/output pair, each field a big-endian unsigned encoding.
/// Two empty fields signal that no solution was produced (cancelled).
pub struct Solution {
    pub first: Vec<u8>,
    pub second: Vec<u8>,
}

impl Solution {
    /// Both fields are empty.
    pub open spec fn is_empty_pair(&self) -> bool {
        self.first@.len() == 0 && self.second@.len() == 0
    }
}

/// The output of the sequential squaring: `x^(2^t) mod n` after `t`
/// squarings.
pub open spec fn vdf_output(x: int, n: int, t: nat) -> int {
    pow(x, pow2(t)) % n
}

/// The compact proof for challenge prime `p`: `x^(2^t / p) mod n`.
pub open spec fn vdf_proof(x: int, n: int, p: int, t: nat) -> int {
    pow(x, ((pow2(t) as int) / p) as nat) % n
}

/// The challenge prime: hash-to-prime of `x` and `y` read as one integer,
/// `x` shifted left by the bit length of `n`.
pub open spec fn challenge_of(x: int, n: int, y: int) -> Option<int> {
    hash_prime_outcome(x * pow2(bitlen(n as nat)) + y)
}

/// A successful proving run: the challenge exists and the two fields are the
/// shortest encodings of the proof and the output.
pub open spec fn prove_result_ok(x: int, n: int, t: nat, first: Seq<u8>, second: Seq<u8>) -> bool {
    match challenge_of(x, n, vdf_output(x, n, t)) {
        Some(p) => is_min_be(first, vdf_proof(x, n, p, t)) && is_min_be(
            second,
            vdf_output(x, n, t),
        ),
        None => false,
    }
}

/// What the verifier accepts: decoded values in range, the challenge
/// recomputed from the decoded output, and `x^r * pi^p == y (mod n)` with
/// `r = 2^(2^tb) mod p`.
pub open spec fn accepts(x: int, n: int, t: nat, first: Seq<u8>, second: Seq<u8>) -> bool {
    let pi = be_value(first);
    let y = be_value(second);
    if y == 0 || pi == 0 || y >= n || pi >= n {
        false
    } else {
        match challenge_of(x, n, y) {
            None => false,
            Some(p) => {
                let r = pow(2, t) % p;
                ((pow(x, r as nat) % n) * (pow(pi, p as nat) % n)) % n == y
            },
        }
    }
}

/// Deterministic proving: two successful runs on the same parameters produce
/// byte-identical solutions.
pub proof fn lemma_prove_deterministic(
    x: int,
    n: int,
    t: nat,
    f1: Seq<u8>,
    s1: Seq<u8>,
    f2: Seq<u8>,
    s2: Seq<u8>,
)
    requires
        prove_result_ok(x, n, t, f1, s1),
        prove_result_ok(x, n, t, f2, s2),
    ensures
        f1 == f2,
        s1 == s2,
{
    let p = challenge_of(x, n, vdf_output(x, n, t))->Some_0;
    lemma_min_be_unique(f1, f2, vdf_proof(x, n, p, t));
    lemma_min_be_unique(s1, s2, vdf_output(x, n, t));
}

/// The unit the prover and the verifier operate on.
pub struct WesolowskiVdf {
    pub puzzle: RswPuzzle,
    pub hash: HashToPrime,
}

impl WesolowskiVdf {
    /// The base value `x`.
    pub open spec fn base_val(&self) -> int {
        self.puzzle.base_val()
    }

    /// The modulus `N`.
    pub open spec fn modulus_val(&self) -> int {
        self.puzzle.modulus_val()
    }

    /// The iteration count `T`.
    pub open spec fn iterations_val(&self) -> int {
        self.puzzle.iterations_val()
    }

    /// Both components are well formed.
    pub open spec fn wf(&self) -> bool {
        self.puzzle.wf() && self.hash.wf()
    }

    /// Builds the puzzle and the hash-to-prime instance.  The modulus must
    /// not decode to zero.
    pub fn new(lambda: u32, time_bits: u32, input: Vec<u8>, modulus: Vec<u8>) -> (r: WesolowskiVdf)
        requires
            be_value(modulus@) >= 1,
        ensures
            r.wf(),
            r.puzzle.time_bits == time_bits,
            r.modulus_val() == be_value(modulus@),
            r.base_val() == be_value(input@) % be_value(modulus@),
            r.iterations_val() == pow2(time_bits as nat),
    {
        let puzzle = RswPuzzle::new(time_bits, input.as_slice(), modulus.as_slice());
        let hash = HashToPrime::new(lambda);
        WesolowskiVdf { puzzle, hash }
    }

    /// The base value `x`.
    pub fn base(&self) -> (r: &num_bigint::BigInt)
        ensures
            int_value(*r) == self.base_val(),
    {
        self.puzzle.base()
    }

    /// The iteration count `T = 2^time_bits`.
    pub fn iterations(&self) -> (r: &num_bigint::BigInt)
        ensures
            int_value(*r) == self.iterations_val(),
    {
        self.puzzle.iterations()
    }

    /// The modulus `N`.
    pub fn modulus(&self) -> (r: &num_bigint::BigInt)
        ensures
            int_value(*r) == self.modulus_val(),
    {
        self.puzzle.modulus()
    }

    /// Hash-to-prime on the owned instance.
    pub fn hash_to_prime(&self, input: &num_bigint::BigInt) -> (r: Result<
        num_bigint::BigInt,
        String,
    >)
        requires
            self.wf(),
        ensures
            match r {
                Ok(p) => {
                    &&& hash_prime_outcome(int_value(*input)) == Some(int_value(p))
                    &&& 2 <= int_value(p) <= 0xFFFF_FFF7
                    &&& int_value(p) % 6 == 1 || int_value(p) % 6 == 5
                    &&& crate::primality::probable_prime_spec(int_value(p) as u64, crate::hash::MAX_MILLER_RABIN)
                },
                Err(_) => hash_prime_outcome(int_value(*input)) == None::<int>,
            },
    {
        self.hash.hash_to_prime(input)
    }
}

/// Copies a byte slice into an owned vector.
fn bytes_to_vec(b: &[u8]) -> (r: Vec<u8>)
    ensures
        r@ == b@,
{
    let mut r: Vec<u8> = Vec::new();
    let mut i: usize = 0;
    while i < b.len()
        invariant
            i <= b@.len(),
            r@ == b@.subrange(0, i as int),
        decreases b@.len() - i,
    {
        r.push(b[i]);
        proof {
            assert(r@ =~= b@.subrange(0, i + 1));
        }
        i = i + 1;
    }
    proof {
        assert(r@ =~= b@);
    }
    r
}

/// Builds a boxed VDF instance.
pub fn make_vdf(lambda: u32, time_bits: u32, input: &[u8], modulus: &[u8]) -> (r: Box<
    WesolowskiVdf,
>)
    requires
        be_value(modulus@) >= 1,
    ensures
        r.wf(),
        r.modulus_val() == be_value(modulus@),
        r.base_val() == be_value(input@) % be_value(modulus@),
        r.iterations_val() == pow2(time_bits as nat),
{
    Box::new(WesolowskiVdf::new(lambda, time_bits, bytes_to_vec(input), bytes_to_vec(modulus)))
}

/// Builds a boxed solution from its two encoded fields.
pub fn make_solution(proof_bytes: &[u8], output_bytes: &[u8]) -> (r: Box<Solution>)
    ensures
        r.first@ == proof_bytes@,
        r.second@ == output_bytes@,
{
    Box::new(Solution { first: bytes_to_vec(proof_bytes), second: bytes_to_vec(output_bytes) })
}

/// Builds a boxed self-owned cancellation token.
pub fn make_cancellation_token() -> Box<CancellationToken> {
    Box::new(CancellationToken::new())
}

/// Builds a boxed cancellation token bound to a shared flag.
pub fn make_cancellation_token_with_atomic(
    flag: std::sync::Arc<std::sync::atomic::AtomicBool>,
) -> (r: Box<CancellationToken>)
    ensures
        r.flag == flag,
{
    Box::new(CancellationToken::from_atomic_ptr(flag))
}

/// Signals cancellation through a token.
pub fn cancellation_token_cancel(token: &CancellationToken) {
    token.cancel();
}

/// Runs the prover on a VDF instance.
pub fn prove(vdf: &WesolowskiVdf, cancelled: &CancellationToken) -> (r: Box<Solution>)
    requires
        vdf.wf(),
    ensures
        r.is_empty_pair() || prove_result_ok(
            vdf.base_val(),
            vdf.modulus_val(),
            vdf.iterations_val() as nat,
            r.first@,
            r.second@,
        ),
        challenge_of(
            vdf.base_val(),
            vdf.modulus_val(),
            vdf_output(vdf.base_val(), vdf.modulus_val(), vdf.iterations_val() as nat),
        ) is None ==> r.is_empty_pair(),
{
    let prover = WesolowskiProver::new(vdf);
    Box::new(prover.prove(cancelled))
}

/// Runs the verifier on a VDF instance and a claimed solution.
pub fn verify(vdf: &WesolowskiVdf, solution: &Solution) -> (r: bool)
    requires
        vdf.wf(),
    ensures
        r == accepts(
            vdf.base_val(),
            vdf.modulus_val(),
            vdf.iterations_val() as nat,
            solution.first@,
            solution.second@,
        ),
{
    let verifier = WesolowskiVerifier::new(vdf);
    verifier.verify(solution)
}

/// The proof field of a solution.
pub fn solution_get_proof(solution: &Solution) -> (r: &[u8])
    ensures
        r@ == solution.first@,
{
    solution.first.as_slice()
}

/// The output field of a solution.
pub fn solution_get_output(solution: &Solution) -> (r: &[u8])
    ensures
        r@ == solution.second@,
{
    solution.second.as_slice()
}

} // verus!
