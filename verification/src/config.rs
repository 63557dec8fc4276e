//! VDF difficulty configuration.

use vstd::prelude::*;

verus! {

/// Difficulty bounds and the security parameter bound for VDF runs.
pub struct VdfConfig {
    pub difficulty_min: u16,
    pub difficulty_max: u16,
    pub difficulty_stale: u16,
    pub lambda_bound: u16,
}

impl VdfConfig {
    /// A configuration with the given fields.
    pub fn new(difficulty_min: u16, difficulty_max: u16, difficulty_stale: u16, lambda_bound: u16)
        -> (r: VdfConfig)
        ensures
            r.difficulty_min == difficulty_min,
            r.difficulty_max == difficulty_max,
            r.difficulty_stale == difficulty_stale,
            r.lambda_bound == lambda_bound,
    {
        VdfConfig { difficulty_min, difficulty_max, difficulty_stale, lambda_bound }
    }

    /// The default production configuration.
    pub fn get_default() -> (r: VdfConfig)
        ensures
            r.difficulty_min == 0,
            r.difficulty_max == 1,
            r.difficulty_stale == 0,
            r.lambda_bound == 1500,
    {
        VdfConfig { difficulty_min: 0, difficulty_max: 1, difficulty_stale: 0, lambda_bound: 1500 }
    }
}

} // verus!
