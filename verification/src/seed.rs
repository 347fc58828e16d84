use vstd::prelude::*;
use vstd::arithmetic::div_mod::{lemma_mul_mod_noop_left, lemma_mod_multiples_vanish, lemma_small_mod, lemma_add_mod_noop};
use vstd::arithmetic::mul::lemma_mul_is_associative;

verus! {

/// The multiplier that spreads consecutive path numbers over the seed space.
pub const SEED_MULTIPLIER: u64 = 9_973;

/// The seed of the random generator of the path with the given zero-based
/// index: the one-based path number, multiplied by `SEED_MULTIPLIER` modulo 2^64.
pub open spec fn spec_path_seed(index: nat) -> u64 {
    (((index + 1) * SEED_MULTIPLIER as nat) % 0x1_0000_0000_0000_0000nat) as u64
}

/// Seed for the random generator of one simulated path.
///
/// Every path draws from its own generator, seeded from nothing but the
/// path's index, so a path's outcome does not depend on which thread ran it
/// or in which order the paths ran.
pub fn path_seed(index: usize) -> (seed: u64)
    requires
        index < u64::MAX,
    ensures
        seed == spec_path_seed(index as nat),
        seed as int == ((index + 1) * 9_973) % 0x1_0000_0000_0000_0000,
{
    let number: u64 = index as u64 + 1;
    number.wrapping_mul(SEED_MULTIPLIER)
}

/// The first path is seeded with the multiplier itself, and each next path's
/// seed is the previous seed plus the multiplier, modulo 2^64.
pub proof fn lemma_path_seed_steps(index: nat)
    ensures
        spec_path_seed(0) == 9_973,
        spec_path_seed(index + 1) as int == (spec_path_seed(index) as int + 9_973)
            % 0x1_0000_0000_0000_0000,
{
    let m: int = 0x1_0000_0000_0000_0000;
    let k: int = SEED_MULTIPLIER as int;
    assert((index + 2) * k == (index + 1) * k + k) by (nonlinear_arith);
    lemma_add_mod_noop((index + 1) * k, k, m);
    lemma_small_mod(k as nat, m as nat);
    lemma_small_mod(9_973, m as nat);
}

/// Multiplying by `SEED_MULTIPLIER` is undone modulo 2^64 by this factor.
proof fn lemma_multiplier_inverse(x: int)
    requires
        0 <= x < 0x1_0000_0000_0000_0000,
    ensures
        ((x * SEED_MULTIPLIER as int) % 0x1_0000_0000_0000_0000) * 9_063_375_710_536_127_837int
            % 0x1_0000_0000_0000_0000 == x,
{
    let m: int = 0x1_0000_0000_0000_0000;
    let k: int = SEED_MULTIPLIER as int;
    let inv: int = 9_063_375_710_536_127_837;
    lemma_mul_mod_noop_left(x * k, inv, m);
    lemma_mul_is_associative(x, k, inv);
    assert(k * inv == 1 + 4900 * m);
    assert(x * (k * inv) == m * (4900 * x) + x) by (nonlinear_arith)
        requires
            k * inv == 1 + 4900 * m,
    ;
    lemma_mod_multiples_vanish(4900 * x, x, m);
    lemma_small_mod(x as nat, m as nat);
}

/// Distinct paths are seeded differently: no two path indices share a seed.
pub proof fn lemma_path_seeds_distinct(a: nat, b: nat)
    requires
        a < u64::MAX,
        b < u64::MAX,
        a != b,
    ensures
        spec_path_seed(a) != spec_path_seed(b),
{
    let m: int = 0x1_0000_0000_0000_0000;
    let k: int = SEED_MULTIPLIER as int;
    lemma_multiplier_inverse((a + 1) as int);
    lemma_multiplier_inverse((b + 1) as int);
    assert(((a + 1) * k) % m == spec_path_seed(a) as int);
    assert(((b + 1) * k) % m == spec_path_seed(b) as int);
}

} // verus!
