use monte_carlo_risk::seed::{path_seed, SEED_MULTIPLIER};

#[test]
fn first_paths_get_multiples_of_the_multiplier() {
    assert_eq!(path_seed(0), 9_973);
    assert_eq!(path_seed(1), 19_946);
    assert_eq!(path_seed(499), 500 * SEED_MULTIPLIER);
}

#[test]
fn seeds_wrap_around() {
    let index: usize = 1 << 60;
    let expected = ((index as u64) + 1).wrapping_mul(9_973);
    assert_eq!(path_seed(index), expected);
}

#[test]
fn seeds_of_a_run_are_distinct() {
    let mut seeds: Vec<u64> = (0..5_000).map(path_seed).collect();
    seeds.sort();
    seeds.dedup();
    assert_eq!(seeds.len(), 5_000);
}
