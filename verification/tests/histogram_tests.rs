use monte_carlo_risk::histogram::{bucket_counts, bucket_of};

#[test]
fn bucket_of_keeps_positions_inside_the_range() {
    assert_eq!(bucket_of(0, 14), 0);
    assert_eq!(bucket_of(13, 14), 13);
}

#[test]
fn bucket_of_puts_overflow_in_the_last_bucket() {
    assert_eq!(bucket_of(14, 14), 13);
    assert_eq!(bucket_of(usize::MAX, 3), 2);
}

#[test]
fn bucket_counts_counts_each_bucket() {
    assert_eq!(bucket_counts(&vec![0, 1, 1, 3, 4, 9], 4), vec![1, 2, 0, 3]);
}

#[test]
fn bucket_counts_holds_every_value() {
    let raw: Vec<usize> = (0..500).map(|i| (i * 7) % 17).collect();
    let counts = bucket_counts(&raw, 14);
    assert_eq!(counts.len(), 14);
    assert_eq!(counts.iter().sum::<usize>(), 500);
}

#[test]
fn bucket_counts_without_values_or_buckets_is_empty() {
    assert!(bucket_counts(&vec![], 14).is_empty());
    assert!(bucket_counts(&vec![1, 2], 0).is_empty());
}
