use epoch_buckets::analysis::{analyze_buckets, BucketAnalysis};
use epoch_buckets::{BUCKETS, EPOCHS};

fn std_dev(analysis: &BucketAnalysis) -> f64 {
    analysis.deviation_sum as f64 / BUCKETS as f64
}

/// The statistic as it is computed with floating-point numbers throughout.
fn float_deviation(counts: &[usize], mean: usize) -> f64 {
    counts
        .iter()
        .map(|count| (*count as f64 - mean as f64).abs())
        .sum::<f64>()
        / (BUCKETS as f64)
}

fn shuffled(mut counts: Vec<usize>) -> Vec<usize> {
    let mut state: u64 = 0x2545_f491_4f6c_dd1d;
    for i in (1..counts.len()).rev() {
        state ^= state << 13;
        state ^= state >> 7;
        state ^= state << 17;
        counts.swap(i, (state % (i as u64 + 1)) as usize);
    }
    counts
}

#[test]
fn constants_have_their_values() {
    assert_eq!(BUCKETS, 100);
    assert_eq!(EPOCHS, 1000);
}

#[test]
fn uniform_counts_of_two() {
    let mut buckets = vec![2usize; 100];
    let analysis = analyze_buckets(&mut buckets);
    assert_eq!(
        analysis,
        BucketAnalysis {
            min: 2,
            max: 2,
            spread: 0,
            mean: 2,
            median: 2,
            mode: 2,
            mode_count: 100,
            deviation_sum: 0,
        }
    );
    assert_eq!(std_dev(&analysis), 0.0);
    assert_eq!(buckets, vec![2usize; 100]);
}

#[test]
fn uniform_counts_of_one() {
    let mut buckets = vec![1usize; 100];
    let analysis = analyze_buckets(&mut buckets);
    assert_eq!(
        analysis,
        BucketAnalysis {
            min: 1,
            max: 1,
            spread: 0,
            mean: 1,
            median: 1,
            mode: 1,
            mode_count: 100,
            deviation_sum: 0,
        }
    );
    assert_eq!(std_dev(&analysis), 0.0);
}

#[test]
fn empty_buckets() {
    let mut buckets = vec![0usize; 100];
    let analysis = analyze_buckets(&mut buckets);
    assert_eq!(analysis.min, 0);
    assert_eq!(analysis.max, 0);
    assert_eq!(analysis.mean, 0);
    assert_eq!(analysis.mode, 0);
    assert_eq!(analysis.mode_count, 100);
    assert_eq!(analysis.deviation_sum, 0);
}

#[test]
fn counts_are_sorted_in_place() {
    let mut buckets = shuffled((0..100).collect());
    assert_ne!(buckets, (0..100).collect::<Vec<usize>>());
    analyze_buckets(&mut buckets);
    assert_eq!(buckets, (0..100).collect::<Vec<usize>>());
}

#[test]
fn distinct_counts() {
    let mut buckets = shuffled((0..100).collect());
    let analysis = analyze_buckets(&mut buckets);
    assert_eq!(analysis.min, 0);
    assert_eq!(analysis.max, 99);
    assert_eq!(analysis.spread, 99);
    assert_eq!(analysis.mean, 49);
    assert_eq!(analysis.median, 50);
    assert_eq!(analysis.mode_count, 1);
    assert!(analysis.mode < 100);
    assert_eq!(analysis.deviation_sum, 2500);
    assert_eq!(std_dev(&analysis), 25.0);
}

#[test]
fn mean_truncates() {
    let mut buckets = vec![2usize; 100];
    buckets[3] = 101;
    let analysis = analyze_buckets(&mut buckets);
    assert_eq!(analysis.mean, 2);
    let mut buckets = vec![3usize; 100];
    buckets[99] = 2;
    let analysis = analyze_buckets(&mut buckets);
    assert_eq!(analysis.mean, 2);
    assert_eq!(analysis.deviation_sum, 99);
    assert_eq!(std_dev(&analysis), 0.99);
}

#[test]
fn median_is_the_count_at_position_fifty() {
    let mut buckets = vec![0usize; 50];
    buckets.extend(vec![10usize; 50]);
    let analysis = analyze_buckets(&mut shuffled(buckets));
    assert_eq!(analysis.median, 10);
    let mut buckets = vec![0usize; 51];
    buckets.extend(vec![10usize; 49]);
    let analysis = analyze_buckets(&mut shuffled(buckets));
    assert_eq!(analysis.median, 0);
}

#[test]
fn clear_mode_is_found() {
    let mut buckets = Vec::new();
    buckets.extend(vec![5usize; 40]);
    buckets.extend(vec![1usize; 30]);
    buckets.extend(vec![9usize; 30]);
    let analysis = analyze_buckets(&mut shuffled(buckets));
    assert_eq!(analysis.mode, 5);
    assert_eq!(analysis.mode_count, 40);
    assert_eq!(analysis.min, 1);
    assert_eq!(analysis.max, 9);
    assert_eq!(analysis.spread, 8);
    assert_eq!(analysis.mean, 5);
    assert_eq!(analysis.median, 5);
    assert_eq!(analysis.deviation_sum, 240);
    assert_eq!(std_dev(&analysis), 2.4);
}

#[test]
fn mode_count_is_greatest_frequency_among_ties() {
    let mut buckets = Vec::new();
    buckets.extend(vec![4usize; 35]);
    buckets.extend(vec![6usize; 35]);
    buckets.extend(vec![8usize; 30]);
    for _ in 0..20 {
        let analysis = analyze_buckets(&mut shuffled(buckets.clone()));
        assert_eq!(analysis.mode_count, 35);
        assert!(analysis.mode == 4 || analysis.mode == 6);
    }
}

#[test]
fn clear_mode_among_many_ties() {
    let mut buckets: Vec<usize> = (0..48).flat_map(|v| [v, v]).collect();
    buckets.extend(vec![1000usize; 4]);
    let analysis = analyze_buckets(&mut shuffled(buckets));
    assert_eq!(analysis.mode, 1000);
    assert_eq!(analysis.mode_count, 4);
}

#[test]
fn deviation_matches_the_floating_point_formula() {
    let mut state: u64 = 12345;
    for _ in 0..50 {
        let counts: Vec<usize> = (0..100)
            .map(|_| {
                state = state.wrapping_mul(6364136223846793005).wrapping_add(1442695040888963407);
                (state >> 58) as usize
            })
            .collect();
        let mut buckets = counts.clone();
        let analysis = analyze_buckets(&mut buckets);
        assert_eq!(analysis.mean, counts.iter().sum::<usize>() / 100);
        assert_eq!(std_dev(&analysis), float_deviation(&counts, analysis.mean));
        assert!(std_dev(&analysis) >= 0.0);
        assert!(analysis.min <= analysis.mean && analysis.mean <= analysis.max);
        assert!(analysis.min <= analysis.median && analysis.median <= analysis.max);
        assert_eq!(analysis.spread, analysis.max - analysis.min);
        assert_eq!(analysis.min, *counts.iter().min().unwrap());
        assert_eq!(analysis.max, *counts.iter().max().unwrap());
        let occurrences = |v: usize| counts.iter().filter(|c| **c == v).count();
        assert_eq!(occurrences(analysis.mode), analysis.mode_count);
        assert!(counts.iter().all(|c| occurrences(*c) <= analysis.mode_count));
    }
}

#[test]
fn largest_counts_do_not_overflow() {
    let mut buckets = vec![usize::MAX; 100];
    let analysis = analyze_buckets(&mut buckets);
    assert_eq!(analysis.min, usize::MAX);
    assert_eq!(analysis.max, usize::MAX);
    assert_eq!(analysis.mean, usize::MAX);
    assert_eq!(analysis.deviation_sum, 0);
    let mut buckets = vec![0usize; 100];
    buckets[0] = usize::MAX;
    buckets[1] = usize::MAX;
    let analysis = analyze_buckets(&mut buckets);
    let mean = ((usize::MAX as u128) * 2 / 100) as usize;
    assert_eq!(analysis.mean, mean);
    assert_eq!(
        analysis.deviation_sum,
        98 * mean as u128 + 2 * (usize::MAX - mean) as u128
    );
}
