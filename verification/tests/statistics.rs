//! Tests of the summary statistics and the derived speed metric.

use trigram_stats::avg::Avg;

#[test]
fn empty_sample_list() {
    let a = Avg::new(Vec::new());
    assert_eq!(a.mean, 0);
    assert_eq!(a.sd, 0);
    assert_eq!(a.pop, 0);
}

#[test]
fn single_sample_has_defined_spread() {
    let a = Avg::new(vec![100]);
    assert_eq!(a.pop, 1);
    assert_eq!(a.mean, 100);
    assert_eq!(a.sd, 0);
}

#[test]
fn three_samples_bessel_corrected() {
    // sum of squared deviations from 100 is 200; over n-1 = 2 that is 100,
    // whose square root is exactly 10
    let a = Avg::new(vec![90, 100, 110]);
    assert_eq!(a.pop, 3);
    assert_eq!(a.mean, 100);
    assert_eq!(a.sd, 10);
}

#[test]
fn mean_truncates() {
    let a = Avg::new(vec![1, 2]);
    assert_eq!(a.mean, 1);
    let b = Avg::new(vec![99, 100]);
    assert_eq!(b.mean, 99);
}

#[test]
fn spread_truncates() {
    // variance 0.5, standard deviation ~0.707 truncates to 0
    let a = Avg::new(vec![1, 2]);
    assert_eq!(a.sd, 0);
    // two samples at the extremes: sd = 65535 / sqrt(2), truncated
    let b = Avg::new(vec![0, 65535]);
    assert_eq!(b.mean, 32767);
    assert_eq!(b.sd, 46340);
}

#[test]
fn identical_samples_have_no_spread() {
    let a = Avg::new(vec![77, 77, 77, 77]);
    assert_eq!(a.mean, 77);
    assert_eq!(a.sd, 0);
    assert_eq!(a.pop, 4);
}

#[test]
fn wpm_truncates_left_to_right() {
    // 60000 / 110 = 545, * 2 = 1090, / 5 = 218
    assert_eq!(Avg { mean: 110, sd: 0, pop: 3 }.wpm(), 218);
    // 60000 / 7 = 8571, * 2 = 17142, / 5 = 3428
    assert_eq!(Avg { mean: 7, sd: 0, pop: 1 }.wpm(), 3428);
    // the unsimplified evaluation order matters: 60000 / 170 = 352 (not
    // 60000 * 2 / 5 / 170 = 141), * 2 = 704, / 5 = 140
    assert_eq!(Avg { mean: 170, sd: 0, pop: 1 }.wpm(), 140);
    assert_eq!(Avg { mean: 60000, sd: 0, pop: 1 }.wpm(), 0);
}
