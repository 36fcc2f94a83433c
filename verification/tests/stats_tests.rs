use bus_monitor::stats::ResponseStats;

#[test]
fn fresh_record_is_unset() {
    let s = ResponseStats::default();
    assert_eq!(s.samples, 0);
    assert_eq!(s.sum, 0);
    assert_eq!(s.min, None);
    assert_eq!(s.max, None);
    assert_eq!(s.mean, None);
    assert_eq!(s.sosd, 0);
    assert_eq!(s.std_dev, None);
}

#[test]
fn single_sample_sets_all_to_it() {
    let mut s = ResponseStats::default();
    s.update(12_345);
    assert_eq!(s.samples, 1);
    assert_eq!(s.min, Some(12_345));
    assert_eq!(s.max, Some(12_345));
    assert_eq!(s.mean, Some(12_345));
    assert_eq!(s.std_dev, Some(0));
}

#[test]
fn count_extrema_and_mean_over_a_run() {
    let samples: [u64; 6] = [50, 30, 100, 70, 30, 80];
    let mut s = ResponseStats::default();
    for d in samples {
        s.update(d);
    }
    assert_eq!(s.samples as usize, samples.len());
    assert_eq!(s.min, Some(30));
    assert_eq!(s.max, Some(100));
    let mean = s.mean.unwrap();
    assert!(s.min.unwrap() <= mean && mean <= s.max.unwrap());
    assert_eq!(s.sum, samples.iter().map(|d| *d as u128).sum::<u128>());
}

#[test]
fn exact_running_values_three_samples() {
    let mut s = ResponseStats::default();
    s.update(5);
    assert_eq!(s.mean, Some(5));
    assert_eq!(s.sosd, 0);
    s.update(3);
    // sum 8 over 2 samples: mean 4, |3 - 4|^2 accumulates 1, variance 0.
    assert_eq!(s.mean, Some(4));
    assert_eq!(s.sosd, 1);
    assert_eq!(s.std_dev, Some(0));
    s.update(10);
    // sum 18 over 3 samples: mean 6, |10 - 6|^2 accumulates to 17,
    // variance 5, standard deviation rounds to 2.
    assert_eq!(s.mean, Some(6));
    assert_eq!(s.sosd, 17);
    assert_eq!(s.std_dev, Some(2));
}

#[test]
fn mean_truncates_toward_zero() {
    let mut s = ResponseStats::default();
    s.update(1);
    s.update(2);
    // 3 / 2 truncates to 1, as integer duration division does.
    assert_eq!(s.mean, Some(1));
}

#[test]
fn equal_samples_leave_no_deviation() {
    let mut s = ResponseStats::default();
    for _ in 0..5 {
        s.update(777);
    }
    assert_eq!(s.samples, 5);
    assert_eq!(s.min, Some(777));
    assert_eq!(s.max, Some(777));
    assert_eq!(s.mean, Some(777));
    assert_eq!(s.std_dev, Some(0));
}
