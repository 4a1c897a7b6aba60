use tutorial_core::errors::EmptyInputError;
use tutorial_core::stats::{mean, median, mode, Ratio};

fn as_f64(r: Ratio) -> f64 {
    r.num as f64 / r.den as f64
}

#[test]
fn mean_of_seven_values() {
    let sample = [43, 57, 57, 63, 66, 82, 98];
    let m = mean(&sample).unwrap();
    assert_eq!(m, Ratio { num: 466, den: 7 });
    assert!((as_f64(m) - 66.5714285714).abs() < 1e-9);
}

#[test]
fn mean_times_len_is_sum() {
    let sample = [43, 57, 57, 63, 66, 82, 98];
    let m = mean(&sample).unwrap();
    let sum: i64 = sample.iter().map(|&x| x as i64).sum();
    assert!((as_f64(m) * sample.len() as f64 - sum as f64).abs() < 1e-9);
    assert_eq!(m.num * m.den as i128, sum as i128 * sample.len() as i128);
}

#[test]
fn median_of_even_sample() {
    let sample = [57, 43, 63, 57, 98, 66, 82, 100];
    let m = median(&sample).unwrap();
    assert_eq!(m, Ratio { num: 129, den: 2 });
    assert_eq!(as_f64(m), 64.5);
}

#[test]
fn median_of_odd_sample() {
    let sample = [57, 43, 63, 57, 98, 66, 82];
    let m = median(&sample).unwrap();
    assert_eq!(m, Ratio { num: 63, den: 1 });
    assert_eq!(as_f64(m), 63.0);
}

#[test]
fn median_does_not_mutate_the_sample() {
    let sample = [57, 43, 63, 57, 98, 66, 82];
    let _ = median(&sample).unwrap();
    assert_eq!(sample, [57, 43, 63, 57, 98, 66, 82]);
}

#[test]
fn median_is_permutation_invariant() {
    let a = [57, 43, 63, 57, 98, 66, 82, 100];
    let b = [100, 98, 82, 66, 63, 57, 57, 43];
    assert_eq!(median(&a).unwrap(), median(&b).unwrap());
}

#[test]
fn median_splits_the_sample_in_half() {
    let sample = [57, 43, 63, 57, 98, 66, 82, 100];
    let m = as_f64(median(&sample).unwrap());
    let below = sample.iter().filter(|&&x| (x as f64) <= m).count();
    let above = sample.iter().filter(|&&x| (x as f64) >= m).count();
    assert!(2 * below >= sample.len());
    assert!(2 * above >= sample.len());
}

#[test]
fn mode_of_unimodal_sample() {
    let sample = [43, 57, 57, 63, 66, 82, 98];
    assert_eq!(mode(&sample).unwrap(), vec![57]);
}

#[test]
fn mode_of_bimodal_sample() {
    let sample = [43, 57, 57, 63, 66, 66, 98];
    assert_eq!(mode(&sample).unwrap(), vec![57, 66]);
}

#[test]
fn mode_of_all_distinct_sample() {
    let sample = [0, 1, 2, 3, 4, 5];
    assert_eq!(mode(&sample).unwrap(), vec![0, 1, 2, 3, 4, 5]);
}

#[test]
fn mode_values_all_have_the_top_count() {
    let sample = [9, -4, 9, -4, 7, 9, -4, 7, 2];
    let result = mode(&sample).unwrap();
    let count = |v: i32| sample.iter().filter(|&&x| x == v).count();
    let top = sample.iter().map(|&x| count(x)).max().unwrap();
    for &v in &result {
        assert_eq!(count(v), top);
    }
    for &x in &sample {
        if count(x) == top {
            assert!(result.contains(&x));
        }
    }
}

#[test]
fn mode_result_is_sorted_and_duplicate_free() {
    let sample = [5, 5, -3, -3, 10, 10];
    let result = mode(&sample).unwrap();
    assert_eq!(result, vec![-3, 5, 10]);
}

#[test]
fn empty_sample_is_refused_by_all_statistics() {
    let empty: [i32; 0] = [];
    assert_eq!(mean(&empty), Err(EmptyInputError));
    assert_eq!(median(&empty), Err(EmptyInputError));
    assert_eq!(mode(&empty), Err(EmptyInputError));
}

#[test]
fn single_element_sample() {
    let sample = [42];
    assert_eq!(mean(&sample).unwrap(), Ratio { num: 42, den: 1 });
    assert_eq!(median(&sample).unwrap(), Ratio { num: 42, den: 1 });
    assert_eq!(mode(&sample).unwrap(), vec![42]);
}

#[test]
fn mean_handles_extreme_values() {
    let sample = [i32::MAX, i32::MAX, i32::MIN];
    let m = mean(&sample).unwrap();
    assert_eq!(m.num, 2 * i32::MAX as i128 + i32::MIN as i128);
    assert_eq!(m.den, 3);
}
