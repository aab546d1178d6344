use drain_bench::stats::Ratio;
use drain_bench::stats::SampleStatistics;

fn as_f64(r: Option<Ratio>) -> f64 {
    match r {
        Some(r) => r.num as f64 / r.den as f64,
        None => f64::NAN,
    }
}

fn mean(s: &SampleStatistics) -> f64 {
    as_f64(s.mean())
}

fn variance(s: &SampleStatistics) -> f64 {
    as_f64(s.variance())
}

fn deviation(s: &SampleStatistics) -> f64 {
    variance(s).sqrt()
}

#[test]
fn stats_0() {
    let s: SampleStatistics = Default::default();
    assert!(mean(&s).is_nan());
    assert!(variance(&s).is_nan());
    assert!(deviation(&s).is_nan());
}

#[test]
fn stats_1() {
    let mut s: SampleStatistics = Default::default();
    s.put(-1);
    assert_eq!(mean(&s), -1.0);
    assert!(variance(&s).is_nan());
    assert!(deviation(&s).is_nan());
}

#[test]
fn stats_2() {
    let mut s: SampleStatistics = Default::default();
    s.put(-1);
    s.put(1);
    assert_eq!(mean(&s), 0.0);
    assert_eq!(variance(&s), 2.0);
    assert_eq!(deviation(&s), 2.0_f64.sqrt());
}

#[test]
fn stats_3() {
    let mut s: SampleStatistics = Default::default();
    s.put(89);
    s.put(90);
    s.put(91);
    assert_eq!(mean(&s), 90.0);
    assert_eq!(variance(&s), 1.0);
    assert_eq!(deviation(&s), 1.0);
}

#[test]
fn stats_9() {
    let mut s: SampleStatistics = Default::default();
    s.put(2);
    s.put(4);
    s.put(4);
    s.put(4);
    s.put(5);
    s.put(5);
    s.put(5);
    s.put(7);
    s.put(9);
    assert_eq!(mean(&s), 5.0);
    assert_eq!(variance(&s), 4.0);
    assert_eq!(deviation(&s), 2.0);
}

#[test]
fn exact_mean_and_variance_of_two_samples() {
    let mut s = SampleStatistics::new();
    s.put(1);
    s.put(2);
    assert_eq!(s.mean(), Some(Ratio { num: 3, den: 2 }));
    assert_eq!(s.variance(), Some(Ratio { num: 1, den: 2 }));
    assert_eq!(s.count(), 2);
}

#[test]
fn exact_variance_of_nine_samples() {
    let mut s = SampleStatistics::new();
    for v in [2, 4, 4, 4, 5, 5, 5, 7, 9] {
        s.put(v);
    }
    assert_eq!(s.mean(), Some(Ratio { num: 45, den: 9 }));
    assert_eq!(s.variance(), Some(Ratio { num: 288, den: 72 }));
}

#[test]
fn mean_lies_between_extrema() {
    let mut s = SampleStatistics::new();
    for v in [3, -7, 12, 0, 5] {
        s.put(v);
    }
    let m = s.mean().unwrap();
    assert!((s.min() as i128) * (m.den as i128) <= m.num);
    assert!(m.num <= (s.max() as i128) * (m.den as i128));
    assert_eq!(s.min(), -7);
    assert_eq!(s.max(), 12);
}

#[test]
fn variance_is_never_negative() {
    let mut s = SampleStatistics::new();
    s.put(-5);
    s.put(1_000_000);
    s.put(3);
    let v = s.variance().unwrap();
    assert!(v.num >= 0);
    assert!(v.den > 0);
}

#[test]
fn identical_samples_give_exact_mean_and_zero_variance() {
    let mut s = SampleStatistics::new();
    for _ in 0..5 {
        s.put(7);
    }
    assert_eq!(s.mean(), Some(Ratio { num: 7, den: 1 }));
    assert_eq!(s.variance(), Some(Ratio { num: 0, den: 1 }));
}

#[test]
fn single_sample_has_mean_but_no_variance() {
    let mut s = SampleStatistics::new();
    assert_eq!(s.mean(), None);
    assert_eq!(s.variance(), None);
    s.put(42);
    assert_eq!(s.mean(), Some(Ratio { num: 42, den: 1 }));
    assert_eq!(s.variance(), None);
}

#[test]
fn queries_repeat_without_change() {
    let mut s = SampleStatistics::new();
    s.put(10);
    s.put(13);
    assert_eq!(s.mean(), s.mean());
    assert_eq!(s.variance(), s.variance());
    assert_eq!(deviation(&s), deviation(&s));
}

#[test]
fn extrema_before_and_after_samples() {
    let mut s = SampleStatistics::new();
    assert_eq!(s.min(), 0);
    assert_eq!(s.max(), 0);
    s.put(-3);
    assert_eq!(s.min(), -3);
    assert_eq!(s.max(), -3);
    s.put(8);
    s.put(2);
    assert_eq!(s.min(), -3);
    assert_eq!(s.max(), 8);
}

#[test]
fn extreme_samples_do_not_overflow() {
    let mut s = SampleStatistics::new();
    s.put(i32::MIN);
    s.put(i32::MAX);
    let m = s.mean().unwrap();
    assert_eq!(m, Ratio { num: -1, den: 2 });
    let v = s.variance().unwrap();
    let expected = 2 * ((i32::MIN as i128).pow(2) + (i32::MAX as i128).pow(2)) - 1;
    assert_eq!(v, Ratio { num: expected, den: 2 });
}
