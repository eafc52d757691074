use exposition::MetricsError;
use exposition::encode::encode;
use exposition::family::MetricFamily;
use exposition::histogram::Histogram;
use exposition::histogram::exponential_buckets;
use exposition::registry::Registry;
use exposition::text::fixed_to_string;
use exposition::text::u64_to_string;

fn strings(values: &[&str]) -> Vec<String> {
    values.iter().map(|s| s.to_string()).collect()
}

#[test]
fn u64_rendering() {
    assert_eq!(u64_to_string(0), "0");
    assert_eq!(u64_to_string(7), "7");
    assert_eq!(u64_to_string(10), "10");
    assert_eq!(u64_to_string(1234567890), "1234567890");
    assert_eq!(u64_to_string(u64::MAX), "18446744073709551615");
}

#[test]
fn fixed_point_rendering() {
    assert_eq!(fixed_to_string(0), "0");
    assert_eq!(fixed_to_string(5), "0.005");
    assert_eq!(fixed_to_string(50), "0.05");
    assert_eq!(fixed_to_string(100), "0.1");
    assert_eq!(fixed_to_string(110), "0.11");
    assert_eq!(fixed_to_string(101), "0.101");
    assert_eq!(fixed_to_string(1000), "1");
    assert_eq!(fixed_to_string(1500), "1.5");
    assert_eq!(fixed_to_string(251600), "251.6");
    assert_eq!(fixed_to_string(2621440), "2621.44");
    assert_eq!(fixed_to_string(250000), "250");
}

#[test]
fn count_and_sum_accumulate() {
    let mut h = Histogram::new(vec![5, 10, 20]);
    let values: [u64; 4] = [3, 7, 50, 10];
    for v in values {
        h.observe(v);
    }
    assert_eq!(h.count(), 4);
    assert_eq!(h.sum(), 70);
}

#[test]
fn buckets_are_cumulative_and_monotone() {
    let mut h = Histogram::new(vec![5, 10, 20]);
    for v in [1u64, 6, 6, 15, 100] {
        h.observe(v);
    }
    // cumulative: <=5 -> 1, <=10 -> 3, <=20 -> 4, total 5
    assert_eq!(h.bucket(0), 1);
    assert_eq!(h.bucket(1), 3);
    assert_eq!(h.bucket(2), 4);
    assert_eq!(h.count(), 5);
    for i in 1..h.num_buckets() {
        assert!(h.bucket(i - 1) <= h.bucket(i));
        assert!(h.bucket(i) <= h.count());
    }
}

#[test]
fn exponential_boundaries_exact() {
    // start 0.005, factor 2, twenty boundaries
    let v = exponential_buckets(5, 2000, 20).unwrap();
    assert_eq!(v.len(), 20);
    assert_eq!(v[0], 5);
    let mut expected: u64 = 5;
    for k in 0..20 {
        assert_eq!(v[k], expected);
        if k + 1 < 20 {
            assert!(v[k] < v[k + 1]);
            expected *= 2;
        }
    }
    assert_eq!(v[19], 2621440); // 0.005 * 2^19 = 2621.44
}

#[test]
fn exponential_boundaries_rejects_bad_parameters() {
    assert!(exponential_buckets(0, 2000, 5).is_none()); // start must be positive
    assert!(exponential_buckets(5, 1000, 5).is_none()); // factor must exceed one
    assert!(exponential_buckets(5, 500, 5).is_none());
    assert!(exponential_buckets(5, 2000, 0).is_none()); // at least one bucket
}

#[test]
fn exponential_boundaries_rejects_overflow() {
    assert!(exponential_buckets(u64::MAX - 5, 2000, 2).is_none());
}

#[test]
fn exponential_boundaries_rejects_non_increasing_rounding() {
    // 5 * 1001 / 1000 rounds back down to 5
    assert!(exponential_buckets(5, 1001, 2).is_none());
}

#[test]
fn wrong_arity_fails_and_changes_nothing() {
    let mut f = MetricFamily::new(
        "t".to_string(),
        "h".to_string(),
        strings(&["a", "b"]),
        vec![5, 10],
    );
    assert_eq!(f.observe(&strings(&["x", "y"]), 7), Ok(()));
    assert_eq!(f.num_series(), 1);
    assert_eq!(f.series(0).count(), 1);
    // wrong arity: too few and too many values
    assert_eq!(
        f.observe(&strings(&["x"]), 3),
        Err(MetricsError::LabelCardinalityMismatch)
    );
    assert_eq!(
        f.observe(&strings(&["x", "y", "z"]), 3),
        Err(MetricsError::LabelCardinalityMismatch)
    );
    assert_eq!(f.num_series(), 1);
    assert_eq!(f.series(0).count(), 1);
    assert_eq!(f.series(0).sum(), 7);
}

#[test]
fn duplicate_name_fails_and_leaves_first_family() {
    let mut r = Registry::new();
    let mut first = MetricFamily::new(
        "dup".to_string(),
        "first".to_string(),
        strings(&["l"]),
        vec![5],
    );
    first.observe(&strings(&["v"]), 3).unwrap();
    assert_eq!(r.register(first), Ok(()));
    let second = MetricFamily::new(
        "dup".to_string(),
        "second".to_string(),
        strings(&["l"]),
        vec![5],
    );
    assert_eq!(r.register(second), Err(MetricsError::DuplicateMetricName));
    assert_eq!(r.num_families(), 1);
    assert_eq!(r.family(0).series(0).count(), 1);
    assert_eq!(r.family(0).series(0).sum(), 3);
}

#[test]
fn distinct_names_both_register() {
    let mut r = Registry::new();
    let a = MetricFamily::new("a".to_string(), "h".to_string(), strings(&[]), vec![5]);
    let b = MetricFamily::new("b".to_string(), "h".to_string(), strings(&[]), vec![5]);
    assert_eq!(r.register(a), Ok(()));
    assert_eq!(r.register(b), Ok(()));
    assert_eq!(r.num_families(), 2);
    assert_eq!(r.find_family(&"a".to_string()), Some(0));
    assert_eq!(r.find_family(&"b".to_string()), Some(1));
    assert_eq!(r.find_family(&"c".to_string()), None);
}

#[test]
fn one_histogram_per_tuple() {
    let mut f = MetricFamily::new(
        "t".to_string(),
        "h".to_string(),
        strings(&["k"]),
        vec![5],
    );
    assert_eq!(f.num_series(), 0);
    f.observe(&strings(&["x"]), 1).unwrap();
    assert_eq!(f.num_series(), 1);
    f.observe(&strings(&["x"]), 2).unwrap();
    assert_eq!(f.num_series(), 1);
    f.observe(&strings(&["y"]), 3).unwrap();
    assert_eq!(f.num_series(), 2);
    assert_eq!(f.series(0).count(), 2);
    assert_eq!(f.series(0).sum(), 3);
    assert_eq!(f.series(1).count(), 1);
}

#[test]
fn many_tuples_many_observations_total_count() {
    // N distinct tuples, M observations each: one histogram per tuple and
    // N*M observations in total.
    let n: usize = 4;
    let m: u64 = 25;
    let mut f = MetricFamily::new(
        "t".to_string(),
        "h".to_string(),
        strings(&["w"]),
        vec![5, 10],
    );
    for i in 0..n {
        let tuple = strings(&[&i.to_string()]);
        for _ in 0..m {
            f.observe(&tuple, 1).unwrap();
        }
    }
    assert_eq!(f.num_series(), n);
    let mut total: u64 = 0;
    for i in 0..n {
        total += f.series(i).count();
    }
    assert_eq!(total, n as u64 * m);
}

#[test]
fn observation_guard_reports_overflow() {
    let mut h = Histogram::new(vec![5]);
    assert!(h.can_observe(u64::MAX));
    h.observe(u64::MAX);
    assert!(!h.can_observe(1));
    assert!(h.can_observe(0));
}

#[test]
fn encode_small_registry_exactly() {
    let mut r = Registry::new();
    let f = MetricFamily::new(
        "req".to_string(),
        "request seconds".to_string(),
        strings(&["m"]),
        vec![1000, 2000],
    );
    r.register(f).unwrap();
    r.observe(0, &strings(&["GET"]), 1500).unwrap();
    r.observe(0, &strings(&["GET"]), 500).unwrap();
    let text = encode(&r.gather());
    let expected = "# HELP req request seconds\n\
                    # TYPE req histogram\n\
                    req_bucket{m=\"GET\",le=\"1\"} 1\n\
                    req_bucket{m=\"GET\",le=\"2\"} 2\n\
                    req_bucket{m=\"GET\",le=\"+Inf\"} 2\n\
                    req_sum{m=\"GET\"} 2\n\
                    req_count{m=\"GET\"} 2\n";
    assert_eq!(text, expected);
}

#[test]
fn encode_family_without_labels() {
    let mut r = Registry::new();
    let f = MetricFamily::new(
        "plain".to_string(),
        "no labels".to_string(),
        strings(&[]),
        vec![500],
    );
    r.register(f).unwrap();
    r.observe(0, &strings(&[]), 250).unwrap();
    let text = encode(&r.gather());
    let expected = "# HELP plain no labels\n\
                    # TYPE plain histogram\n\
                    plain_bucket{le=\"0.5\"} 1\n\
                    plain_bucket{le=\"+Inf\"} 1\n\
                    plain_sum 0.25\n\
                    plain_count 1\n";
    assert_eq!(text, expected);
}

#[test]
fn encode_two_label_family_exactly() {
    let mut r = Registry::new();
    let f = MetricFamily::new(
        "work".to_string(),
        "batched work".to_string(),
        strings(&["thread_num", "batch_size"]),
        vec![250],
    );
    r.register(f).unwrap();
    r.observe(0, &strings(&["1", "5"]), 125).unwrap();
    let text = encode(&r.gather());
    let expected = "# HELP work batched work\n\
                    # TYPE work histogram\n\
                    work_bucket{thread_num=\"1\",batch_size=\"5\",le=\"0.25\"} 1\n\
                    work_bucket{thread_num=\"1\",batch_size=\"5\",le=\"+Inf\"} 1\n\
                    work_sum{thread_num=\"1\",batch_size=\"5\"} 0.125\n\
                    work_count{thread_num=\"1\",batch_size=\"5\"} 1\n";
    assert_eq!(text, expected);
}

#[test]
fn encode_empty_registry_is_empty() {
    let r = Registry::new();
    assert_eq!(encode(&r.gather()), "");
}

#[test]
fn scrape_is_idempotent() {
    let mut r = Registry::new();
    let f = MetricFamily::new(
        "t".to_string(),
        "h".to_string(),
        strings(&["k"]),
        exponential_buckets(5, 2000, 20).unwrap(),
    );
    r.register(f).unwrap();
    r.observe(0, &strings(&["1"]), 100).unwrap();
    r.observe(0, &strings(&["2"]), 40).unwrap();
    let first = encode(&r.gather());
    let second = encode(&r.gather());
    assert_eq!(first, second);
}

#[test]
fn snapshot_is_isolated_from_later_observations() {
    let mut r = Registry::new();
    let f = MetricFamily::new("t".to_string(), "h".to_string(), strings(&["k"]), vec![5]);
    r.register(f).unwrap();
    r.observe(0, &strings(&["1"]), 3).unwrap();
    let snap = r.gather();
    let before = encode(&snap);
    r.observe(0, &strings(&["1"]), 4).unwrap();
    assert_eq!(encode(&snap), before);
    assert_ne!(encode(&r.gather()), before);
}

#[test]
fn end_to_end_exposition() {
    // Empty registry, twenty exponential buckets from 0.005, values
    // 0.1, 1.5 and 250 under thread_num="1".
    let mut r = Registry::new();
    let f = MetricFamily::new(
        "thread_times".to_string(),
        "Thread process times".to_string(),
        strings(&["thread_num"]),
        exponential_buckets(5, 2000, 20).unwrap(),
    );
    r.register(f).unwrap();
    let labels = strings(&["1"]);
    for v in [100u64, 1500, 250000] {
        assert!(r.can_observe(0, &labels, v));
        r.observe(0, &labels, v).unwrap();
    }
    let text = encode(&r.gather());
    assert!(text.starts_with("# HELP thread_times Thread process times\n# TYPE thread_times histogram\n"));
    assert!(text.contains("thread_times_bucket{thread_num=\"1\",le=\"0.005\"} 0\n"));
    assert!(text.contains("thread_times_bucket{thread_num=\"1\",le=\"0.08\"} 0\n"));
    assert!(text.contains("thread_times_bucket{thread_num=\"1\",le=\"0.16\"} 1\n"));
    assert!(text.contains("thread_times_bucket{thread_num=\"1\",le=\"1.28\"} 1\n"));
    assert!(text.contains("thread_times_bucket{thread_num=\"1\",le=\"2.56\"} 2\n"));
    assert!(text.contains("thread_times_bucket{thread_num=\"1\",le=\"2621.44\"} 3\n"));
    assert!(text.contains("thread_times_bucket{thread_num=\"1\",le=\"+Inf\"} 3\n"));
    assert!(text.contains("thread_times_sum{thread_num=\"1\"} 251.6\n"));
    assert!(text.contains("thread_times_count{thread_num=\"1\"} 3\n"));
    // exactly one series block: 20 bucket lines, +Inf, sum, count
    assert_eq!(text.lines().count(), 2 + 20 + 3);
}

#[test]
fn families_encode_in_registration_order() {
    let mut r = Registry::new();
    let b = MetricFamily::new("bbb".to_string(), "h".to_string(), strings(&[]), vec![5]);
    let a = MetricFamily::new("aaa".to_string(), "h".to_string(), strings(&[]), vec![5]);
    r.register(b).unwrap();
    r.register(a).unwrap();
    let text = encode(&r.gather());
    let pos_b = text.find("# HELP bbb").unwrap();
    let pos_a = text.find("# HELP aaa").unwrap();
    assert!(pos_b < pos_a);
}

#[test]
fn series_encode_in_first_created_order() {
    let mut r = Registry::new();
    let f = MetricFamily::new("t".to_string(), "h".to_string(), strings(&["k"]), vec![5]);
    r.register(f).unwrap();
    r.observe(0, &strings(&["zz"]), 1).unwrap();
    r.observe(0, &strings(&["aa"]), 1).unwrap();
    let text = encode(&r.gather());
    let pos_zz = text.find("k=\"zz\"").unwrap();
    let pos_aa = text.find("k=\"aa\"").unwrap();
    assert!(pos_zz < pos_aa);
}

#[test]
fn error_messages() {
    assert_eq!(
        MetricsError::DuplicateMetricName.message(),
        "duplicate metric name"
    );
    assert_eq!(
        MetricsError::LabelCardinalityMismatch.message(),
        "label cardinality mismatch"
    );
}
