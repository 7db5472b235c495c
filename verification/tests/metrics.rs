use fleet_deploy::metrics::{
    check_thresholds, derive_stats, elb_stats, period_seconds, reading_value, report_intervals,
    window_queries, DerivedStats, MetricQuery, MetricSample, Reading, Statistic, ThresholdBreach,
};

fn sample(minutes: u64, requests: u64, errors: u64, latency: u64) -> MetricSample {
    MetricSample {
        interval_minutes: minutes,
        requests,
        connection_errors: 0,
        backend_errors: errors,
        latency_micros: latency,
    }
}

#[test]
fn quiet_window_has_zero_rates() {
    let stats = derive_stats(&sample(5, 0, 0, 0));
    assert_eq!(stats, DerivedStats { error_rate_ppm: 0, milli_requests_per_sec: 0 });
    let odd = derive_stats(&sample(0, 0, 7, 3));
    assert_eq!(odd, DerivedStats { error_rate_ppm: 0, milli_requests_per_sec: 0 });
}

#[test]
fn rates_are_exact() {
    let stats = derive_stats(&sample(5, 3000, 15, 0));
    assert_eq!(stats.error_rate_ppm, 5000);
    assert_eq!(stats.milli_requests_per_sec, 10_000);
    let thirds = derive_stats(&sample(1, 100, 1, 0));
    assert_eq!(thirds.error_rate_ppm, 10_000);
    assert_eq!(thirds.milli_requests_per_sec, 1666);
    let rounded = derive_stats(&sample(60, 7, 2, 0));
    assert_eq!(rounded.error_rate_ppm, 285_714);
    assert_eq!(rounded.milli_requests_per_sec, 1);
}

#[test]
fn rates_do_not_overflow() {
    let stats = derive_stats(&sample(u64::MAX, 1, u64::MAX, 0));
    assert_eq!(stats.error_rate_ppm, u64::MAX as u128 * 1_000_000);
    assert_eq!(stats.milli_requests_per_sec, 0);
    let windowless = derive_stats(&sample(0, 10, 0, 0));
    assert_eq!(windowless.milli_requests_per_sec, 0);
}

#[test]
fn thresholds_are_strict() {
    assert_eq!(check_thresholds(&sample(5, 1000, 10, 500), 10_000, 500), None);
    assert_eq!(
        check_thresholds(&sample(5, 1000, 11, 500), 10_000, 500),
        Some(ThresholdBreach::ErrorRate)
    );
    assert_eq!(
        check_thresholds(&sample(5, 1000, 10, 501), 10_000, 500),
        Some(ThresholdBreach::Latency)
    );
    assert_eq!(
        check_thresholds(&sample(5, 1000, 11, 501), 10_000, 500),
        Some(ThresholdBreach::ErrorRateAndLatency)
    );
    assert_eq!(check_thresholds(&sample(5, 0, 11, 0), 0, 0), None);
    assert_eq!(check_thresholds(&sample(5, 3, 1, 0), 333_333, 0), Some(ThresholdBreach::ErrorRate));
    assert_eq!(check_thresholds(&sample(5, 3, 1, 0), 333_334, 0), None);
    assert_eq!(
        check_thresholds(&sample(5, u64::MAX, u64::MAX, 0), 999_999, 0),
        Some(ThresholdBreach::ErrorRate)
    );
    assert_eq!(check_thresholds(&sample(5, u64::MAX, u64::MAX, 0), 1_000_000, 0), None);
}

#[test]
fn readings_tolerate_failure_and_missing_datapoints() {
    assert_eq!(reading_value(&Reading::Failed), 0);
    assert_eq!(reading_value(&Reading::Points(Vec::new())), 0);
    assert_eq!(reading_value(&Reading::Points(vec![None, Some(4)])), 0);
    assert_eq!(reading_value(&Reading::Points(vec![Some(9), Some(4)])), 9);
}

#[test]
fn a_sample_is_made_of_four_readings() {
    let s = elb_stats(
        15,
        &Reading::Points(vec![Some(100)]),
        &Reading::Failed,
        &Reading::Points(vec![Some(3)]),
        &Reading::Points(Vec::new()),
    );
    assert_eq!(
        s,
        MetricSample {
            interval_minutes: 15,
            requests: 100,
            connection_errors: 0,
            backend_errors: 3,
            latency_micros: 0,
        }
    );
    assert_eq!(MetricSample::empty(5), sample(5, 0, 0, 0));
}

#[test]
fn queries_name_metric_and_statistic() {
    let queries = window_queries();
    assert_eq!(
        queries,
        vec![
            MetricQuery::RequestCount,
            MetricQuery::ConnectionErrors,
            MetricQuery::BackendErrors,
            MetricQuery::Latency,
        ]
    );
    let names: Vec<&str> = queries.iter().map(|q| q.metric_name()).collect();
    assert_eq!(
        names,
        vec!["RequestCount", "BackendConnectionErrors", "HTTPCode_Backend_5XX", "Latency"]
    );
    let stats: Vec<&str> = queries.iter().map(|q| q.statistic().name()).collect();
    assert_eq!(stats, vec!["Sum", "Sum", "Sum", "Average"]);
    assert_eq!(MetricQuery::Latency.statistic(), Statistic::Average);
}

#[test]
fn periods_and_intervals() {
    assert_eq!(period_seconds(5), Some(300));
    assert_eq!(period_seconds(0), Some(0));
    assert_eq!(period_seconds(i64::MAX as u64 / 60), Some(i64::MAX / 60 * 60));
    assert_eq!(period_seconds(i64::MAX as u64 / 60 + 1), None);
    assert_eq!(period_seconds(u64::MAX / 60), None);
    assert_eq!(period_seconds(u64::MAX), None);
    assert_eq!(report_intervals(), vec![1, 5, 15, 60]);
}
