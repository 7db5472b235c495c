//! Metric windows of a load balancer: the queries they are made of, their
//! raw sums, the statistics derived from them and the limits of a canary.

use vstd::prelude::*;

verus! {

/// A statistic that the metrics provider computes over a window.
#[derive(Clone, Copy, Debug, PartialEq, Eq, Structural)]
pub enum Statistic {
    Sum,
    Average,
}

/// One of the four load-balancer metrics that a window is made of.
#[derive(Clone, Copy, Debug, PartialEq, Eq, Structural)]
pub enum MetricQuery {
    RequestCount,
    ConnectionErrors,
    BackendErrors,
    Latency,
}

impl MetricQuery {
    /// The statistic asked of the metric: the average of the latency, the
    /// sum of each count.
    pub open spec fn statistic_of(self) -> Statistic {
        match self {
            MetricQuery::Latency => Statistic::Average,
            _ => Statistic::Sum,
        }
    }

    /// The provider's name for the metric.
    pub open spec fn name_of(self) -> Seq<char> {
        match self {
            MetricQuery::RequestCount => "RequestCount"@,
            MetricQuery::ConnectionErrors => "BackendConnectionErrors"@,
            MetricQuery::BackendErrors => "HTTPCode_Backend_5XX"@,
            MetricQuery::Latency => "Latency"@,
        }
    }

    pub fn statistic(&self) -> (r: Statistic)
        ensures
            r == self.statistic_of(),
    {
        match self {
            MetricQuery::Latency => Statistic::Average,
            _ => Statistic::Sum,
        }
    }

    pub fn metric_name(&self) -> (r: &'static str)
        ensures
            r@ == self.name_of(),
    {
        match self {
            MetricQuery::RequestCount => "RequestCount",
            MetricQuery::ConnectionErrors => "BackendConnectionErrors",
            MetricQuery::BackendErrors => "HTTPCode_Backend_5XX",
            MetricQuery::Latency => "Latency",
        }
    }
}

impl Statistic {
    pub open spec fn name_of(self) -> Seq<char> {
        match self {
            Statistic::Sum => "Sum"@,
            Statistic::Average => "Average"@,
        }
    }

    /// The provider's name for the statistic.
    pub fn name(&self) -> (r: &'static str)
        ensures
            r@ == self.name_of(),
    {
        match self {
            Statistic::Sum => "Sum",
            Statistic::Average => "Average",
        }
    }
}

/// The queries that make up one window, in the order in which they are
/// asked.
pub fn window_queries() -> (r: Vec<MetricQuery>)
    ensures
        r@ == seq![
            MetricQuery::RequestCount,
            MetricQuery::ConnectionErrors,
            MetricQuery::BackendErrors,
            MetricQuery::Latency,
        ],
{
    let mut queries: Vec<MetricQuery> = Vec::new();
    queries.push(MetricQuery::RequestCount);
    queries.push(MetricQuery::ConnectionErrors);
    queries.push(MetricQuery::BackendErrors);
    queries.push(MetricQuery::Latency);
    proof {
        assert(queries@ =~= seq![
            MetricQuery::RequestCount,
            MetricQuery::ConnectionErrors,
            MetricQuery::BackendErrors,
            MetricQuery::Latency,
        ]);
    }
    queries
}

/// The window lengths, in minutes, that a statistics report covers.
pub fn report_intervals() -> (r: Vec<u64>)
    ensures
        r@ == seq![1u64, 5u64, 15u64, 60u64],
{
    let mut minutes: Vec<u64> = Vec::new();
    minutes.push(1);
    minutes.push(5);
    minutes.push(15);
    minutes.push(60);
    proof {
        assert(minutes@ =~= seq![1u64, 5u64, 15u64, 60u64]);
    }
    minutes
}

/// Seconds covered by a window of `interval_minutes` minutes.
pub open spec fn period_of(interval_minutes: int) -> int {
    interval_minutes * 60
}

/// The query period, in seconds, for a window of `interval_minutes`
/// minutes, as the provider takes it; `None` when the product is beyond
/// what a period can hold.
pub fn period_seconds(interval_minutes: u64) -> (r: Option<i64>)
    ensures
        r.is_some() <==> period_of(interval_minutes as int) <= i64::MAX,
        r.is_some() ==> r.unwrap() as int == period_of(interval_minutes as int),
{
    match interval_minutes.checked_mul(60) {
        Some(seconds) => {
            if seconds <= 0x7fff_ffff_ffff_ffff {
                Some(seconds as i64)
            } else {
                None
            }
        },
        None => None,
    }
}

/// What the metrics provider answered to one query: the call failed, or it
/// returned datapoints, each with the asked statistic or without it.
#[derive(Clone, Debug, PartialEq, Eq)]
pub enum Reading {
    Failed,
    Points(Vec<Option<u64>>),
}

/// The value that a reading stands for: the statistic of its first
/// datapoint, and zero when the call failed, when there is no datapoint, or
/// when the first datapoint lacks the statistic.
pub open spec fn value_of(reading: Reading) -> u64 {
    match reading {
        Reading::Failed => 0,
        Reading::Points(points) => if points@.len() == 0 {
            0
        } else {
            match points@[0] {
                Some(v) => v,
                None => 0,
            }
        },
    }
}

/// The value that a reading stands for.
pub fn reading_value(reading: &Reading) -> (r: u64)
    ensures
        r == value_of(*reading),
{
    match reading {
        Reading::Failed => 0,
        Reading::Points(points) => {
            if points.len() == 0 {
                0
            } else {
                match points[0] {
                    Some(v) => v,
                    None => 0,
                }
            }
        },
    }
}

/// The raw sums of one metrics window. Counts are whole numbers; the
/// average latency is held in microseconds.
#[derive(Clone, Copy, Debug, PartialEq, Eq, Structural)]
pub struct MetricSample {
    pub interval_minutes: u64,
    pub requests: u64,
    pub connection_errors: u64,
    pub backend_errors: u64,
    pub latency_micros: u64,
}

impl MetricSample {
    /// The sample of a window in which nothing was counted.
    pub open spec fn quiet(interval_minutes: u64) -> MetricSample {
        MetricSample {
            interval_minutes,
            requests: 0,
            connection_errors: 0,
            backend_errors: 0,
            latency_micros: 0,
        }
    }

    /// The sample of a window in which nothing was counted.
    pub fn empty(interval_minutes: u64) -> (r: MetricSample)
        ensures
            r == Self::quiet(interval_minutes),
    {
        MetricSample {
            interval_minutes,
            requests: 0,
            connection_errors: 0,
            backend_errors: 0,
            latency_micros: 0,
        }
    }
}

/// The sample of a window of `interval_minutes` minutes from the four
/// readings of the metrics provider, each taken at its value.
pub fn elb_stats(
    interval_minutes: u64,
    requests: &Reading,
    connection_errors: &Reading,
    backend_errors: &Reading,
    latency: &Reading,
) -> (r: MetricSample)
    ensures
        r == (MetricSample {
            interval_minutes,
            requests: value_of(*requests),
            connection_errors: value_of(*connection_errors),
            backend_errors: value_of(*backend_errors),
            latency_micros: value_of(*latency),
        }),
{
    MetricSample {
        interval_minutes,
        requests: reading_value(requests),
        connection_errors: reading_value(connection_errors),
        backend_errors: reading_value(backend_errors),
        latency_micros: reading_value(latency),
    }
}

/// Parts of a million in one whole.
pub const MILLION: u64 = 1_000_000;

/// Statistics derived from a sample, as whole numbers: the error rate in
/// parts per million, the request rate in thousandths of a request per
/// second. Both are rounded down.
#[derive(Clone, Copy, Debug, PartialEq, Eq, Structural)]
pub struct DerivedStats {
    pub error_rate_ppm: u128,
    pub milli_requests_per_sec: u128,
}

/// Backend errors per million requests, rounded down; zero when there were
/// no requests.
pub open spec fn error_rate_ppm_of(s: MetricSample) -> int {
    if s.requests == 0 {
        0
    } else {
        (s.backend_errors * MILLION) / (s.requests as int)
    }
}

/// Thousandths of a request per second over the window, rounded down; zero
/// when there were no requests or the window has no length.
pub open spec fn milli_rate_of(s: MetricSample) -> int {
    if s.requests == 0 || s.interval_minutes == 0 {
        0
    } else {
        (s.requests * 1000) / period_of(s.interval_minutes as int)
    }
}

proof fn lemma_product_fits(a: u64, b: u64)
    ensures
        a * b <= u128::MAX,
{
    assert(a * b <= 0xffff_ffff_ffff_ffff * 0xffff_ffff_ffff_ffff) by (nonlinear_arith)
        requires
            0 <= a <= 0xffff_ffff_ffff_ffff,
            0 <= b <= 0xffff_ffff_ffff_ffff,
    ;
}

/// The derived statistics of a sample. A division by zero does not occur:
/// without requests both rates are zero.
pub fn derive_stats(sample: &MetricSample) -> (r: DerivedStats)
    ensures
        r.error_rate_ppm == error_rate_ppm_of(*sample),
        r.milli_requests_per_sec == milli_rate_of(*sample),
        sample.requests == 0 ==> r.error_rate_ppm == 0 && r.milli_requests_per_sec == 0,
{
    let error_rate_ppm: u128 = if sample.requests == 0 {
        0
    } else {
        proof {
            lemma_product_fits(sample.backend_errors, MILLION);
        }
        let scaled: u128 = (sample.backend_errors as u128) * (MILLION as u128);
        scaled / (sample.requests as u128)
    };
    let milli_requests_per_sec: u128 = if sample.requests == 0 || sample.interval_minutes == 0 {
        0
    } else {
        let scaled: u128 = (sample.requests as u128) * 1000;
        let seconds: u128 = (sample.interval_minutes as u128) * 60;
        scaled / seconds
    };
    DerivedStats { error_rate_ppm, milli_requests_per_sec }
}

/// Whether the error rate of the sample, backend errors over requests, is
/// strictly above `max_ppm` parts per million. The rate of a sample without
/// requests is zero.
pub open spec fn error_rate_above(s: MetricSample, max_ppm: u64) -> bool {
    s.requests > 0 && s.backend_errors * MILLION > max_ppm * s.requests
}

/// Whether the average latency of the sample is strictly above
/// `max_micros` microseconds.
pub open spec fn latency_above(s: MetricSample, max_micros: u64) -> bool {
    s.latency_micros > max_micros
}

/// Which limit a canary went beyond.
#[derive(Clone, Copy, Debug, PartialEq, Eq, Structural)]
pub enum ThresholdBreach {
    ErrorRate,
    Latency,
    ErrorRateAndLatency,
}

/// The breach that a sample amounts to under the two limits, if any.
pub open spec fn breach_of(s: MetricSample, max_ppm: u64, max_micros: u64) -> Option<
    ThresholdBreach,
> {
    if error_rate_above(s, max_ppm) && latency_above(s, max_micros) {
        Some(ThresholdBreach::ErrorRateAndLatency)
    } else if error_rate_above(s, max_ppm) {
        Some(ThresholdBreach::ErrorRate)
    } else if latency_above(s, max_micros) {
        Some(ThresholdBreach::Latency)
    } else {
        None
    }
}

/// Holds a sample against the two limits of a deployment.
pub fn check_thresholds(sample: &MetricSample, max_error_rate_ppm: u64, max_latency_micros: u64) -> (r:
    Option<ThresholdBreach>)
    ensures
        r == breach_of(*sample, max_error_rate_ppm, max_latency_micros),
{
    proof {
        lemma_product_fits(sample.backend_errors, MILLION);
        lemma_product_fits(max_error_rate_ppm, sample.requests);
    }
    let errors: u128 = (sample.backend_errors as u128) * (MILLION as u128);
    let allowed: u128 = (max_error_rate_ppm as u128) * (sample.requests as u128);
    let rate_high = sample.requests > 0 && errors > allowed;
    let latency_high = sample.latency_micros > max_latency_micros;
    if rate_high && latency_high {
        Some(ThresholdBreach::ErrorRateAndLatency)
    } else if rate_high {
        Some(ThresholdBreach::ErrorRate)
    } else if latency_high {
        Some(ThresholdBreach::Latency)
    } else {
        None
    }
}

} // verus!
