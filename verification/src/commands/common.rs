//! Common values returned by four-letter-word commands.

use vstd::prelude::*;

verus! {

/// Sample of a metric, as returned by the server: a snapshot of one
/// statistical summary at collection time.
///
/// Not every field is reported by every server version; an absent field is
/// `None`, never zero, so "no data" and "value is zero" stay distinct.
/// The average arrives as floating-point text and is kept verbatim as that
/// text, since this crate does no floating-point arithmetic; the decoder
/// checks the text is a well-formed literal.
#[derive(Debug, Clone, PartialEq, Eq)]
pub struct ZK4LWMetricSample {
    /// Average, as floating-point text.
    pub avg: String,
    /// Maximum
    pub max: i64,
    /// Minimum
    pub min: i64,
    /// Count
    pub count: Option<i64>,
    /// Sum
    pub sum: Option<i64>,
    /// 50th percentile
    pub p50: Option<i64>,
    /// 95th percentile
    pub p95: Option<i64>,
    /// 99th percentile
    pub p99: Option<i64>,
    /// 99.9th percentile
    pub p999: Option<i64>,
}

impl ZK4LWMetricSample {
    /// A sample holding the three always-reported statistics, with the
    /// version-dependent ones absent.
    pub fn new(avg: String, max: i64, min: i64) -> (r: Self)
        ensures
            r.avg == avg,
            r.max == max,
            r.min == min,
            r.count is None,
            r.sum is None,
            r.p50 is None,
            r.p95 is None,
            r.p99 is None,
            r.p999 is None,
    {
        ZK4LWMetricSample {
            avg,
            max,
            min,
            count: None,
            sum: None,
            p50: None,
            p95: None,
            p99: None,
            p999: None,
        }
    }
}

impl Default for ZK4LWMetricSample {
    /// The zero sample: zero statistics, version-dependent fields absent.
    fn default() -> (r: Self)
        ensures
            r.avg@ == "0.0"@,
            r.max == 0,
            r.min == 0,
            r.count is None,
            r.sum is None,
            r.p50 is None,
            r.p95 is None,
            r.p99 is None,
            r.p999 is None,
    {
        ZK4LWMetricSample {
            avg: "0.0".to_owned(),
            max: 0,
            min: 0,
            count: None,
            sum: None,
            p50: None,
            p95: None,
            p99: None,
            p999: None,
        }
    }
}

} // verus!
