//! Records of the traffic-anomaly provider, as the library reads them.
use vstd::prelude::*;

use crate::time::{parse_rfc3339, rfc3339_seconds};

verus! {

/// An error the provider reports.
#[derive(Clone, Debug, Default)]
pub struct CloudflareError {
    pub code: i32,
    pub message: String,
}

/// A date range of a time series.
#[derive(Clone, Debug, Default)]
pub struct CloudflareDateRange {
    pub start_time: String,
    pub end_time: String,
}

/// Metadata of a time series.
#[derive(Clone, Debug, Default)]
pub struct CloudflareMeta {
    pub date_range: Vec<CloudflareDateRange>,
    pub agg_interval: String,
    pub normalization: String,
}

/// The answer of the anomalies query.
#[derive(Clone, Debug, Default)]
pub struct CloudflareAnomaliesResponse {
    pub success: bool,
    pub errors: Vec<CloudflareError>,
    pub result: Option<CloudflareAnomaliesResult>,
}

/// The anomalies found.
#[derive(Clone, Debug, Default)]
pub struct CloudflareAnomaliesResult {
    pub anomalies: Vec<CloudflareAnomaly>,
}

/// One traffic anomaly.
#[derive(Clone, Debug, Default)]
pub struct CloudflareAnomaly {
    pub id: String,
    /// Country code.
    pub location: String,
    pub location_name: String,
    pub anomaly_type: String,
    /// RFC 3339 start time.
    pub start_time: String,
    /// RFC 3339 end time; empty while the anomaly lasts.
    pub end_time: String,
    pub verified: bool,
    pub description: String,
}

/// The end of an anomaly in unix seconds: none while it lasts or when the
/// text does not parse.
pub open spec fn anomaly_end(a: CloudflareAnomaly) -> Option<int> {
    if a.end_time@.len() == 0 {
        None
    } else {
        rfc3339_seconds(a.end_time@)
    }
}

impl CloudflareAnomaly {
    /// True while the anomaly has no end time.
    pub fn is_ongoing(&self) -> (r: bool)
        ensures
            r == (self.end_time@.len() == 0),
    {
        self.end_time.as_str().unicode_len() == 0
    }

    /// The start in unix seconds, when it parses as RFC 3339.
    pub fn start_datetime(&self) -> (r: Option<i64>)
        ensures
            r matches Some(t) ==> rfc3339_seconds(self.start_time@) == Some(t as int),
            r is None ==> rfc3339_seconds(self.start_time@) is None,
    {
        parse_rfc3339(self.start_time.as_str())
    }

    /// The end in unix seconds (see [`anomaly_end`]).
    pub fn end_datetime(&self) -> (r: Option<i64>)
        ensures
            r matches Some(t) ==> anomaly_end(*self) == Some(t as int),
            r is None ==> anomaly_end(*self) is None,
    {
        if self.end_time.as_str().unicode_len() == 0 {
            None
        } else {
            parse_rfc3339(self.end_time.as_str())
        }
    }
}

} // verus!
