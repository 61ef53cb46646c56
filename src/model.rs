//! Data types for life signals, warmth results and alerts.
//!
//! Every type here is aggregate-only: a bucket is a coarse category chosen by
//! configuration, a timestamp is assigned by the server, and a weight is a count.
use vstd::prelude::*;

verus! {

/// A single life signal: anonymous evidence of activity in a bucket.
///
/// `timestamp` is in unix seconds and is always assigned by the server;
/// `weight` is the number of entities the signal stands for.
#[derive(Clone, Debug)]
pub struct LifeSignal {
    pub bucket: String,
    pub timestamp: i64,
    pub weight: i32,
}

impl View for LifeSignal {
    type V = (Seq<char>, int, int);

    open spec fn view(&self) -> (Seq<char>, int, int) {
        (self.bucket@, self.timestamp as int, self.weight as int)
    }
}

/// The average weight per window over recent history, kept exactly as a
/// fraction: the total weight seen in the historical windows, divided by the
/// number of windows that held at least one signal. With no such window the
/// average is zero.
#[derive(Clone, Copy, Debug, PartialEq, Eq, Structural)]
pub struct WindowAverage {
    pub total: i64,
    pub windows: u32,
}

impl WindowAverage {
    /// True when the average is strictly positive.
    pub open spec fn is_positive(self) -> bool {
        self.windows > 0 && self.total > 0
    }
}

/// The health status of a bucket, from its current activity against its
/// recent average.
#[derive(Clone, Copy, Debug, PartialEq, Eq, Structural)]
pub enum WarmthStatus {
    /// Current activity is at least 80% of the recent average (or there is no baseline).
    Alive,
    /// Current activity is at least 20% and below 80% of the recent average.
    Stressed,
    /// Current activity is non-zero and below 20% of the recent average.
    Collapsing,
    /// No activity in the current window while the recent average is positive.
    Dead,
}

/// The status of `current` against the average `total / windows`.
///
/// `current / average < 1/5` is `5 * current * windows < total` once the
/// average is positive, and `< 4/5` is `5 * current * windows < 4 * total`.
pub open spec fn status_of(current: int, total: int, windows: int) -> WarmthStatus {
    if windows <= 0 || total <= 0 {
        WarmthStatus::Alive
    } else if current == 0 {
        WarmthStatus::Dead
    } else if 5 * current * windows < total {
        WarmthStatus::Collapsing
    } else if 5 * current * windows < 4 * total {
        WarmthStatus::Stressed
    } else {
        WarmthStatus::Alive
    }
}

impl WarmthStatus {
    /// Derive the status from the current window total and the recent average.
    pub fn from_activity(current: i64, recent_average: WindowAverage) -> (r: WarmthStatus)
        ensures
            r == status_of(current as int, recent_average.total as int, recent_average.windows as int),
    {
        if recent_average.windows == 0 || recent_average.total <= 0 {
            return WarmthStatus::Alive;
        }
        if current == 0 {
            return WarmthStatus::Dead;
        }
        let c: i128 = current as i128;
        let w: i128 = recent_average.windows as i128;
        assert(-0x8000_0000_0000_0000 * 0xffff_ffff <= c * w <= 0x7fff_ffff_ffff_ffff * 0xffff_ffff)
            by (nonlinear_arith)
            requires
                -0x8000_0000_0000_0000 <= c <= 0x7fff_ffff_ffff_ffff,
                0 < w <= 0xffff_ffff,
        ;
        let scaled: i128 = 5 * (c * w);
        assert(5 * (c as int) * (w as int) == scaled) by (nonlinear_arith)
            requires
                scaled == 5 * ((c as int) * (w as int)),
        ;
        let total: i128 = recent_average.total as i128;
        if scaled < total {
            WarmthStatus::Collapsing
        } else if scaled < 4 * total {
            WarmthStatus::Stressed
        } else {
            WarmthStatus::Alive
        }
    }
}

/// The warmth classification, case by case: no positive baseline means alive;
/// a positive baseline and an empty current window means dead; below a fifth
/// of the average means collapsing; from a fifth up to below four fifths means
/// stressed; four fifths or more means alive. Each boundary belongs to the
/// higher status.
pub proof fn lemma_warmth_thresholds(current: int, total: int, windows: int)
    requires
        windows >= 0,
    ensures
        !(windows > 0 && total > 0) ==> status_of(current, total, windows) == WarmthStatus::Alive,
        windows > 0 && total > 0 && current == 0 ==> status_of(current, total, windows)
            == WarmthStatus::Dead,
        windows > 0 && total > 0 && 0 < current && 5 * current * windows < total ==> status_of(
            current,
            total,
            windows,
        ) == WarmthStatus::Collapsing,
        windows > 0 && total > 0 && total <= 5 * current * windows && 5 * current * windows < 4
            * total ==> status_of(current, total, windows) == WarmthStatus::Stressed,
        4 * total <= 5 * current * windows ==> status_of(current, total, windows)
            == WarmthStatus::Alive,
{
    assert(current == 0 ==> current * windows == 0) by (nonlinear_arith);
    assert(5 * current * windows == 5 * (current * windows)) by (nonlinear_arith);
}

/// The weight a signal carries when the request names none.
pub fn default_weight() -> (r: i32)
    ensures
        r == 1,
{
    1
}

/// The window, in minutes, that a warmth query uses when the request names none.
pub fn default_window_minutes() -> (r: u32)
    ensures
        r == 10,
{
    10
}

/// The lookback, in minutes, that an alerts query uses when the request names none.
pub fn default_lookback_minutes() -> (r: u32)
    ensures
        r == 60,
{
    60
}

/// A request to record one signal: the bucket and its weight. The timestamp
/// is never taken from the client.
#[derive(Clone, Debug)]
pub struct SignalRequest {
    pub bucket: String,
    pub weight: i32,
}

/// Parameters of a warmth query.
#[derive(Clone, Debug)]
pub struct WarmthQuery {
    pub bucket: String,
    pub window_minutes: u32,
}

/// Parameters of an alerts query.
#[derive(Clone, Copy, Debug)]
pub struct AlertsQuery {
    pub minutes: u32,
}

/// The name of a status, as in `Alive`.
pub open spec fn status_name(s: WarmthStatus) -> Seq<char> {
    match s {
        WarmthStatus::Alive => "Alive"@,
        WarmthStatus::Stressed => "Stressed"@,
        WarmthStatus::Collapsing => "Collapsing"@,
        WarmthStatus::Dead => "Dead"@,
    }
}

impl WarmthStatus {
    /// The status's name, as in `Alive`.
    pub fn name(&self) -> (r: &'static str)
        ensures
            r@ == status_name(*self),
    {
        match self {
            WarmthStatus::Alive => "Alive",
            WarmthStatus::Stressed => "Stressed",
            WarmthStatus::Collapsing => "Collapsing",
            WarmthStatus::Dead => "Dead",
        }
    }
}

/// The warmth of one bucket: its current window total, its recent average
/// and the status derived from the two.
#[derive(Clone, Debug)]
pub struct WarmthResponse {
    pub bucket: String,
    pub window_minutes: u32,
    pub current_window_total: i64,
    pub recent_average: WindowAverage,
    pub status: WarmthStatus,
}

/// An alert for a bucket in distress.
#[derive(Clone, Debug)]
pub struct Alert {
    pub bucket: String,
    pub status: WarmthStatus,
    /// Unix seconds of the bucket's latest signal, if any.
    pub last_seen_timestamp: Option<i64>,
    pub recent_average: WindowAverage,
    pub message: String,
}

/// The alerts of one scan, with the lookback that was asked for.
#[derive(Clone, Debug)]
pub struct AlertsResponse {
    pub alerts: Vec<Alert>,
    pub lookback_minutes: u32,
}

} // verus!
