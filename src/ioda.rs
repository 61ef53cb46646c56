//! Records of the outage-detection provider, as the library reads them.
//! Signal values are kept in tenths.
use vstd::prelude::*;

use crate::text::floor_div;
use crate::time::{checked_unix_seconds, representable_seconds};

verus! {

/// The answer of an alerts query.
#[derive(Clone, Debug, Default)]
pub struct IodaAlertsResponse {
    pub data: Vec<IodaAlert>,
}

/// One outage alert.
#[derive(Clone, Debug, Default)]
pub struct IodaAlert {
    pub datasource: String,
    pub entity_type: String,
    pub entity_code: String,
    pub entity_name: String,
    /// Unix seconds.
    pub time: i64,
    pub level: String,
    pub condition: String,
    /// The signal value, in tenths.
    pub value: i64,
    /// The historical baseline of the signal, in tenths.
    pub history_value: i64,
}

/// The drop from `history` to `value` as a percentage of `history`, in
/// `1/scale` of a percent, rounded half up; zero unless `history` is positive.
pub open spec fn drop_scaled(history: int, value: int, scale: int) -> int {
    if history <= 0 {
        0
    } else {
        (2 * 100 * scale * (history - value) + history) / (2 * history)
    }
}

/// The drop in `1/scale` of a percent (see [`drop_scaled`]).
fn drop_in(history: i64, value: i64, scale: i128) -> (r: i128)
    requires
        scale == 10 || scale == 100,
    ensures
        r == drop_scaled(history as int, value as int, scale as int),
        -0x1_0000_0000_0000_0000_0000_0000 <= r <= 0x1_0000_0000_0000_0000_0000_0000,
{
    if history <= 0 {
        return 0;
    }
    let h = history as i128;
    let d = h - value as i128;
    assert(-0x1_0000_0000_0000_0000 * 20000 <= 200 * scale * d <= 0x1_0000_0000_0000_0000 * 20000) by (nonlinear_arith)
        requires
            -0x1_0000_0000_0000_0000 <= d <= 0x1_0000_0000_0000_0000,
            scale == 10 || scale == 100,
    ;
    let q = floor_div(200 * scale * d + h, 2 * h);
    q
}

impl IodaAlert {
    /// The time of the alert, when chrono can represent it.
    pub fn timestamp(&self) -> (r: Option<i64>)
        ensures
            r == (if representable_seconds(self.time as int) { Some(self.time) } else { None::<i64> }),
    {
        checked_unix_seconds(self.time)
    }

    /// The drop from the baseline in tenths of a percent; zero without a
    /// positive baseline.
    pub fn drop_percentage(&self) -> (r: i128)
        ensures
            r == drop_scaled(self.history_value as int, self.value as int, 10),
            -0x1_0000_0000_0000_0000_0000_0000 <= r <= 0x1_0000_0000_0000_0000_0000_0000,
    {
        drop_in(self.history_value, self.value, 10)
    }

    /// The drop from the baseline in hundredths of a percent.
    pub fn drop_hundredths(&self) -> (r: i128)
        ensures
            r == drop_scaled(self.history_value as int, self.value as int, 100),
            -0x1_0000_0000_0000_0000_0000_0000 <= r <= 0x1_0000_0000_0000_0000_0000_0000,
    {
        drop_in(self.history_value, self.value, 100)
    }
}

/// An outage event over a span of time. The score is in hundredths.
#[derive(Clone, Debug, Default)]
pub struct IodaEvent {
    pub entity_type: String,
    pub entity_code: String,
    pub entity_name: String,
    /// Unix seconds.
    pub from: i64,
    /// Unix seconds.
    pub until: i64,
    pub score: i64,
}

impl IodaEvent {
    /// The length of the event in seconds.
    pub fn duration_seconds(&self) -> (r: i128)
        ensures
            r == self.until - self.from,
    {
        self.until as i128 - self.from as i128
    }

    /// The start, when chrono can represent it.
    pub fn start_time(&self) -> (r: Option<i64>)
        ensures
            r == (if representable_seconds(self.from as int) { Some(self.from) } else { None::<i64> }),
    {
        checked_unix_seconds(self.from)
    }

    /// The end, when chrono can represent it.
    pub fn end_time(&self) -> (r: Option<i64>)
        ensures
            r == (if representable_seconds(self.until as int) { Some(self.until) } else { None::<i64> }),
    {
        checked_unix_seconds(self.until)
    }
}

} // verus!
