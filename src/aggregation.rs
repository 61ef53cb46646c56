//! The warmth engine and the alert scanner.
use vstd::prelude::*;

use crate::model::{
    status_of, status_name, Alert, AlertsResponse, WarmthResponse, WarmthStatus, WindowAverage,
};
use crate::storage::{
    buckets_since, last_seen, recent_average, seen_since, string_views, window_sum, SignalView, Storage,
};
use crate::text::{push_signed_decimal, push_tenths, signed_decimal, tenths_text};

verus! {

/// How many past windows the recent average looks at.
pub const NUM_HISTORICAL_WINDOWS: u32 = 6;

/// The largest window an alert scan uses, in minutes.
pub const MAX_ALERT_WINDOW_MINUTES: u32 = 10;

/// The status of `bucket` in `log` for a window of `window_minutes` at `now`.
pub open spec fn warmth_status(log: Seq<SignalView>, bucket: Seq<char>, window_minutes: int, now: int) -> WarmthStatus {
    let avg = recent_average(log, bucket, window_minutes, NUM_HISTORICAL_WINDOWS as int, now);
    status_of(window_sum(log, bucket, window_minutes, now), avg.0, avg.1)
}

/// The average `total / windows` in tenths, rounded half up; zero without windows.
pub open spec fn average_tenths(total: int, windows: int) -> int {
    if windows <= 0 {
        0
    } else {
        (20 * total + windows) / (2 * windows)
    }
}

/// `current` as a percentage of the average `total / windows`, rounded half
/// up; zero unless the average is positive.
pub open spec fn percent_of_average(current: int, total: int, windows: int) -> int {
    if windows <= 0 || total <= 0 {
        0
    } else {
        (200 * current * windows + total) / (2 * total)
    }
}

/// The message of an alert on `bucket`.
pub open spec fn alert_message(
    bucket: Seq<char>,
    status: WarmthStatus,
    current: int,
    total: int,
    windows: int,
) -> Seq<char> {
    match status {
        WarmthStatus::Dead => "CRITICAL: Bucket '"@ + bucket
            + "' has gone completely silent. No signals received in the current window. Historical average was "@
            + tenths_text(average_tenths(total, windows)) + " signals per window."@,
        WarmthStatus::Collapsing => "WARNING: Bucket '"@ + bucket + "' is collapsing. Current activity ("@
            + signed_decimal(current) + ") is only "@ + signed_decimal(
            percent_of_average(current, total, windows),
        ) + "% of recent average ("@ + tenths_text(average_tenths(total, windows)) + ")."@,
        _ => "Bucket '"@ + bucket + "' status: "@ + status_name(status),
    }
}

/// The warmth of `bucket` for a window of `window_minutes` ending at `now`
/// (unix seconds), against the average of the six windows before it.
pub fn compute_warmth(storage: &Storage, bucket: &str, window_minutes: u32, now: i64) -> (r: WarmthResponse)
    requires
        storage.wf(),
    ensures
        r.bucket@ == bucket@,
        r.window_minutes == window_minutes,
        r.current_window_total == window_sum(storage@, bucket@, window_minutes as int, now as int),
        (r.recent_average.total as int, r.recent_average.windows as int) == recent_average(
            storage@,
            bucket@,
            window_minutes as int,
            NUM_HISTORICAL_WINDOWS as int,
            now as int,
        ),
        r.status == warmth_status(storage@, bucket@, window_minutes as int, now as int),
{
    let current = storage.query_bucket_window(bucket, window_minutes, now);
    let average = storage.compute_recent_average(bucket, window_minutes, NUM_HISTORICAL_WINDOWS, now);
    let status = WarmthStatus::from_activity(current, average);
    WarmthResponse {
        bucket: bucket.to_string(),
        window_minutes,
        current_window_total: current,
        recent_average: average,
        status,
    }
}

/// The human-readable message of an alert on `bucket`.
pub fn generate_alert_message(bucket: &str, status: WarmthStatus, warmth: &WarmthResponse) -> (r: String)
    ensures
        r@ == alert_message(
            bucket@,
            status,
            warmth.current_window_total as int,
            warmth.recent_average.total as int,
            warmth.recent_average.windows as int,
        ),
{
    let total = warmth.recent_average.total as i128;
    let windows = warmth.recent_average.windows as i128;
    let tenths: i128 = if windows == 0 {
        0
    } else {
        floor_div_bounded(20 * total + windows, 2 * windows)
    };
    match status {
        WarmthStatus::Dead => {
            let mut s = String::from_str("CRITICAL: Bucket '");
            s.append(bucket);
            s.append(
                "' has gone completely silent. No signals received in the current window. Historical average was ",
            );
            push_tenths(&mut s, tenths);
            s.append(" signals per window.");
            s
        },
        WarmthStatus::Collapsing => {
            let current = warmth.current_window_total as i128;
            let pct: i128 = if windows == 0 || total <= 0 {
                0
            } else {
                assert(-0x8000_0000_0000_0000 * 0xffff_ffff <= current * windows <= 0x7fff_ffff_ffff_ffff
                    * 0xffff_ffff) by (nonlinear_arith)
                    requires
                        -0x8000_0000_0000_0000 <= current <= 0x7fff_ffff_ffff_ffff,
                        0 < windows <= 0xffff_ffff,
                ;
                let scaled = 200 * (current * windows);
                assert(200 * (current as int) * (windows as int) == scaled) by (nonlinear_arith)
                    requires
                        scaled == 200 * ((current as int) * (windows as int)),
                ;
                floor_div_bounded(scaled + total, 2 * total)
            };
            let mut s = String::from_str("WARNING: Bucket '");
            s.append(bucket);
            s.append("' is collapsing. Current activity (");
            push_signed_decimal(&mut s, current);
            s.append(") is only ");
            push_signed_decimal(&mut s, pct);
            s.append("% of recent average (");
            push_tenths(&mut s, tenths);
            s.append(").");
            s
        },
        _ => {
            let mut s = String::from_str("Bucket '");
            s.append(bucket);
            s.append("' status: ");
            s.append(status.name());
            s
        },
    }
}

/// `a / b` rounded down, for operands well inside the `i128` range.
fn floor_div_bounded(a: i128, b: i128) -> (q: i128)
    requires
        b > 0,
        -0x1_0000_0000_0000_0000_0000_0000_0000 <= a <= 0x1_0000_0000_0000_0000_0000_0000_0000,
    ensures
        q == a as int / b as int,
        -0x1_0000_0000_0000_0000_0000_0000_0000 <= q <= 0x1_0000_0000_0000_0000_0000_0000_0000,
{
    crate::text::floor_div(a, b)
}

/// True for the statuses that raise an alert.
pub open spec fn is_distressed(s: WarmthStatus) -> bool {
    s == WarmthStatus::Collapsing || s == WarmthStatus::Dead
}

/// The window an alert scan uses for a requested lookback.
pub open spec fn alert_window(lookback_minutes: int) -> int {
    if lookback_minutes < MAX_ALERT_WINDOW_MINUTES {
        lookback_minutes
    } else {
        MAX_ALERT_WINDOW_MINUTES as int
    }
}

/// True when `a` is the alert that a scan with a window of `window_minutes`
/// at `now` raises for the bucket `a.bucket`.
pub open spec fn is_alert_for(log: Seq<SignalView>, a: Alert, window_minutes: int, now: int) -> bool {
    let b = a.bucket@;
    let avg = recent_average(log, b, window_minutes, NUM_HISTORICAL_WINDOWS as int, now);
    &&& a.status == warmth_status(log, b, window_minutes, now)
    &&& is_distressed(a.status)
    &&& (a.recent_average.total as int, a.recent_average.windows as int) == avg
    &&& (match a.last_seen_timestamp {
        Some(t) => last_seen(log, b) == Some(t as int),
        None => last_seen(log, b) is None,
    })
    &&& a.message@ == alert_message(b, a.status, window_sum(log, b, window_minutes, now), avg.0, avg.1)
}

/// The buckets of `bs` whose status is collapsing or dead, in order.
pub open spec fn distressed_buckets(
    log: Seq<SignalView>,
    bs: Seq<Seq<char>>,
    window_minutes: int,
    now: int,
) -> Seq<Seq<char>>
    decreases bs.len(),
{
    if bs.len() == 0 {
        Seq::empty()
    } else {
        let rest = distressed_buckets(log, bs.drop_last(), window_minutes, now);
        if is_distressed(warmth_status(log, bs.last(), window_minutes, now)) {
            rest.push(bs.last())
        } else {
            rest
        }
    }
}

/// The buckets of a list of alerts.
pub open spec fn alert_buckets(v: Seq<Alert>) -> Seq<Seq<char>> {
    v.map_values(|a: Alert| a.bucket@)
}

/// Scan every known bucket with a window of `min(lookback_minutes, 10)` and
/// raise an alert for each one that is collapsing or dead. The lookback that
/// was asked for is echoed back unchanged.
pub fn generate_alerts(storage: &Storage, lookback_minutes: u32, now: i64) -> (r: AlertsResponse)
    requires
        storage.wf(),
    ensures
        r.lookback_minutes == lookback_minutes,
        alert_buckets(r.alerts@) == distressed_buckets(
            storage@,
            buckets_since(storage@, i64::MIN as int),
            alert_window(lookback_minutes as int),
            now as int,
        ),
        forall|i: int|
            0 <= i < r.alerts.len() ==> is_alert_for(
                storage@,
                #[trigger] r.alerts@[i],
                alert_window(lookback_minutes as int),
                now as int,
            ),
        forall|i: int, j: int|
            0 <= i < j < r.alerts.len() ==> r.alerts@[i].bucket@ != r.alerts@[j].bucket@,
        forall|b: Seq<char>|
            seen_since(storage@, b, i64::MIN as int) && is_distressed(
                warmth_status(storage@, b, alert_window(lookback_minutes as int), now as int),
            ) ==> exists|i: int| 0 <= i < r.alerts.len() && #[trigger] r.alerts@[i].bucket@ == b,
{
    let window_minutes = if lookback_minutes < MAX_ALERT_WINDOW_MINUTES {
        lookback_minutes
    } else {
        MAX_ALERT_WINDOW_MINUTES
    };
    let buckets = storage.get_all_known_buckets();
    let mut alerts: Vec<Alert> = Vec::new();
    let mut i: usize = 0;
    while i < buckets.len()
        invariant
            storage.wf(),
            window_minutes == alert_window(lookback_minutes as int),
            i <= buckets.len(),
            string_views(buckets@) == buckets_since(storage@, i64::MIN as int),
            alert_buckets(alerts@) == distressed_buckets(
                storage@,
                string_views(buckets@).take(i as int),
                window_minutes as int,
                now as int,
            ),
            string_views(buckets@).no_duplicates(),
            forall|b: Seq<char>| #[trigger] string_views(buckets@).contains(b) <==> seen_since(
                storage@,
                b,
                i64::MIN as int,
            ),
            forall|k: int|
                0 <= k < alerts.len() ==> is_alert_for(
                    storage@,
                    #[trigger] alerts@[k],
                    window_minutes as int,
                    now as int,
                ),
            forall|k: int|
                0 <= k < alerts.len() ==> exists|j: int|
                    0 <= j < i && #[trigger] alerts@[k].bucket@ == buckets@[j]@,
            forall|k: int, l: int|
                0 <= k < l < alerts.len() ==> alerts@[k].bucket@ != alerts@[l].bucket@,
            forall|j: int|
                0 <= j < i && is_distressed(warmth_status(storage@, buckets@[j]@, window_minutes as int, now as int))
                    ==> exists|k: int| 0 <= k < alerts.len() && #[trigger] alerts@[k].bucket@ == buckets@[j]@,
        decreases buckets.len() - i,
    {
        let bucket = &buckets[i];
        let warmth = compute_warmth(storage, bucket.as_str(), window_minutes, now);
        let ghost old_alerts = alerts@;
        proof {
            let bv = string_views(buckets@);
            assert(bv.take(i + 1).drop_last() =~= bv.take(i as int));
            assert(bv.take(i + 1).last() == bucket@);
        }
        if warmth.status == WarmthStatus::Collapsing || warmth.status == WarmthStatus::Dead {
            let last_seen_timestamp = storage.get_last_seen(bucket.as_str());
            let message = generate_alert_message(bucket.as_str(), warmth.status, &warmth);
            let alert = Alert {
                bucket: bucket.clone(),
                status: warmth.status,
                last_seen_timestamp,
                recent_average: warmth.recent_average,
                message,
            };
            alerts.push(alert);
            proof {
                assert(alert_buckets(alerts@) =~= alert_buckets(old_alerts).push(bucket@));
                assert forall|k: int| 0 <= k < old_alerts.len() implies alerts@[k].bucket@
                    != buckets@[i as int]@ by {
                    assert(alerts@[k] == old_alerts[k]);
                    let j = choose|j: int| 0 <= j < i && #[trigger] old_alerts[k].bucket@ == buckets@[j]@;
                    assert(string_views(buckets@)[j] == buckets@[j]@);
                    assert(string_views(buckets@)[i as int] == buckets@[i as int]@);
                }
                assert forall|k: int|
                    0 <= k < alerts.len() implies exists|j: int|
                        0 <= j < i + 1 && #[trigger] alerts@[k].bucket@ == buckets@[j]@ by {
                    if k < old_alerts.len() {
                        assert(alerts@[k] == old_alerts[k]);
                        let j = choose|j: int| 0 <= j < i && #[trigger] old_alerts[k].bucket@ == buckets@[j]@;
                        assert(alerts@[k].bucket@ == buckets@[j]@);
                    } else {
                        assert(alerts@[k].bucket@ == buckets@[i as int]@);
                    }
                }
                assert forall|j: int|
                    0 <= j < i + 1 && is_distressed(
                        warmth_status(storage@, buckets@[j]@, window_minutes as int, now as int),
                    ) implies exists|k: int| 0 <= k < alerts.len() && #[trigger] alerts@[k].bucket@
                    == buckets@[j]@ by {
                    if j < i {
                        let k = choose|k: int| 0 <= k < old_alerts.len() && #[trigger] old_alerts[k].bucket@
                            == buckets@[j]@;
                        assert(alerts@[k] == old_alerts[k]);
                    } else {
                        assert(alerts@[old_alerts.len() as int].bucket@ == buckets@[j]@);
                    }
                }
            }
        }
        assert(alert_buckets(alerts@) =~= distressed_buckets(
            storage@,
            string_views(buckets@).take(i + 1),
            window_minutes as int,
            now as int,
        ));
        i = i + 1;
    }
    proof {
        assert(string_views(buckets@).take(i as int) =~= string_views(buckets@));
        assert forall|b: Seq<char>|
            seen_since(storage@, b, i64::MIN as int) && is_distressed(
                warmth_status(storage@, b, alert_window(lookback_minutes as int), now as int),
            ) implies exists|k: int| 0 <= k < alerts.len() && #[trigger] alerts@[k].bucket@ == b by {
            assert(string_views(buckets@).contains(b));
            let j = choose|j: int| 0 <= j < buckets.len() && string_views(buckets@)[j] == b;
            assert(buckets@[j]@ == b);
        }
    }
    AlertsResponse { alerts, lookback_minutes }
}

/// Recording one signal raises the window sum of its bucket by exactly its
/// weight at every `now` whose window holds its timestamp, and changes no
/// other window sum.
pub proof fn lemma_insert_then_window_sum(
    log: Seq<SignalView>,
    signal: SignalView,
    bucket: Seq<char>,
    window_minutes: int,
    now: int,
)
    ensures
        window_sum(log.push(signal), bucket, window_minutes, now) == window_sum(
            log,
            bucket,
            window_minutes,
            now,
        ) + if signal.0 == bucket && now - 60 * window_minutes <= signal.1 <= now {
            signal.2
        } else {
            0
        },
{
    assert(log.push(signal).drop_last() =~= log);
}

/// With no new signal, asking again for the warmth of a bucket at the same
/// moment gives the same total, the same average and the same status.
pub proof fn lemma_warmth_repeatable(
    before: Seq<SignalView>,
    after: Seq<SignalView>,
    bucket: Seq<char>,
    window_minutes: int,
    now: int,
)
    requires
        after == before,
    ensures
        window_sum(after, bucket, window_minutes, now) == window_sum(before, bucket, window_minutes, now),
        recent_average(after, bucket, window_minutes, NUM_HISTORICAL_WINDOWS as int, now)
            == recent_average(before, bucket, window_minutes, NUM_HISTORICAL_WINDOWS as int, now),
        warmth_status(after, bucket, window_minutes, now) == warmth_status(
            before,
            bucket,
            window_minutes,
            now,
        ),
{
}

} // verus!
