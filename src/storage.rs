//! The append-only signal log and the windowed queries the warmth engine
//! needs. Signals are never changed or removed once written.
use vstd::prelude::*;

use crate::model::{LifeSignal, WindowAverage};
use crate::text::floor_div;

verus! {

/// The most signals one log holds. With this bound every windowed sum fits in
/// an `i64` and every count of windows in a `u32`.
pub const MAX_SIGNALS: usize = 4294967295;

/// Largest and smallest `i32` weight, as used in the sum bounds below.
pub open spec fn weight_max() -> int {
    2147483647
}

pub open spec fn weight_min() -> int {
    -2147483648
}

/// A signal as the contracts see it: (bucket, unix seconds, weight).
pub type SignalView = (Seq<char>, int, int);

/// True when `e` is a signal of `bucket` with `lo <= timestamp < hi`.
pub open spec fn in_range(e: SignalView, bucket: Seq<char>, lo: int, hi: int) -> bool {
    e.0 == bucket && lo <= e.1 && e.1 < hi
}

/// Sum of the weights of the signals of `bucket` with `lo <= timestamp < hi`.
pub open spec fn sum_in_range(log: Seq<SignalView>, bucket: Seq<char>, lo: int, hi: int) -> int
    decreases log.len(),
{
    if log.len() == 0 {
        0
    } else {
        sum_in_range(log.drop_last(), bucket, lo, hi) + if in_range(log.last(), bucket, lo, hi) {
            log.last().2
        } else {
            0
        }
    }
}

/// The epoch-aligned bins (`floor(timestamp / width)`) that hold at least one
/// signal of `bucket` with `lo <= timestamp < hi`.
pub open spec fn bins_in_range(
    log: Seq<SignalView>,
    bucket: Seq<char>,
    lo: int,
    hi: int,
    width: int,
) -> Set<int>
    decreases log.len(),
{
    if log.len() == 0 {
        Set::empty()
    } else {
        let rest = bins_in_range(log.drop_last(), bucket, lo, hi, width);
        if in_range(log.last(), bucket, lo, hi) {
            rest.insert(log.last().1 / width)
        } else {
            rest
        }
    }
}

/// Sum of the weights of `bucket` with timestamp in `[now - 60 * window_minutes, now]`.
pub open spec fn window_sum(log: Seq<SignalView>, bucket: Seq<char>, window_minutes: int, now: int) -> int {
    sum_in_range(log, bucket, now - 60 * window_minutes, now + 1)
}

/// Start and end of the history span `[now - w * (n + 1), now - w)` with
/// `w = 60 * window_minutes` seconds and `n = num_windows`.
pub open spec fn history_start(window_minutes: int, num_windows: int, now: int) -> int {
    now - 60 * window_minutes - 60 * window_minutes * num_windows
}

pub open spec fn history_end(window_minutes: int, now: int) -> int {
    now - 60 * window_minutes
}

/// The recent average of `bucket`: the total weight in the history span over
/// the number of epoch-aligned bins in it that hold data. Empty bins are not
/// counted.
pub open spec fn recent_average(
    log: Seq<SignalView>,
    bucket: Seq<char>,
    window_minutes: int,
    num_windows: int,
    now: int,
) -> (int, int) {
    let lo = history_start(window_minutes, num_windows, now);
    let hi = history_end(window_minutes, now);
    (
        sum_in_range(log, bucket, lo, hi),
        bins_in_range(log, bucket, lo, hi, 60 * window_minutes).len() as int,
    )
}

/// The latest timestamp of `bucket`, if it has any signal.
pub open spec fn last_seen(log: Seq<SignalView>, bucket: Seq<char>) -> Option<int>
    decreases log.len(),
{
    if log.len() == 0 {
        None
    } else {
        let rest = last_seen(log.drop_last(), bucket);
        if log.last().0 == bucket {
            match rest {
                None => Some(log.last().1),
                Some(m) => Some(if m < log.last().1 { log.last().1 } else { m }),
            }
        } else {
            rest
        }
    }
}

/// True when some signal of `bucket` has a timestamp at or after `since`.
pub open spec fn seen_since(log: Seq<SignalView>, bucket: Seq<char>, since: int) -> bool {
    exists|i: int| 0 <= i < log.len() && #[trigger] log[i].0 == bucket && log[i].1 >= since
}

/// The distinct buckets with a signal at or after `since`, in the order of
/// their first such signal.
pub open spec fn buckets_since(log: Seq<SignalView>, since: int) -> Seq<Seq<char>>
    decreases log.len(),
{
    if log.len() == 0 {
        Seq::empty()
    } else {
        let rest = buckets_since(log.drop_last(), since);
        if log.last().1 >= since && !rest.contains(log.last().0) {
            rest.push(log.last().0)
        } else {
            rest
        }
    }
}

/// The views of a sequence of strings.
pub open spec fn string_views(v: Seq<String>) -> Seq<Seq<char>> {
    v.map_values(|s: String| s@)
}

/// A windowed sum over `n` signals stays within `n` times the weight bounds.
proof fn lemma_sum_bounds(log: Seq<SignalView>, bucket: Seq<char>, lo: int, hi: int)
    requires
        forall|i: int| 0 <= i < log.len() ==> weight_min() <= #[trigger] log[i].2 <= weight_max(),
    ensures
        log.len() * weight_min() <= sum_in_range(log, bucket, lo, hi) <= log.len() * weight_max(),
    decreases log.len(),
{
    if log.len() > 0 {
        let rest = log.drop_last();
        assert forall|i: int| 0 <= i < rest.len() implies weight_min() <= #[trigger] rest[i].2
            <= weight_max() by {
            assert(rest[i] == log[i]);
        }
        lemma_sum_bounds(rest, bucket, lo, hi);
        assert(log.last() == log[log.len() - 1]);
        let n = log.len() as int;
        assert(n * weight_min() == (n - 1) * weight_min() + weight_min()) by (nonlinear_arith);
        assert(n * weight_max() == (n - 1) * weight_max() + weight_max()) by (nonlinear_arith);
    }
}

/// Errors of the signal log.
#[derive(Clone, Copy, Debug, PartialEq, Eq, Structural)]
pub enum StoreError {
    /// The log already holds `MAX_SIGNALS` signals.
    Full,
}

/// The append-only log of life signals.
pub struct Storage {
    signals: Vec<LifeSignal>,
}

impl View for Storage {
    type V = Seq<SignalView>;

    closed spec fn view(&self) -> Seq<SignalView> {
        self.signals@.map_values(|s: LifeSignal| s@)
    }
}

impl Storage {
    /// The log's invariant: it holds at most `MAX_SIGNALS` signals.
    pub open spec fn wf(&self) -> bool {
        self@.len() <= MAX_SIGNALS
    }

    /// An empty log.
    pub fn new() -> (r: Storage)
        ensures
            r@ == Seq::<SignalView>::empty(),
            r.wf(),
    {
        let r = Storage { signals: Vec::new() };
        assert(r@ =~= Seq::<SignalView>::empty());
        r
    }

    /// Number of signals recorded.
    pub fn len(&self) -> (r: usize)
        ensures
            r == self@.len(),
    {
        self.signals.len()
    }

    /// Append one signal. Fails only when the log is full.
    pub fn insert_life_signal(&mut self, signal: &LifeSignal) -> (r: Result<(), StoreError>)
        requires
            old(self).wf(),
        ensures
            final(self).wf(),
            old(self)@.len() < MAX_SIGNALS ==> r is Ok && final(self)@ == old(self)@.push(signal@),
            old(self)@.len() >= MAX_SIGNALS ==> r == Err::<(), StoreError>(StoreError::Full)
                && final(self)@ == old(self)@,
    {
        if self.signals.len() >= MAX_SIGNALS {
            return Err(StoreError::Full);
        }
        let copy = LifeSignal {
            bucket: signal.bucket.clone(),
            timestamp: signal.timestamp,
            weight: signal.weight,
        };
        self.signals.push(copy);
        assert(self@ =~= old(self)@.push(signal@));
        Ok(())
    }

    /// Sum of the weights of `bucket` with `lo <= timestamp < hi`.
    fn sum_between(&self, bucket: &str, lo: i128, hi: i128) -> (r: i64)
        requires
            self.wf(),
        ensures
            r == sum_in_range(self@, bucket@, lo as int, hi as int),
    {
        let ghost log = self@;
        let mut total: i64 = 0;
        let mut i: usize = 0;
        while i < self.signals.len()
            invariant
                log == self@,
                i <= self.signals.len(),
                log.len() == self.signals.len(),
                log.len() <= MAX_SIGNALS,
                total == sum_in_range(log.take(i as int), bucket@, lo as int, hi as int),
            decreases self.signals.len() - i,
        {
            let s = &self.signals[i];
            let ghost prefix = log.take(i as int);
            let ghost next = log.take(i + 1);
            assert(next.drop_last() =~= prefix);
            assert(next.last() == s@);
            assert forall|k: int| 0 <= k < next.len() implies weight_min() <= #[trigger] next[k].2
                <= weight_max() by {
                assert(next[k] == self.signals@[k]@);
            }
            proof {
                lemma_sum_bounds(next, bucket@, lo as int, hi as int);
                assert(next.len() * weight_min() >= 4294967295 * weight_min()) by (nonlinear_arith)
                    requires
                        next.len() <= 4294967295,
                ;
                assert(next.len() * weight_max() <= 4294967295 * weight_max()) by (nonlinear_arith)
                    requires
                        next.len() <= 4294967295,
                ;
            }
            if str_eq(s.bucket.as_str(), bucket) && lo <= s.timestamp as i128 && (s.timestamp as i128)
                < hi {
                total = total + s.weight as i64;
            }
            i = i + 1;
        }
        assert(log.take(i as int) =~= log);
        total
    }

    /// Total weight of `bucket` in the window `[now - window_minutes, now]`.
    pub fn query_bucket_window(&self, bucket: &str, window_minutes: u32, now: i64) -> (r: i64)
        requires
            self.wf(),
        ensures
            r == window_sum(self@, bucket@, window_minutes as int, now as int),
    {
        let width: i128 = 60 * (window_minutes as i128);
        self.sum_between(bucket, now as i128 - width, now as i128 + 1)
    }

    /// The recent average of `bucket` over `num_windows` windows before the
    /// current one, kept as a fraction (see [`WindowAverage`]).
    pub fn compute_recent_average(
        &self,
        bucket: &str,
        window_minutes: u32,
        num_windows: u32,
        now: i64,
    ) -> (r: WindowAverage)
        requires
            self.wf(),
        ensures
            (r.total as int, r.windows as int) == recent_average(
                self@,
                bucket@,
                window_minutes as int,
                num_windows as int,
                now as int,
            ),
    {
        let width: i128 = 60 * (window_minutes as i128);
        assert(width * (num_windows as i128) <= 60 * 0xffff_ffff * 0xffff_ffff) by (nonlinear_arith)
            requires
                0 <= width <= 60 * 0xffff_ffff,
                0 <= num_windows <= 0xffff_ffff,
        ;
        assert(width * (num_windows as i128) >= 0) by (nonlinear_arith)
            requires
                0 <= width,
                0 <= num_windows,
        ;
        let span: i128 = width * (num_windows as i128);
        assert(span == 60 * window_minutes * num_windows) by (nonlinear_arith)
            requires
                width == 60 * window_minutes,
                span == width * num_windows,
        ;
        assert(width == 0 ==> span == 0) by (nonlinear_arith)
            requires
                span == width * (num_windows as i128),
        ;
        let hi: i128 = now as i128 - width;
        let lo: i128 = hi - span;
        let total = self.sum_between(bucket, lo, hi);
        let windows = self.count_bins(bucket, lo, hi, width);
        WindowAverage { total, windows }
    }

    /// The latest timestamp recorded for `bucket`, if any.
    pub fn get_last_seen(&self, bucket: &str) -> (r: Option<i64>)
        ensures
            r matches Some(t) ==> last_seen(self@, bucket@) == Some(t as int),
            r is None ==> last_seen(self@, bucket@) is None,
    {
        let ghost log = self@;
        let mut latest: Option<i64> = None;
        let mut i: usize = 0;
        while i < self.signals.len()
            invariant
                log == self@,
                i <= self.signals.len(),
                log.len() == self.signals.len(),
                latest matches Some(t) ==> last_seen(log.take(i as int), bucket@) == Some(t as int),
                latest is None ==> last_seen(log.take(i as int), bucket@) is None,
            decreases self.signals.len() - i,
        {
            let s = &self.signals[i];
            let ghost next = log.take(i + 1);
            assert(next.drop_last() =~= log.take(i as int));
            assert(next.last() == s@);
            if str_eq(s.bucket.as_str(), bucket) {
                latest = match latest {
                    None => Some(s.timestamp),
                    Some(m) => Some(if m < s.timestamp { s.timestamp } else { m }),
                };
            }
            i = i + 1;
        }
        assert(log.take(i as int) =~= log);
        latest
    }

    /// Every distinct bucket that has ever received a signal, each once, in
    /// the order of its first signal.
    pub fn get_all_known_buckets(&self) -> (r: Vec<String>)
        ensures
            string_views(r@) == buckets_since(self@, i64::MIN as int),
            string_views(r@).no_duplicates(),
            forall|b: Seq<char>| #[trigger] string_views(r@).contains(b) <==> seen_since(
                self@,
                b,
                i64::MIN as int,
            ),
    {
        self.distinct_buckets(i64::MIN)
    }

    /// Every distinct bucket with a signal at or after `now - minutes`, each once.
    pub fn get_active_buckets(&self, minutes: u32, now: i64) -> (r: Vec<String>)
        ensures
            string_views(r@) == buckets_since(
                self@,
                if now - 60 * minutes < i64::MIN { i64::MIN as int } else { now - 60 * minutes },
            ),
            string_views(r@).no_duplicates(),
            forall|b: Seq<char>| #[trigger] string_views(r@).contains(b) <==> seen_since(
                self@,
                b,
                now - 60 * minutes,
            ),
    {
        let since: i128 = now as i128 - 60 * (minutes as i128);
        if since < i64::MIN as i128 {
            let r = self.distinct_buckets(i64::MIN);
            assert forall|b: Seq<char>| seen_since(self@, b, i64::MIN as int) <==> seen_since(
                self@,
                b,
                now - 60 * minutes,
            ) by {
                if seen_since(self@, b, i64::MIN as int) {
                    let i = choose|i: int| 0 <= i < self@.len() && #[trigger] self@[i].0 == b
                        && self@[i].1 >= i64::MIN as int;
                    assert(self@[i] == self.signals@[i]@);
                }
            }
            r
        } else {
            self.distinct_buckets(since as i64)
        }
    }

    /// Distinct buckets with a signal at or after `since`, in order of first appearance.
    fn distinct_buckets(&self, since: i64) -> (r: Vec<String>)
        ensures
            string_views(r@) == buckets_since(self@, since as int),
            string_views(r@).no_duplicates(),
            forall|b: Seq<char>| #[trigger] string_views(r@).contains(b) <==> seen_since(
                self@,
                b,
                since as int,
            ),
    {
        let ghost log = self@;
        let mut found: Vec<String> = Vec::new();
        let mut i: usize = 0;
        while i < self.signals.len()
            invariant
                log == self@,
                i <= self.signals.len(),
                log.len() == self.signals.len(),
                string_views(found@).no_duplicates(),
                string_views(found@) == buckets_since(log.take(i as int), since as int),
                forall|b: Seq<char>| #[trigger] string_views(found@).contains(b) <==> seen_since(
                    log.take(i as int),
                    b,
                    since as int,
                ),
            decreases self.signals.len() - i,
        {
            let s = &self.signals[i];
            let ghost prev = log.take(i as int);
            let ghost next = log.take(i + 1);
            assert(next.last() == s@);
            assert(next.drop_last() =~= prev);
            let ghost old_views = string_views(found@);
            let present = contains_str(&found, s.bucket.as_str());
            let ghost pushed = s.timestamp >= since && !present;
            if s.timestamp >= since && !present {
                found.push(s.bucket.clone());
                assert(string_views(found@) =~= old_views.push(s.bucket@));
            } else {
                assert(string_views(found@) =~= old_views);
            }
            assert forall|b: Seq<char>| #[trigger] string_views(found@).contains(b) <==> seen_since(
                next,
                b,
                since as int,
            ) by {
                if old_views.contains(b) {
                    let j = choose|j: int| 0 <= j < prev.len() && #[trigger] prev[j].0 == b && prev[j].1
                        >= since as int;
                    assert(next[j] == prev[j]);
                    let k = choose|k: int| 0 <= k < old_views.len() && old_views[k] == b;
                    assert(string_views(found@)[k] == b);
                }
                if pushed && b == s.bucket@ {
                    assert(next[i as int].0 == b);
                    assert(string_views(found@)[old_views.len() as int] == b);
                }
                if seen_since(next, b, since as int) {
                    let j = choose|j: int| 0 <= j < next.len() && #[trigger] next[j].0 == b && next[j].1
                        >= since as int;
                    if j < i {
                        assert(prev[j] == next[j]);
                        assert(seen_since(prev, b, since as int));
                    }
                }
            }
            i = i + 1;
        }
        assert(log.take(i as int) =~= log);
        found
    }

    /// Number of epoch-aligned bins of `width` seconds that hold a signal of
    /// `bucket` with `lo <= timestamp < hi`.
    fn count_bins(&self, bucket: &str, lo: i128, hi: i128, width: i128) -> (r: u32)
        requires
            self.wf(),
            width >= 0,
            width <= 0x7fff_ffff_ffff,
            hi <= lo || width > 0,
        ensures
            r == bins_in_range(self@, bucket@, lo as int, hi as int, width as int).len(),
    {
        let ghost log = self@;
        let mut seen: Vec<i64> = Vec::new();
        let mut i: usize = 0;
        while i < self.signals.len()
            invariant
                log == self@,
                i <= self.signals.len(),
                log.len() == self.signals.len(),
                log.len() <= MAX_SIGNALS,
                seen.len() <= i,
                seen@.no_duplicates(),
                width >= 0,
                width <= 0x7fff_ffff_ffff,
                hi <= lo || width > 0,
                bins_in_range(log.take(i as int), bucket@, lo as int, hi as int, width as int).finite(),
                bins_in_range(log.take(i as int), bucket@, lo as int, hi as int, width as int).len()
                    == seen.len(),
                forall|b: int|
                    #![trigger bins_in_range(log.take(i as int), bucket@, lo as int, hi as int, width as int).contains(b)]
                    bins_in_range(log.take(i as int), bucket@, lo as int, hi as int, width as int).contains(b)
                        <==> exists|k: int| 0 <= k < seen.len() && seen@[k] as int == b,
            decreases self.signals.len() - i,
        {
            let s = &self.signals[i];
            let ghost prefix = log.take(i as int);
            let ghost next = log.take(i + 1);
            let ghost before = bins_in_range(prefix, bucket@, lo as int, hi as int, width as int);
            assert(next.drop_last() =~= prefix);
            assert(next.last() == s@);
            if str_eq(s.bucket.as_str(), bucket) && lo <= s.timestamp as i128 && (s.timestamp as i128)
                < hi {
                // a timestamp inside a non-empty span implies a positive width
                let bin = floor_div(s.timestamp as i128, width) as i64;
                let mut found = false;
                let mut k: usize = 0;
                while k < seen.len()
                    invariant
                        k <= seen.len(),
                        found == exists|j: int| 0 <= j < k && seen@[j] == bin,
                    decreases seen.len() - k,
                {
                    if seen[k] == bin {
                        found = true;
                    }
                    k = k + 1;
                }
                let ghost after = before.insert(bin as int);
                if found {
                    assert(after =~= before);
                } else {
                    let ghost old_seen = seen@;
                    seen.push(bin);
                    assert forall|b: int| after.contains(b) <==> exists|k: int|
                        0 <= k < seen.len() && seen@[k] as int == b by {
                        if after.contains(b) && b != bin as int {
                            let k0 = choose|k: int| 0 <= k < old_seen.len() && old_seen[k] as int == b;
                            assert(seen@[k0] == old_seen[k0]);
                        }
                        if b == bin as int {
                            assert(seen@[seen.len() - 1] == bin);
                        }
                        if exists|k: int| 0 <= k < seen.len() && seen@[k] as int == b {
                            let k0 = choose|k: int| 0 <= k < seen.len() && seen@[k] as int == b;
                            if k0 < old_seen.len() {
                                assert(seen@[k0] == old_seen[k0]);
                            }
                        }
                    }
                    assert forall|x: int, y: int| 0 <= x < seen.len() && 0 <= y < seen.len() && x != y
                        implies seen@[x] != seen@[y] by {
                        if x < old_seen.len() && y < old_seen.len() {
                            assert(seen@[x] == old_seen[x] && seen@[y] == old_seen[y]);
                        } else if x < old_seen.len() {
                            assert(seen@[x] == old_seen[x]);
                        } else if y < old_seen.len() {
                            assert(seen@[y] == old_seen[y]);
                        }
                    }
                    assert(!before.contains(bin as int));
                }
            } else {
            }
            i = i + 1;
        }
        assert(log.take(i as int) =~= log);
        seen.len() as u32
    }
}

/// True when `v` holds a string equal to `s`.
pub fn contains_str(v: &Vec<String>, s: &str) -> (r: bool)
    ensures
        r == string_views(v@).contains(s@),
{
    let mut i: usize = 0;
    while i < v.len()
        invariant
            i <= v.len(),
            forall|k: int| 0 <= k < i ==> v@[k]@ != s@,
        decreases v.len() - i,
    {
        if str_eq(v[i].as_str(), s) {
            assert(string_views(v@)[i as int] == s@);
            return true;
        }
        i = i + 1;
    }
    assert(!string_views(v@).contains(s@)) by {
        if string_views(v@).contains(s@) {
            let k = choose|k: int| 0 <= k < v@.len() && string_views(v@)[k] == s@;
            assert(v@[k]@ == s@);
        }
    }
    false
}

/// Character-wise equality of two strings.
pub fn str_eq(a: &str, b: &str) -> (r: bool)
    ensures
        r == (a@ == b@),
{
    let n = a.unicode_len();
    if n != b.unicode_len() {
        return false;
    }
    let mut i: usize = 0;
    while i < n
        invariant
            n == a@.len(),
            n == b@.len(),
            i <= n,
            forall|k: int| 0 <= k < i ==> a@[k] == b@[k],
        decreases n - i,
    {
        if a.get_char(i) != b.get_char(i) {
            return false;
        }
        i = i + 1;
    }
    assert(a@ =~= b@);
    true
}

} // verus!
