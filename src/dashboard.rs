//! The multi-source aggregator: the unified issue record, severity ranking,
//! merging of per-provider results with failure isolation, the summary
//! builder and the country filter.
use vstd::multiset::Multiset;
use vstd::prelude::*;

use crate::storage::str_eq;
use crate::text::{push_signed_decimal, signed_decimal};

verus! {

/// What `str::to_lowercase` makes of a string: Unicode lowercase mapping,
/// character by character, which depends on the characters alone.
pub uninterp spec fn lower_of(s: Seq<char>) -> Seq<char>;

/// Relies on `str::to_lowercase`: the lowercase form of `s`, which depends on
/// `s` alone, and which is empty exactly when `s` is.
#[verifier::external_body]
pub(crate) fn lowercase(s: &str) -> (r: String)
    ensures
        r@ == lower_of(s@),
        s@.len() == 0 ==> r@.len() == 0,
{
    s.to_lowercase()
}

/// Issue severity, from least to most urgent.
#[derive(Clone, Copy, Debug, PartialEq, Eq, PartialOrd, Ord, Hash, Structural)]
pub enum IssueSeverity {
    /// Worth noting but not urgent.
    Info,
    /// A potential problem developing.
    Warning,
    /// A serious ongoing issue.
    Critical,
    /// Requires immediate attention.
    Emergency,
}

/// The rank of a severity: `Info < Warning < Critical < Emergency`.
pub open spec fn severity_rank(s: IssueSeverity) -> int {
    match s {
        IssueSeverity::Info => 0,
        IssueSeverity::Warning => 1,
        IssueSeverity::Critical => 2,
        IssueSeverity::Emergency => 3,
    }
}

impl IssueSeverity {
    /// A human-readable label.
    pub fn label(&self) -> (r: &'static str)
        ensures
            r@ == severity_label(*self),
    {
        match self {
            IssueSeverity::Info => "Info",
            IssueSeverity::Warning => "Warning",
            IssueSeverity::Critical => "Critical",
            IssueSeverity::Emergency => "Emergency",
        }
    }

    /// The rank of the severity, 0 for `Info` up to 3 for `Emergency`.
    pub fn rank(&self) -> (r: u8)
        ensures
            r as int == severity_rank(*self),
    {
        match self {
            IssueSeverity::Info => 0,
            IssueSeverity::Warning => 1,
            IssueSeverity::Critical => 2,
            IssueSeverity::Emergency => 3,
        }
    }
}

pub open spec fn severity_label(s: IssueSeverity) -> Seq<char> {
    match s {
        IssueSeverity::Info => "Info"@,
        IssueSeverity::Warning => "Warning"@,
        IssueSeverity::Critical => "Critical"@,
        IssueSeverity::Emergency => "Emergency"@,
    }
}

/// The provider an issue came from.
#[derive(Clone, Copy, Debug, PartialEq, Eq, Hash, Structural)]
pub enum IssueSource {
    /// Internet outage detection.
    Ioda,
    /// Traffic anomalies.
    CloudflareRadar,
    /// Humanitarian risk indicators.
    HdxHapi,
    /// Armed conflict events.
    Acled,
    /// Disasters and humanitarian updates.
    ReliefWeb,
}

pub open spec fn source_label(s: IssueSource) -> Seq<char> {
    match s {
        IssueSource::Ioda => "IODA"@,
        IssueSource::CloudflareRadar => "Cloudflare Radar"@,
        IssueSource::HdxHapi => "HDX HAPI"@,
        IssueSource::Acled => "ACLED"@,
        IssueSource::ReliefWeb => "ReliefWeb"@,
    }
}

/// The label of a source in lowercase, with `_` for each space: the first
/// part of an issue identifier.
pub open spec fn source_key(s: IssueSource) -> Seq<char> {
    match s {
        IssueSource::Ioda => "ioda"@,
        IssueSource::CloudflareRadar => "cloudflare_radar"@,
        IssueSource::HdxHapi => "hdx_hapi"@,
        IssueSource::Acled => "acled"@,
        IssueSource::ReliefWeb => "reliefweb"@,
    }
}

/// The source a filter token names: its key, or one of the aliases
/// `cloudflare`, `hdx` and `hapi`.
pub open spec fn source_for_token(t: Seq<char>) -> Option<IssueSource> {
    if t == "ioda"@ {
        Some(IssueSource::Ioda)
    } else if t == "cloudflare_radar"@ || t == "cloudflare"@ {
        Some(IssueSource::CloudflareRadar)
    } else if t == "hdx_hapi"@ || t == "hdx"@ || t == "hapi"@ {
        Some(IssueSource::HdxHapi)
    } else if t == "acled"@ {
        Some(IssueSource::Acled)
    } else if t == "reliefweb"@ {
        Some(IssueSource::ReliefWeb)
    } else {
        None
    }
}

impl IssueSource {
    /// A human-readable label.
    pub fn label(&self) -> (r: &'static str)
        ensures
            r@ == source_label(*self),
    {
        match self {
            IssueSource::Ioda => "IODA",
            IssueSource::CloudflareRadar => "Cloudflare Radar",
            IssueSource::HdxHapi => "HDX HAPI",
            IssueSource::Acled => "ACLED",
            IssueSource::ReliefWeb => "ReliefWeb",
        }
    }

    /// The key of the source in issue identifiers.
    pub fn key(&self) -> (r: &'static str)
        ensures
            r@ == source_key(*self),
    {
        match self {
            IssueSource::Ioda => "ioda",
            IssueSource::CloudflareRadar => "cloudflare_radar",
            IssueSource::HdxHapi => "hdx_hapi",
            IssueSource::Acled => "acled",
            IssueSource::ReliefWeb => "reliefweb",
        }
    }

    /// The source a filter token names, or `None` for an unknown token.
    pub fn from_token(token: &str) -> (r: Option<IssueSource>)
        ensures
            r == source_for_token(token@),
    {
        if str_eq(token, "ioda") {
            Some(IssueSource::Ioda)
        } else if str_eq(token, "cloudflare_radar") || str_eq(token, "cloudflare") {
            Some(IssueSource::CloudflareRadar)
        } else if str_eq(token, "hdx_hapi") || str_eq(token, "hdx") || str_eq(token, "hapi") {
            Some(IssueSource::HdxHapi)
        } else if str_eq(token, "acled") {
            Some(IssueSource::Acled)
        } else if str_eq(token, "reliefweb") {
            Some(IssueSource::ReliefWeb)
        } else {
            None
        }
    }
}

/// The kind of an issue.
#[derive(Clone, Copy, Debug, PartialEq, Eq, Hash, Structural)]
pub enum IssueCategory {
    InternetOutage,
    TrafficAnomaly,
    Conflict,
    FoodSecurity,
    Displacement,
    Disaster,
    HumanitarianEmergency,
}

pub open spec fn category_label(c: IssueCategory) -> Seq<char> {
    match c {
        IssueCategory::InternetOutage => "Internet Outage"@,
        IssueCategory::TrafficAnomaly => "Traffic Anomaly"@,
        IssueCategory::Conflict => "Conflict"@,
        IssueCategory::FoodSecurity => "Food Security"@,
        IssueCategory::Displacement => "Displacement"@,
        IssueCategory::Disaster => "Disaster"@,
        IssueCategory::HumanitarianEmergency => "Humanitarian Emergency"@,
    }
}

/// The label of a category in lowercase, with `_` for each space.
pub open spec fn category_key(c: IssueCategory) -> Seq<char> {
    match c {
        IssueCategory::InternetOutage => "internet_outage"@,
        IssueCategory::TrafficAnomaly => "traffic_anomaly"@,
        IssueCategory::Conflict => "conflict"@,
        IssueCategory::FoodSecurity => "food_security"@,
        IssueCategory::Displacement => "displacement"@,
        IssueCategory::Disaster => "disaster"@,
        IssueCategory::HumanitarianEmergency => "humanitarian_emergency"@,
    }
}

impl IssueCategory {
    /// A human-readable label.
    pub fn label(&self) -> (r: &'static str)
        ensures
            r@ == category_label(*self),
    {
        match self {
            IssueCategory::InternetOutage => "Internet Outage",
            IssueCategory::TrafficAnomaly => "Traffic Anomaly",
            IssueCategory::Conflict => "Conflict",
            IssueCategory::FoodSecurity => "Food Security",
            IssueCategory::Displacement => "Displacement",
            IssueCategory::Disaster => "Disaster",
            IssueCategory::HumanitarianEmergency => "Humanitarian Emergency",
        }
    }

    /// The key of the category in issue identifiers.
    pub fn key(&self) -> (r: &'static str)
        ensures
            r@ == category_key(*self),
    {
        match self {
            IssueCategory::InternetOutage => "internet_outage",
            IssueCategory::TrafficAnomaly => "traffic_anomaly",
            IssueCategory::Conflict => "conflict",
            IssueCategory::FoodSecurity => "food_security",
            IssueCategory::Displacement => "displacement",
            IssueCategory::Disaster => "disaster",
            IssueCategory::HumanitarianEmergency => "humanitarian_emergency",
        }
    }
}

/// The identifier of an issue:
/// `source_key ':' category_key ':' code_lower ':' unix_seconds`.
pub open spec fn issue_id_text(
    source: IssueSource,
    category: IssueCategory,
    code_lower: Seq<char>,
    timestamp: int,
) -> Seq<char> {
    source_key(source) + ":"@ + category_key(category) + ":"@ + code_lower + ":"@ + signed_decimal(
        timestamp,
    )
}

/// Build the identifier of an issue from its parts, the location code
/// already in lowercase.
pub fn issue_id(source: IssueSource, category: IssueCategory, code_lower: &str, timestamp: i64) -> (r: String)
    ensures
        r@ == issue_id_text(source, category, code_lower@, timestamp as int),
{
    let mut s = String::from_str(source.key());
    s.append(":");
    s.append(category.key());
    s.append(":");
    s.append(code_lower);
    s.append(":");
    push_signed_decimal(&mut s, timestamp as i128);
    s
}

/// One issue detected by any provider.
#[derive(Clone, Debug)]
pub struct Issue {
    /// `source:category:location_code:timestamp`, see [`issue_id_text`].
    pub id: String,
    pub source: IssueSource,
    pub category: IssueCategory,
    pub severity: IssueSeverity,
    /// Country or region affected, as the provider names it.
    pub location: String,
    /// ISO country code (alpha-2 or alpha-3, depending on the provider).
    pub location_code: String,
    pub title: String,
    pub description: String,
    /// When the issue was detected or started, in unix seconds.
    pub timestamp: i64,
    /// When the issue ended, in unix seconds.
    pub end_timestamp: Option<i64>,
    pub is_ongoing: bool,
    /// A numeric impact in hundredths (its meaning depends on the category).
    pub impact_hundredths: Option<i128>,
    pub impact_label: Option<String>,
    pub url: Option<String>,
    /// Key/value pairs, each key at most once, in order of insertion.
    pub metadata: Vec<(String, String)>,
}

/// The keys and values of a metadata list.
pub open spec fn metadata_view(m: Seq<(String, String)>) -> Seq<(Seq<char>, Seq<char>)> {
    m.map_values(|p: (String, String)| (p.0@, p.1@))
}

/// True when no two entries share a key.
pub open spec fn keys_unique(m: Seq<(Seq<char>, Seq<char>)>) -> bool {
    forall|i: int, j: int| 0 <= i < j < m.len() ==> m[i].0 != m[j].0
}

/// True when the fields of `a` and `b` other than those listed agree.
pub open spec fn same_except_end(a: Issue, b: Issue) -> bool {
    &&& a.id@ == b.id@
    &&& a.source == b.source
    &&& a.category == b.category
    &&& a.severity == b.severity
    &&& a.location@ == b.location@
    &&& a.location_code@ == b.location_code@
    &&& a.title@ == b.title@
    &&& a.description@ == b.description@
    &&& a.timestamp == b.timestamp
    &&& a.url == b.url
    &&& a.impact_hundredths == b.impact_hundredths
    &&& a.impact_label == b.impact_label
    &&& metadata_view(a.metadata@) == metadata_view(b.metadata@)
}

/// A key that no entry of the metadata view has is a key of no entry.
pub proof fn lemma_key_absent(md: Seq<(String, String)>, key: Seq<char>)
    requires
        forall|k: int| 0 <= k < md.len() ==> #[trigger] metadata_view(md)[k].0 != key,
    ensures
        forall|k: int| 0 <= k < md.len() ==> #[trigger] md[k].0@ != key,
{
    assert forall|k: int| 0 <= k < md.len() implies #[trigger] md[k].0@ != key by {
        assert(metadata_view(md)[k].0 == md[k].0@);
    }
}

impl Issue {
    /// A new ongoing issue with no end, impact, URL or metadata.
    pub fn new(
        source: IssueSource,
        category: IssueCategory,
        severity: IssueSeverity,
        location: &str,
        location_code: &str,
        title: &str,
        description: &str,
        timestamp: i64,
    ) -> (r: Issue)
        ensures
            r.id@ == issue_id_text(source, category, lower_of(location_code@), timestamp as int),
            r.source == source,
            r.category == category,
            r.severity == severity,
            r.location@ == location@,
            r.location_code@ == location_code@,
            r.title@ == title@,
            r.description@ == description@,
            r.timestamp == timestamp,
            r.end_timestamp is None,
            r.is_ongoing,
            r.impact_hundredths is None,
            r.impact_label is None,
            r.url is None,
            r.metadata@.len() == 0,
    {
        let code_lower = lowercase(location_code);
        let id = issue_id(source, category, code_lower.as_str(), timestamp);
        Issue {
            id,
            source,
            category,
            severity,
            location: location.to_string(),
            location_code: location_code.to_string(),
            title: title.to_string(),
            description: description.to_string(),
            timestamp,
            end_timestamp: None,
            is_ongoing: true,
            impact_hundredths: None,
            impact_label: None,
            url: None,
            metadata: Vec::new(),
        }
    }

    /// Set the end time and mark the issue as no longer ongoing.
    pub fn with_end(self, end: i64) -> (r: Issue)
        ensures
            r.end_timestamp == Some(end),
            !r.is_ongoing,
            same_except_end(r, self),
    {
        let mut r = self;
        r.end_timestamp = Some(end);
        r.is_ongoing = false;
        r
    }

    /// Set the impact value (in hundredths) and its label.
    pub fn with_impact(self, hundredths: i128, label: &str) -> (r: Issue)
        ensures
            r.impact_hundredths == Some(hundredths),
            r.impact_label matches Some(l) && l@ == label@,
            r.end_timestamp == self.end_timestamp,
            r.is_ongoing == self.is_ongoing,
            same_except_end(r, Issue { impact_hundredths: r.impact_hundredths, impact_label: r.impact_label, ..self }),
    {
        let mut r = self;
        r.impact_hundredths = Some(hundredths);
        r.impact_label = Some(label.to_string());
        r
    }

    /// Set the URL.
    pub fn with_url(self, url: &str) -> (r: Issue)
        ensures
            r.url matches Some(u) && u@ == url@,
            r.end_timestamp == self.end_timestamp,
            r.is_ongoing == self.is_ongoing,
            same_except_end(r, Issue { url: r.url, ..self }),
    {
        let mut r = self;
        r.url = Some(url.to_string());
        r
    }

    /// Set the metadata entry `key` to `value`, replacing an earlier value of
    /// the same key in place or else adding the entry at the end.
    pub fn with_metadata(self, key: &str, value: &str) -> (r: Issue)
        ensures
            r.end_timestamp == self.end_timestamp,
            r.is_ongoing == self.is_ongoing,
            same_except_end(r, Issue { metadata: r.metadata, ..self }),
            (exists|k: int|
                0 <= k < self.metadata@.len() && #[trigger] self.metadata@[k].0@ == key@)
                ==> exists|k: int|
                0 <= k < self.metadata@.len() && self.metadata@[k].0@ == key@ && metadata_view(
                    r.metadata@,
                ) == metadata_view(self.metadata@).update(k, (key@, value@)),
            (forall|k: int|
                0 <= k < self.metadata@.len() ==> #[trigger] self.metadata@[k].0@ != key@)
                ==> metadata_view(r.metadata@) == metadata_view(self.metadata@).push((key@, value@)),
            keys_unique(metadata_view(self.metadata@)) ==> keys_unique(metadata_view(r.metadata@)),
    {
        let mut r = self;
        let ghost orig = r;
        let ghost before = r.metadata@;
        let mut i: usize = 0;
        while i < r.metadata.len()
            invariant
                i <= r.metadata.len(),
                r == orig,
                orig == self,
                r.metadata@ == before,
                forall|k: int| 0 <= k < i ==> #[trigger] before[k].0@ != key@,
            decreases r.metadata.len() - i,
        {
            if str_eq(r.metadata[i].0.as_str(), key) {
                let entry = (key.to_string(), value.to_string());
                r.metadata.set(i, entry);
                proof {
                    assert(metadata_view(r.metadata@) =~= metadata_view(before).update(i as int, (key@, value@)));
                    let mv = metadata_view(before);
                    assert forall|x: int, y: int| 0 <= x < y < mv.len() && keys_unique(mv) implies metadata_view(r.metadata@)[x].0
                        != metadata_view(r.metadata@)[y].0 by {
                        if x == i {
                            assert(mv[x].0 == key@);
                        } else if y == i {
                            assert(mv[y].0 == key@);
                        }
                    }
                }
                return r;
            }
            i = i + 1;
        }
        r.metadata.push((key.to_string(), value.to_string()));
        proof {
            assert(metadata_view(r.metadata@) =~= metadata_view(before).push((key@, value@)));
            let mv = metadata_view(before);
            assert forall|x: int, y: int| 0 <= x < y < mv.len() + 1 && keys_unique(mv) implies metadata_view(r.metadata@)[x].0
                != metadata_view(r.metadata@)[y].0 by {
                if y == mv.len() {
                    assert(before[x].0@ != key@);
                }
            }
        }
        r
    }
}

/// True when `a` ranks at or above `b`: more severe, or as severe and no older.
pub open spec fn ranks_at_or_above(a: Issue, b: Issue) -> bool {
    severity_rank(a.severity) > severity_rank(b.severity) || (severity_rank(a.severity)
        == severity_rank(b.severity) && a.timestamp >= b.timestamp)
}

/// True when every issue ranks at or above every later one.
pub open spec fn is_ranked(s: Seq<Issue>) -> bool {
    forall|i: int, j: int| 0 <= i < j < s.len() ==> ranks_at_or_above(#[trigger] s[i], #[trigger] s[j])
}

/// True when `a` ranks at or above `b`.
fn ranks_first(a: &Issue, b: &Issue) -> (r: bool)
    ensures
        r == ranks_at_or_above(*a, *b),
{
    let ra = a.severity.rank();
    let rb = b.severity.rank();
    ra > rb || (ra == rb && a.timestamp >= b.timestamp)
}

/// The first position of `t` whose issue ranks strictly below `x`, or the
/// end of `t` when there is none.
pub open spec fn insertion_point(t: Seq<Issue>, x: Issue) -> int
    decreases t.len(),
{
    if t.len() == 0 {
        0
    } else if !ranks_at_or_above(t[0], x) {
        0
    } else {
        1 + insertion_point(t.drop_first(), x)
    }
}

/// The issues of `s` ranked by severity and then by time, newest first,
/// with issues that tie in the order they came: each issue in turn goes
/// after every issue placed so far that ranks at or above it.
pub open spec fn ranked(s: Seq<Issue>) -> Seq<Issue>
    decreases s.len(),
{
    if s.len() == 0 {
        Seq::empty()
    } else {
        let t = ranked(s.drop_last());
        t.insert(insertion_point(t, s.last()), s.last())
    }
}

proof fn lemma_insertion_point(t: Seq<Issue>, x: Issue)
    ensures
        0 <= insertion_point(t, x) <= t.len(),
        forall|k: int| 0 <= k < insertion_point(t, x) ==> ranks_at_or_above(#[trigger] t[k], x),
        insertion_point(t, x) < t.len() ==> !ranks_at_or_above(t[insertion_point(t, x)], x),
    decreases t.len(),
{
    if t.len() > 0 && ranks_at_or_above(t[0], x) {
        lemma_insertion_point(t.drop_first(), x);
        assert forall|k: int| 0 <= k < insertion_point(t, x) implies ranks_at_or_above(#[trigger] t[k], x) by {
            if k > 0 {
                assert(t[k] == t.drop_first()[k - 1]);
            }
        }
    }
}

/// Order issues by severity, most severe first, and within one severity by
/// timestamp, newest first. Issues that tie keep their relative order.
pub fn sort_issues(issues: Vec<Issue>) -> (r: Vec<Issue>)
    ensures
        r@ == ranked(issues@),
        is_ranked(r@),
        r@.to_multiset() == issues@.to_multiset(),
{
    let ghost orig = issues@;
    let mut rest = issues;
    let mut result: Vec<Issue> = Vec::new();
    let ghost mut i: int = 0;
    assert(orig.take(0) =~= Seq::<Issue>::empty());
    assert(Seq::<Issue>::empty().to_multiset() =~= Multiset::empty()) by {
        Seq::<Issue>::empty().to_multiset_ensures();
    }
    while rest.len() > 0
        invariant
            0 <= i <= orig.len(),
            rest@ == orig.subrange(i, orig.len() as int),
            result@ == ranked(orig.take(i)),
            is_ranked(result@),
            result@.to_multiset() == orig.take(i).to_multiset(),
        decreases rest.len(),
    {
        let x = rest.remove(0);
        let ghost t = result@;
        proof {
            assert(x == orig[i]);
            assert(orig.take(i + 1).drop_last() =~= orig.take(i));
            assert(orig.take(i + 1).last() == x);
            lemma_insertion_point(t, x);
        }
        let mut p: usize = 0;
        while p < result.len() && ranks_first(&result[p as usize], &x)
            invariant
                result@ == t,
                p <= result.len(),
                p <= insertion_point(t, x),
                forall|k: int| 0 <= k < p ==> ranks_at_or_above(#[trigger] t[k], x),
            decreases result.len() - p,
        {
            proof {
                lemma_insertion_point_exact(t, x, p + 1);
            }
            p = p + 1;
        }
        proof {
            lemma_insertion_point_exact(t, x, p as int);
        }
        result.insert(p, x);
        proof {
            lemma_insert_ranked(t, x, p as int);
            lemma_insert_multiset(t, x, p as int);
            vstd::seq_lib::to_multiset_build(orig.take(i), x);
            assert(orig.take(i).push(x) =~= orig.take(i + 1));
            i = i + 1;
            assert(rest@ =~= orig.subrange(i, orig.len() as int));
        }
    }
    assert(orig.take(i) =~= orig);
    result
}

/// Inserting an issue at its insertion point keeps a ranked list ranked.
proof fn lemma_insert_ranked(t: Seq<Issue>, x: Issue, p: int)
    requires
        is_ranked(t),
        0 <= p <= t.len(),
        forall|k: int| 0 <= k < p ==> ranks_at_or_above(#[trigger] t[k], x),
        p < t.len() ==> !ranks_at_or_above(t[p], x),
    ensures
        is_ranked(t.insert(p, x)),
{
    let n = t.insert(p, x);
    assert forall|a: int, b: int| 0 <= a < b < n.len() implies ranks_at_or_above(#[trigger] n[a], #[trigger] n[b]) by {
        if b < p {
            assert(n[a] == t[a] && n[b] == t[b]);
        } else if b == p {
            assert(n[a] == t[a]);
        } else if a == p {
            assert(n[b] == t[b - 1]);
            if b - 1 > p {
                assert(ranks_at_or_above(t[p], t[b - 1]));
            }
        } else if a < p {
            assert(n[a] == t[a] && n[b] == t[b - 1]);
        } else {
            assert(n[a] == t[a - 1] && n[b] == t[b - 1]);
        }
    }
}

/// Inserting an issue adds it to the multiset of a list.
proof fn lemma_insert_multiset(t: Seq<Issue>, x: Issue, p: int)
    requires
        0 <= p <= t.len(),
    ensures
        t.insert(p, x).to_multiset() == t.to_multiset().insert(x),
{
    let n = t.insert(p, x);
    assert(n.remove(p) =~= t);
    vstd::seq_lib::to_multiset_remove(n, p);
    n.to_multiset_ensures();
    assert(n[p] == x);
    assert(n.contains(x));
    assert(n.to_multiset() =~= t.to_multiset().insert(x));
}

/// The scan position `p` stops at the insertion point exactly.
proof fn lemma_insertion_point_exact(t: Seq<Issue>, x: Issue, p: int)
    requires
        0 <= p <= t.len(),
        forall|k: int| 0 <= k < p ==> ranks_at_or_above(#[trigger] t[k], x),
    ensures
        p <= insertion_point(t, x),
        p < t.len() && !ranks_at_or_above(t[p], x) ==> p == insertion_point(t, x),
        p == t.len() ==> p == insertion_point(t, x),
    decreases p,
{
    if p > 0 {
        assert(ranks_at_or_above(t[0], x));
        assert forall|k: int| 0 <= k < p - 1 implies ranks_at_or_above(#[trigger] t.drop_first()[k], x) by {
            assert(t.drop_first()[k] == t[k + 1]);
        }
        lemma_insertion_point_exact(t.drop_first(), x, p - 1);
        if p < t.len() {
            assert(t.drop_first()[p - 1] == t[p]);
        }
    } else {
        lemma_insertion_point(t, x);
    }
}

/// In a ranked list, a more severe issue never follows a less severe one,
/// and among issues of one severity a newer one never follows an older one.
pub proof fn lemma_ranked_order(s: Seq<Issue>, i: int, j: int)
    requires
        is_ranked(s),
        0 <= i < j < s.len(),
    ensures
        severity_rank(s[i].severity) >= severity_rank(s[j].severity),
        s[i].severity == IssueSeverity::Info ==> s[j].severity == IssueSeverity::Info,
        s[j].severity == IssueSeverity::Emergency ==> s[i].severity == IssueSeverity::Emergency,
        s[i].severity == s[j].severity ==> s[i].timestamp >= s[j].timestamp,
{
    assert(ranks_at_or_above(s[i], s[j]));
}

/// Number of issues of `s` that satisfy `p`.
pub open spec fn count_where(s: Seq<Issue>, p: spec_fn(Issue) -> bool) -> nat
    decreases s.len(),
{
    if s.len() == 0 {
        0
    } else {
        count_where(s.drop_last(), p) + if p(s.last()) {
            1nat
        } else {
            0nat
        }
    }
}

proof fn lemma_count_where_len(s: Seq<Issue>, p: spec_fn(Issue) -> bool)
    ensures
        count_where(s, p) <= s.len(),
    decreases s.len(),
{
    if s.len() > 0 {
        lemma_count_where_len(s.drop_last(), p);
    }
}

pub open spec fn count_severity(s: Seq<Issue>, sev: IssueSeverity) -> nat {
    count_where(s, |i: Issue| i.severity == sev)
}

pub open spec fn count_source(s: Seq<Issue>, src: IssueSource) -> nat {
    count_where(s, |i: Issue| i.source == src)
}

pub open spec fn count_category(s: Seq<Issue>, cat: IssueCategory) -> nat {
    count_where(s, |i: Issue| i.category == cat)
}

pub open spec fn count_location(s: Seq<Issue>, loc: Seq<char>) -> nat {
    count_where(s, |i: Issue| i.location@ == loc)
}

/// True when some issue of `s` has the location `loc`.
pub open spec fn has_location(s: Seq<Issue>, loc: Seq<char>) -> bool {
    exists|i: int| 0 <= i < s.len() && #[trigger] s[i].location@ == loc
}

/// A label with a number of issues.
#[derive(Clone, Debug)]
pub struct LabelCount {
    pub label: String,
    pub count: usize,
}

/// A country (as issues name their location) with its number of issues.
#[derive(Clone, Debug)]
pub struct CountryIssueCount {
    pub country: String,
    pub count: usize,
}

pub open spec fn label_counts_view(v: Seq<LabelCount>) -> Seq<(Seq<char>, int)> {
    v.map_values(|c: LabelCount| (c.label@, c.count as int))
}

/// `v` with `(label, c)` added at the end when `c` is positive.
pub open spec fn with_count(v: Seq<(Seq<char>, int)>, label: Seq<char>, c: int) -> Seq<(Seq<char>, int)> {
    if c > 0 {
        v.push((label, c))
    } else {
        v
    }
}

/// The number of issues of each source that has any, in the order of the
/// `IssueSource` variants, keyed by the source's label.
pub open spec fn source_counts(s: Seq<Issue>) -> Seq<(Seq<char>, int)> {
    let v0 = Seq::empty();
    let v1 = with_count(v0, source_label(IssueSource::Ioda), count_source(s, IssueSource::Ioda) as int);
    let v2 = with_count(v1, source_label(IssueSource::CloudflareRadar), count_source(s, IssueSource::CloudflareRadar) as int);
    let v3 = with_count(v2, source_label(IssueSource::HdxHapi), count_source(s, IssueSource::HdxHapi) as int);
    let v4 = with_count(v3, source_label(IssueSource::Acled), count_source(s, IssueSource::Acled) as int);
    with_count(v4, source_label(IssueSource::ReliefWeb), count_source(s, IssueSource::ReliefWeb) as int)
}

/// The number of issues of each category that has any, in the order of the
/// `IssueCategory` variants, keyed by the category's label.
pub open spec fn category_counts(s: Seq<Issue>) -> Seq<(Seq<char>, int)> {
    let v0 = Seq::empty();
    let v1 = with_count(v0, category_label(IssueCategory::InternetOutage), count_category(s, IssueCategory::InternetOutage) as int);
    let v2 = with_count(v1, category_label(IssueCategory::TrafficAnomaly), count_category(s, IssueCategory::TrafficAnomaly) as int);
    let v3 = with_count(v2, category_label(IssueCategory::Conflict), count_category(s, IssueCategory::Conflict) as int);
    let v4 = with_count(v3, category_label(IssueCategory::FoodSecurity), count_category(s, IssueCategory::FoodSecurity) as int);
    let v5 = with_count(v4, category_label(IssueCategory::Displacement), count_category(s, IssueCategory::Displacement) as int);
    let v6 = with_count(v5, category_label(IssueCategory::Disaster), count_category(s, IssueCategory::Disaster) as int);
    with_count(v6, category_label(IssueCategory::HumanitarianEmergency), count_category(s, IssueCategory::HumanitarianEmergency) as int)
}

/// Add `(label, count)` to `v` when `count` is positive.
fn push_if_positive(v: &mut Vec<LabelCount>, label: &str, count: usize)
    ensures
        label_counts_view(final(v)@) == with_count(label_counts_view(old(v)@), label@, count as int),
{
    if count > 0 {
        v.push(LabelCount { label: label.to_string(), count });
        assert(label_counts_view(v@) =~= label_counts_view(old(v)@).push((label@, count as int)));
    }
}

/// Number of issues from `src`.
fn count_of_source(issues: &Vec<Issue>, src: IssueSource) -> (r: usize)
    ensures
        r == count_source(issues@, src),
{
    let mut n: usize = 0;
    let mut i: usize = 0;
    while i < issues.len()
        invariant
            i <= issues.len(),
            n == count_source(issues@.take(i as int), src),
        decreases issues.len() - i,
    {
        proof {
            assert(issues@.take(i + 1).drop_last() =~= issues@.take(i as int));
            lemma_count_where_len(issues@.take(i as int), |x: Issue| x.source == src);
        }
        if issues[i].source == src {
            n = n + 1;
        }
        i = i + 1;
    }
    assert(issues@.take(i as int) =~= issues@);
    n
}

/// Number of issues in `cat`.
fn count_of_category(issues: &Vec<Issue>, cat: IssueCategory) -> (r: usize)
    ensures
        r == count_category(issues@, cat),
{
    let mut n: usize = 0;
    let mut i: usize = 0;
    while i < issues.len()
        invariant
            i <= issues.len(),
            n == count_category(issues@.take(i as int), cat),
        decreases issues.len() - i,
    {
        proof {
            assert(issues@.take(i + 1).drop_last() =~= issues@.take(i as int));
            lemma_count_where_len(issues@.take(i as int), |x: Issue| x.category == cat);
        }
        if issues[i].category == cat {
            n = n + 1;
        }
        i = i + 1;
    }
    assert(issues@.take(i as int) =~= issues@);
    n
}

/// Number of issues of severity `sev`.
fn count_of_severity(issues: &Vec<Issue>, sev: IssueSeverity) -> (r: usize)
    ensures
        r == count_severity(issues@, sev),
{
    let mut n: usize = 0;
    let mut i: usize = 0;
    while i < issues.len()
        invariant
            i <= issues.len(),
            n == count_severity(issues@.take(i as int), sev),
        decreases issues.len() - i,
    {
        proof {
            assert(issues@.take(i + 1).drop_last() =~= issues@.take(i as int));
            lemma_count_where_len(issues@.take(i as int), |x: Issue| x.severity == sev);
        }
        if issues[i].severity == sev {
            n = n + 1;
        }
        i = i + 1;
    }
    assert(issues@.take(i as int) =~= issues@);
    n
}

/// True when every entry of `v` carries the exact number of issues of `s`
/// at its country, that number is positive, and no country appears twice.
pub open spec fn exact_country_counts(s: Seq<Issue>, v: Seq<CountryIssueCount>) -> bool {
    &&& forall|k: int|
        0 <= k < v.len() ==> #[trigger] v[k].count == count_location(s, v[k].country@)
            && has_location(s, v[k].country@)
    &&& forall|k: int, l: int| 0 <= k < l < v.len() ==> v[k].country@ != v[l].country@
}

/// True when `v` lists the country `loc`.
pub open spec fn lists_country(v: Seq<CountryIssueCount>, loc: Seq<char>) -> bool {
    exists|k: int| 0 <= k < v.len() && #[trigger] v[k].country@ == loc
}

proof fn lemma_count_location_positive(s: Seq<Issue>, loc: Seq<char>)
    requires
        has_location(s, loc),
    ensures
        count_location(s, loc) > 0,
    decreases s.len(),
{
    let i = choose|i: int| 0 <= i < s.len() && #[trigger] s[i].location@ == loc;
    if i < s.len() - 1 {
        assert(s.drop_last()[i] == s[i]);
        lemma_count_location_positive(s.drop_last(), loc);
    }
}

/// Every location of `issues` once, in order of first appearance, with its
/// number of issues.
fn country_counts(issues: &Vec<Issue>) -> (r: Vec<CountryIssueCount>)
    ensures
        exact_country_counts(issues@, r@),
        forall|loc: Seq<char>| has_location(issues@, loc) ==> #[trigger] lists_country(r@, loc),
{
    let mut counts: Vec<CountryIssueCount> = Vec::new();
    let mut i: usize = 0;
    while i < issues.len()
        invariant
            i <= issues.len(),
            exact_country_counts(issues@.take(i as int), counts@),
            forall|loc: Seq<char>| has_location(issues@.take(i as int), loc) ==> #[trigger] lists_country(counts@, loc),
        decreases issues.len() - i,
    {
        let ghost prev = issues@.take(i as int);
        let ghost next = issues@.take(i + 1);
        let ghost old_counts = counts@;
        let loc = &issues[i].location;
        proof {
            assert(next.drop_last() =~= prev);
            assert(next.last() == issues@[i as int]);
            lemma_count_where_len(prev, |x: Issue| x.location@ == loc@);
        }
        let mut k: usize = 0;
        let mut found = false;
        while k < counts.len()
            invariant_except_break
                !found,
            invariant
                k <= counts.len(),
                counts@ == old_counts,
                forall|t: int| 0 <= t < k ==> #[trigger] counts@[t].country@ != loc@,
            ensures
                found ==> k < counts.len() && counts@[k as int].country@ == loc@,
                !found ==> k == counts.len(),
            decreases counts.len() - k,
        {
            if str_eq(counts[k].country.as_str(), loc.as_str()) {
                found = true;
                break;
            }
            k = k + 1;
        }
        if found {
            let c = counts[k].count;
            assert(c <= i) by {
                assert(c == count_location(prev, loc@));
            }
            let entry = CountryIssueCount { country: loc.clone(), count: c + 1 };
            counts.set(k, entry);
            proof {
                assert forall|t: int| 0 <= t < counts.len() implies #[trigger] counts@[t].count
                    == count_location(next, counts@[t].country@) && has_location(next, counts@[t].country@) by {
                    assert(count_location(next, counts@[t].country@) == count_location(prev, counts@[t].country@) + if loc@ == counts@[t].country@ { 1nat } else { 0nat });
                    if t != k {
                        assert(counts@[t] == old_counts[t]);
                        assert(old_counts[t].count == count_location(prev, old_counts[t].country@));
                        let j = choose|j: int| 0 <= j < prev.len() && #[trigger] prev[j].location@ == old_counts[t].country@;
                        assert(next[j] == prev[j]);
                    } else {
                        assert(next[i as int].location@ == loc@);
                    }
                }
                assert forall|t: int, u: int| 0 <= t < u < counts.len() implies counts@[t].country@ != counts@[u].country@ by {
                    assert(old_counts[t].country@ != old_counts[u].country@);
                }
                assert forall|l: Seq<char>| has_location(next, l) implies #[trigger] lists_country(counts@, l) by {
                    let j = choose|j: int| 0 <= j < next.len() && #[trigger] next[j].location@ == l;
                    if j < i {
                        assert(prev[j] == next[j]);
                        assert(has_location(prev, l));
                        assert(lists_country(old_counts, l));
                        let t = choose|t: int| 0 <= t < old_counts.len() && #[trigger] old_counts[t].country@ == l;
                        assert(counts@[t].country@ == l);
                    } else {
                        assert(counts@[k as int].country@ == l);
                    }
                }
            }
        } else {
            counts.push(CountryIssueCount { country: loc.clone(), count: 1 });
            proof {
                assert forall|t: int| 0 <= t < counts.len() implies #[trigger] counts@[t].count
                    == count_location(next, counts@[t].country@) && has_location(next, counts@[t].country@) by {
                    assert(count_location(next, counts@[t].country@) == count_location(prev, counts@[t].country@) + if loc@ == counts@[t].country@ { 1nat } else { 0nat });
                    if t < old_counts.len() {
                        assert(counts@[t] == old_counts[t]);
                        assert(old_counts[t].count == count_location(prev, old_counts[t].country@));
                        let j = choose|j: int| 0 <= j < prev.len() && #[trigger] prev[j].location@ == old_counts[t].country@;
                        assert(next[j] == prev[j]);
                    } else {
                        assert(next[i as int].location@ == loc@);
                        if has_location(prev, loc@) {
                            assert(lists_country(old_counts, loc@));
                            let u = choose|u: int| 0 <= u < old_counts.len() && #[trigger] old_counts[u].country@ == loc@;
                            assert(old_counts[u].country@ != loc@);
                        }
                        if count_location(prev, loc@) > 0 {
                            lemma_count_location_nonzero(prev, loc@);
                        }
                    }
                }
                assert forall|t: int, u: int| 0 <= t < u < counts.len() implies counts@[t].country@ != counts@[u].country@ by {
                    if u < old_counts.len() {
                        assert(old_counts[t].country@ != old_counts[u].country@);
                    } else {
                        assert(counts@[t] == old_counts[t]);
                        assert(old_counts[t].country@ != loc@);
                    }
                }
                assert forall|l: Seq<char>| has_location(next, l) implies #[trigger] lists_country(counts@, l) by {
                    let j = choose|j: int| 0 <= j < next.len() && #[trigger] next[j].location@ == l;
                    if j < i {
                        assert(prev[j] == next[j]);
                        assert(has_location(prev, l));
                        assert(lists_country(old_counts, l));
                        let t = choose|t: int| 0 <= t < old_counts.len() && #[trigger] old_counts[t].country@ == l;
                        assert(counts@[t].country@ == l);
                    } else {
                        assert(counts@[old_counts.len() as int].country@ == l);
                    }
                }
            }
        }
        i = i + 1;
    }
    assert(issues@.take(i as int) =~= issues@);
    counts
}

proof fn lemma_count_location_nonzero(s: Seq<Issue>, loc: Seq<char>)
    requires
        count_location(s, loc) > 0,
    ensures
        has_location(s, loc),
    decreases s.len(),
{
    if s.last().location@ == loc {
        assert(s[s.len() - 1].location@ == loc);
    } else {
        lemma_count_location_nonzero(s.drop_last(), loc);
        let i = choose|i: int| 0 <= i < s.drop_last().len() && #[trigger] s.drop_last()[i].location@ == loc;
        assert(s[i] == s.drop_last()[i]);
    }
}

/// True when `v` is a top list of at most `limit` countries of `s`: exact
/// counts, no country twice, counts never increasing, every country of `s`
/// listed when fewer than `limit` are, and no unlisted country with more
/// issues than the last listed one.
pub open spec fn is_top_countries(s: Seq<Issue>, v: Seq<CountryIssueCount>, limit: int) -> bool {
    &&& exact_country_counts(s, v)
    &&& v.len() <= limit
    &&& forall|k: int, l: int| 0 <= k < l < v.len() ==> #[trigger] v[k].count >= #[trigger] v[l].count
    &&& v.len() < limit ==> forall|loc: Seq<char>| has_location(s, loc) ==> #[trigger] lists_country(v, loc)
    &&& forall|loc: Seq<char>|
        has_location(s, loc) && !lists_country(v, loc) ==> v.len() > 0 && #[trigger] count_location(s, loc)
            <= v.last().count
}

/// The `limit` countries with the most issues, most first; among equal
/// counts the earlier entry of `counts` comes first.
fn top_countries(counts: Vec<CountryIssueCount>, limit: usize, Ghost(s): Ghost<Seq<Issue>>) -> (r: Vec<CountryIssueCount>)
    requires
        limit > 0,
        exact_country_counts(s, counts@),
        forall|loc: Seq<char>| has_location(s, loc) ==> #[trigger] lists_country(counts@, loc),
    ensures
        is_top_countries(s, r@, limit as int),
{
    let mut remaining = counts;
    let mut result: Vec<CountryIssueCount> = Vec::new();
    while result.len() < limit && remaining.len() > 0
        invariant
            limit > 0,
            result.len() <= limit,
            exact_country_counts(s, result@),
            exact_country_counts(s, remaining@),
            forall|k: int, l: int|
                0 <= k < result.len() && 0 <= l < remaining.len() ==> #[trigger] result@[k].country@
                    != #[trigger] remaining@[l].country@,
            forall|loc: Seq<char>|
                has_location(s, loc) ==> #[trigger] lists_country(result@, loc) || lists_country(remaining@, loc),
            forall|k: int, l: int| 0 <= k < l < result.len() ==> #[trigger] result@[k].count >= #[trigger] result@[l].count,
            forall|k: int, l: int|
                0 <= k < result.len() && 0 <= l < remaining.len() ==> #[trigger] result@[k].count
                    >= #[trigger] remaining@[l].count,
        decreases remaining.len(),
    {
        let mut best: usize = 0;
        let mut j: usize = 1;
        while j < remaining.len()
            invariant
                0 <= best < remaining.len(),
                1 <= j <= remaining.len(),
                forall|t: int| 0 <= t < j ==> remaining@[best as int].count >= #[trigger] remaining@[t].count,
            decreases remaining.len() - j,
        {
            if remaining[j].count > remaining[best].count {
                best = j;
            }
            j = j + 1;
        }
        let ghost before = remaining@;
        let ghost old_result = result@;
        let x = remaining.remove(best);
        result.push(x);
        proof {
            assert(x == before[best as int]);
            assert forall|l: int| 0 <= l < remaining.len() implies #[trigger] remaining@[l] == before[if l < best { l } else { l + 1 }] by {}
            assert forall|k: int| 0 <= k < result.len() implies #[trigger] result@[k] == if k < old_result.len() { old_result[k] } else { x } by {}
            // counts stay exact and distinct within each list
            assert forall|k: int| 0 <= k < result.len() implies #[trigger] result@[k].count
                == count_location(s, result@[k].country@) && has_location(s, result@[k].country@) by {
                if k < old_result.len() {
                    assert(old_result[k].count == count_location(s, old_result[k].country@));
                } else {
                    assert(before[best as int].count == count_location(s, before[best as int].country@));
                }
            }
            assert forall|k: int, l: int| 0 <= k < l < result.len() implies result@[k].country@ != result@[l].country@ by {
                if l == old_result.len() {
                    assert(old_result[k].country@ != before[best as int].country@);
                } else {
                    assert(old_result[k].country@ != old_result[l].country@);
                }
            }
            assert forall|l: int| 0 <= l < remaining.len() implies #[trigger] remaining@[l].count
                == count_location(s, remaining@[l].country@) && has_location(s, remaining@[l].country@) by {
                let b = if l < best { l } else { l + 1 };
                assert(before[b].count == count_location(s, before[b].country@));
            }
            assert forall|k: int, l: int| 0 <= k < l < remaining.len() implies remaining@[k].country@ != remaining@[l].country@ by {
                let bk = if k < best { k } else { k + 1 };
                let bl = if l < best { l } else { l + 1 };
                assert(before[bk].country@ != before[bl].country@);
            }
            assert forall|k: int, l: int|
                0 <= k < result.len() && 0 <= l < remaining.len() implies #[trigger] result@[k].country@
                    != #[trigger] remaining@[l].country@ by {
                let bl = if l < best { l } else { l + 1 };
                if k < old_result.len() {
                    assert(old_result[k].country@ != before[bl].country@);
                } else {
                    if best < bl {
                        assert(before[best as int].country@ != before[bl].country@);
                    } else {
                        assert(before[bl].country@ != before[best as int].country@);
                    }
                }
            }
            assert forall|loc: Seq<char>| has_location(s, loc) implies #[trigger] lists_country(result@, loc)
                || lists_country(remaining@, loc) by {
                if lists_country(old_result, loc) {
                    let k = choose|k: int| 0 <= k < old_result.len() && #[trigger] old_result[k].country@ == loc;
                    assert(result@[k].country@ == loc);
                } else {
                    assert(lists_country(before, loc));
                    let b = choose|b: int| 0 <= b < before.len() && #[trigger] before[b].country@ == loc;
                    if b == best {
                        assert(result@[old_result.len() as int].country@ == loc);
                    } else if b < best {
                        assert(remaining@[b].country@ == loc);
                    } else {
                        assert(remaining@[b - 1].country@ == loc);
                    }
                }
            }
            assert forall|k: int, l: int| 0 <= k < l < result.len() implies #[trigger] result@[k].count >= #[trigger] result@[l].count by {
                if l == old_result.len() {
                    assert(old_result[k].count >= before[best as int].count);
                } else {
                    assert(old_result[k].count >= old_result[l].count);
                }
            }
            assert forall|k: int, l: int|
                0 <= k < result.len() && 0 <= l < remaining.len() implies #[trigger] result@[k].count
                    >= #[trigger] remaining@[l].count by {
                let bl = if l < best { l } else { l + 1 };
                assert(before[best as int].count >= before[bl].count);
                if k < old_result.len() {
                    assert(old_result[k].count >= before[bl].count);
                }
            }
        }
    }
    proof {
        assert forall|loc: Seq<char>|
            has_location(s, loc) && !lists_country(result@, loc) implies result.len() > 0
                && #[trigger] count_location(s, loc) <= result@.last().count by {
            assert(lists_country(remaining@, loc));
            let l = choose|l: int| 0 <= l < remaining.len() && #[trigger] remaining@[l].country@ == loc;
            assert(remaining@[l].count == count_location(s, remaining@[l].country@));
            assert(result@[result.len() - 1].count >= remaining@[l].count);
        }
        if result.len() < limit {
            assert forall|loc: Seq<char>| has_location(s, loc) implies #[trigger] lists_country(result@, loc) by {
                if !lists_country(result@, loc) {
                    assert(lists_country(remaining@, loc));
                    let l = choose|l: int| 0 <= l < remaining.len() && #[trigger] remaining@[l].country@ == loc;
                }
            }
        }
    }
    result
}

/// The number of issues of each severity, source, category and location.
#[derive(Clone, Debug)]
pub struct DashboardSummary {
    pub total_issues: usize,
    pub emergency_count: usize,
    pub critical_count: usize,
    pub warning_count: usize,
    pub info_count: usize,
    /// Issues per source label, for the sources that have any.
    pub by_source: Vec<LabelCount>,
    /// Issues per category label, for the categories that have any.
    pub by_category: Vec<LabelCount>,
    /// At most ten locations with the most issues, most first.
    pub top_countries: Vec<CountryIssueCount>,
}

/// The most countries a summary lists.
pub const TOP_COUNTRIES: usize = 10;

/// True when `m` is the summary of the issues `s`.
pub open spec fn summarizes(m: DashboardSummary, s: Seq<Issue>) -> bool {
    &&& m.total_issues == s.len()
    &&& m.emergency_count == count_severity(s, IssueSeverity::Emergency)
    &&& m.critical_count == count_severity(s, IssueSeverity::Critical)
    &&& m.warning_count == count_severity(s, IssueSeverity::Warning)
    &&& m.info_count == count_severity(s, IssueSeverity::Info)
    &&& label_counts_view(m.by_source@) == source_counts(s)
    &&& label_counts_view(m.by_category@) == category_counts(s)
    &&& is_top_countries(s, m.top_countries@, TOP_COUNTRIES as int)
}

/// The count recorded for `label` in `v`, if any.
pub open spec fn count_for_label(v: Seq<(Seq<char>, int)>, label: Seq<char>) -> Option<int>
    decreases v.len(),
{
    if v.len() == 0 {
        None
    } else if v.last().0 == label {
        Some(v.last().1)
    } else {
        count_for_label(v.drop_last(), label)
    }
}

/// The count recorded for `label` in `v`, searching from the end.
fn find_label_count(v: &Vec<LabelCount>, label: &str) -> (r: Option<usize>)
    ensures
        r matches Some(c) ==> count_for_label(label_counts_view(v@), label@) == Some(c as int),
        r is None ==> count_for_label(label_counts_view(v@), label@) is None,
{
    let mut i: usize = v.len();
    assert(v@.take(i as int) =~= v@);
    while i > 0
        invariant
            i <= v.len(),
            count_for_label(label_counts_view(v@), label@) == count_for_label(
                label_counts_view(v@.take(i as int)),
                label@,
            ),
        decreases i,
    {
        let ghost t = label_counts_view(v@.take(i as int));
        assert(t.drop_last() =~= label_counts_view(v@.take(i - 1)));
        if str_eq(v[i - 1].label.as_str(), label) {
            return Some(v[i - 1].count);
        }
        i = i - 1;
    }
    None
}

impl DashboardSummary {
    /// Summarize a list of issues.
    pub fn from_issues(issues: &Vec<Issue>) -> (r: DashboardSummary)
        ensures
            summarizes(r, issues@),
    {
        let mut by_source: Vec<LabelCount> = Vec::new();
        assert(label_counts_view(by_source@) =~= Seq::empty());
        push_if_positive(&mut by_source, IssueSource::Ioda.label(), count_of_source(issues, IssueSource::Ioda));
        push_if_positive(&mut by_source, IssueSource::CloudflareRadar.label(), count_of_source(issues, IssueSource::CloudflareRadar));
        push_if_positive(&mut by_source, IssueSource::HdxHapi.label(), count_of_source(issues, IssueSource::HdxHapi));
        push_if_positive(&mut by_source, IssueSource::Acled.label(), count_of_source(issues, IssueSource::Acled));
        push_if_positive(&mut by_source, IssueSource::ReliefWeb.label(), count_of_source(issues, IssueSource::ReliefWeb));
        let mut by_category: Vec<LabelCount> = Vec::new();
        assert(label_counts_view(by_category@) =~= Seq::empty());
        push_if_positive(&mut by_category, IssueCategory::InternetOutage.label(), count_of_category(issues, IssueCategory::InternetOutage));
        push_if_positive(&mut by_category, IssueCategory::TrafficAnomaly.label(), count_of_category(issues, IssueCategory::TrafficAnomaly));
        push_if_positive(&mut by_category, IssueCategory::Conflict.label(), count_of_category(issues, IssueCategory::Conflict));
        push_if_positive(&mut by_category, IssueCategory::FoodSecurity.label(), count_of_category(issues, IssueCategory::FoodSecurity));
        push_if_positive(&mut by_category, IssueCategory::Displacement.label(), count_of_category(issues, IssueCategory::Displacement));
        push_if_positive(&mut by_category, IssueCategory::Disaster.label(), count_of_category(issues, IssueCategory::Disaster));
        push_if_positive(&mut by_category, IssueCategory::HumanitarianEmergency.label(), count_of_category(issues, IssueCategory::HumanitarianEmergency));
        let counts = country_counts(issues);
        let top_countries = top_countries(counts, TOP_COUNTRIES, Ghost(issues@));
        DashboardSummary {
            total_issues: issues.len(),
            emergency_count: count_of_severity(issues, IssueSeverity::Emergency),
            critical_count: count_of_severity(issues, IssueSeverity::Critical),
            warning_count: count_of_severity(issues, IssueSeverity::Warning),
            info_count: count_of_severity(issues, IssueSeverity::Info),
            by_source,
            by_category,
            top_countries,
        }
    }

    /// The number of issues recorded for the source label `label`, if any.
    pub fn source_count(&self, label: &str) -> (r: Option<usize>)
        ensures
            r matches Some(c) ==> count_for_label(label_counts_view(self.by_source@), label@) == Some(c as int),
            r is None ==> count_for_label(label_counts_view(self.by_source@), label@) is None,
    {
        find_label_count(&self.by_source, label)
    }

    /// The number of issues recorded for the category label `label`, if any.
    pub fn category_count(&self, label: &str) -> (r: Option<usize>)
        ensures
            r matches Some(c) ==> count_for_label(label_counts_view(self.by_category@), label@) == Some(c as int),
            r is None ==> count_for_label(label_counts_view(self.by_category@), label@) is None,
    {
        find_label_count(&self.by_category, label)
    }
}

/// A provider that failed, with the reason.
#[derive(Clone, Debug)]
pub struct SourceError {
    pub source: IssueSource,
    pub message: String,
}

/// What one provider returned: its issues, or the reason it failed.
#[derive(Debug)]
pub struct SourceOutcome {
    pub source: IssueSource,
    pub result: Result<Vec<Issue>, String>,
}

/// The merged view of all providers at one moment.
#[derive(Clone, Debug)]
pub struct DashboardResponse {
    /// When the view was built, in unix seconds.
    pub timestamp: i64,
    pub summary: DashboardSummary,
    /// All issues, ranked by severity and then by time, newest first.
    pub issues: Vec<Issue>,
    /// The providers that failed.
    pub errors: Vec<SourceError>,
}

/// The issues of the providers that succeeded, provider by provider.
pub open spec fn merged_issues(rs: Seq<SourceOutcome>) -> Seq<Issue>
    decreases rs.len(),
{
    if rs.len() == 0 {
        Seq::empty()
    } else {
        merged_issues(rs.drop_last()) + match rs.last().result {
            Ok(v) => v@,
            Err(_) => Seq::empty(),
        }
    }
}

/// The providers that failed, with their reasons, in order.
pub open spec fn source_errors(rs: Seq<SourceOutcome>) -> Seq<(IssueSource, Seq<char>)>
    decreases rs.len(),
{
    if rs.len() == 0 {
        Seq::empty()
    } else {
        source_errors(rs.drop_last()) + match rs.last().result {
            Ok(_) => Seq::empty(),
            Err(m) => seq![(rs.last().source, m@)],
        }
    }
}

/// Number of providers that failed.
pub open spec fn failure_count(rs: Seq<SourceOutcome>) -> nat
    decreases rs.len(),
{
    if rs.len() == 0 {
        0
    } else {
        failure_count(rs.drop_last()) + if rs.last().result is Err {
            1nat
        } else {
            0nat
        }
    }
}

/// Number of issues the providers that succeeded returned.
pub open spec fn success_issue_count(rs: Seq<SourceOutcome>) -> nat
    decreases rs.len(),
{
    if rs.len() == 0 {
        0
    } else {
        success_issue_count(rs.drop_last()) + match rs.last().result {
            Ok(v) => v@.len(),
            Err(_) => 0nat,
        }
    }
}

/// Failures are isolated: the merge reports exactly one error per failing
/// provider and keeps every issue of every provider that succeeded.
pub proof fn lemma_failures_isolated(rs: Seq<SourceOutcome>)
    ensures
        source_errors(rs).len() == failure_count(rs),
        merged_issues(rs).len() == success_issue_count(rs),
    decreases rs.len(),
{
    if rs.len() > 0 {
        lemma_failures_isolated(rs.drop_last());
    }
}

pub open spec fn errors_view(v: Seq<SourceError>) -> Seq<(IssueSource, Seq<char>)> {
    v.map_values(|e: SourceError| (e.source, e.message@))
}

/// Merge what every provider returned into one view at `now`: the issues of
/// the providers that succeeded, ranked; one error for each provider that
/// failed; and the summary of the ranked issues. A failing provider never
/// keeps the others' issues out.
pub fn merge_source_results(results: Vec<SourceOutcome>, now: i64) -> (r: DashboardResponse)
    ensures
        r.timestamp == now,
        r.issues@ == ranked(merged_issues(results@)),
        is_ranked(r.issues@),
        r.issues@.to_multiset() == merged_issues(results@).to_multiset(),
        errors_view(r.errors@) == source_errors(results@),
        summarizes(r.summary, r.issues@),
{
    let ghost orig = results@;
    let mut rest = results;
    let mut all: Vec<Issue> = Vec::new();
    let mut errors: Vec<SourceError> = Vec::new();
    let ghost mut i: int = 0;
    assert(orig.take(0) =~= Seq::<SourceOutcome>::empty());
    assert(errors_view(errors@) =~= Seq::empty());
    while rest.len() > 0
        invariant
            0 <= i <= orig.len(),
            rest@ == orig.subrange(i, orig.len() as int),
            all@ == merged_issues(orig.take(i)),
            errors_view(errors@) == source_errors(orig.take(i)),
        decreases rest.len(),
    {
        let o = rest.remove(0);
        proof {
            assert(o == orig[i]);
            assert(orig.take(i + 1).drop_last() =~= orig.take(i));
            assert(orig.take(i + 1).last() == o);
        }
        let SourceOutcome { source, result } = o;
        match result {
            Ok(mut v) => {
                let ghost vs = v@;
                all.append(&mut v);
                assert(all@ =~= merged_issues(orig.take(i + 1)));
                assert(errors_view(errors@) =~= source_errors(orig.take(i + 1)));
            },
            Err(message) => {
                let ghost m = message@;
                errors.push(SourceError { source, message });
                assert(all@ =~= merged_issues(orig.take(i + 1)));
                assert(errors_view(errors@) =~= source_errors(orig.take(i + 1)));
            },
        }
        proof {
            i = i + 1;
            assert(rest@ =~= orig.subrange(i, orig.len() as int));
        }
    }
    assert(orig.take(i) =~= orig);
    let issues = sort_issues(all);
    let summary = DashboardSummary::from_issues(&issues);
    DashboardResponse { timestamp: now, summary, issues, errors }
}

/// True when the characters `c` and `d` are equal once ASCII letters are
/// folded to lowercase.
pub open spec fn ascii_fold_eq(c: char, d: char) -> bool {
    c == d || (65 <= c as u32 <= 90 && c as u32 + 32 == d as u32) || (65 <= d as u32 <= 90 && d as u32
        + 32 == c as u32)
}

/// Equality of two strings up to ASCII case.
pub open spec fn eq_ignore_ascii_case(a: Seq<char>, b: Seq<char>) -> bool {
    a.len() == b.len() && forall|i: int| 0 <= i < a.len() ==> ascii_fold_eq(#[trigger] a[i], b[i])
}

/// True when `needle` occurs in `hay` as a contiguous run.
pub open spec fn is_substring(needle: Seq<char>, hay: Seq<char>) -> bool {
    exists|i: int| 0 <= i && i + needle.len() <= hay.len() && #[trigger] hay.subrange(i, i + needle.len()) == needle
}

/// The country filter on already lowercased text: the code equals the
/// location code up to ASCII case, or the lowercase code occurs in the
/// lowercase location name.
pub open spec fn country_matches(
    location_code: Seq<char>,
    location_lower: Seq<char>,
    code: Seq<char>,
    code_lower: Seq<char>,
) -> bool {
    eq_ignore_ascii_case(location_code, code) || is_substring(code_lower, location_lower)
}

/// True when `issue` passes the country filter `code`.
pub open spec fn issue_matches_country(issue: Issue, code: Seq<char>) -> bool {
    country_matches(issue.location_code@, lower_of(issue.location@), code, lower_of(code))
}

/// Equality of `a` and `b` up to ASCII case.
pub fn str_eq_ignore_ascii_case(a: &str, b: &str) -> (r: bool)
    ensures
        r == eq_ignore_ascii_case(a@, b@),
{
    let n = a.unicode_len();
    if n != b.unicode_len() {
        return false;
    }
    let mut i: usize = 0;
    while i < n
        invariant
            n == a@.len(),
            n == b@.len(),
            i <= n,
            forall|k: int| 0 <= k < i ==> ascii_fold_eq(#[trigger] a@[k], b@[k]),
        decreases n - i,
    {
        let c = a.get_char(i);
        let d = b.get_char(i);
        let cu = c as u32;
        let du = d as u32;
        let same = c == d || (65 <= cu && cu <= 90 && cu + 32 == du) || (65 <= du && du <= 90 && du + 32 == cu);
        if !same {
            return false;
        }
        i = i + 1;
    }
    true
}

/// True when `needle` occurs in `hay`.
pub fn contains_substring(hay: &str, needle: &str) -> (r: bool)
    ensures
        r == is_substring(needle@, hay@),
{
    let n = hay.unicode_len();
    let m = needle.unicode_len();
    if m > n {
        assert(!is_substring(needle@, hay@));
        return false;
    }
    let mut start: usize = 0;
    while start <= n - m
        invariant
            n == hay@.len(),
            m == needle@.len(),
            m <= n,
            start <= n - m + 1,
            forall|t: int| 0 <= t < start ==> #[trigger] hay@.subrange(t, t + m) != needle@,
        decreases n - m + 1 - start,
    {
        let mut k: usize = 0;
        let mut same = true;
        while k < m
            invariant_except_break
                same,
            invariant
                k <= m,
                start + m <= n,
                n == hay@.len(),
                m == needle@.len(),
                forall|t: int| 0 <= t < k ==> hay@[start + t] == needle@[t],
            ensures
                same ==> k == m,
                !same ==> k < m && hay@[start + k] != needle@[k as int],
            decreases m - k,
        {
            if hay.get_char(start + k) != needle.get_char(k) {
                same = false;
                break;
            }
            k = k + 1;
        }
        if same {
            assert(hay@.subrange(start as int, start + m) =~= needle@);
            return true;
        }
        assert(hay@.subrange(start as int, start + m)[k as int] == hay@[start + k]);
        start = start + 1;
    }
    assert forall|t: int| 0 <= t && t + needle@.len() <= hay@.len() implies #[trigger] hay@.subrange(t, t + needle@.len()) != needle@ by {
        assert(t < start);
    }
    false
}

/// The country filter on already lowercased text (see [`country_matches`]).
pub fn country_filter_matches(location_code: &str, location_lower: &str, code: &str, code_lower: &str) -> (r: bool)
    ensures
        r == country_matches(location_code@, location_lower@, code@, code_lower@),
{
    str_eq_ignore_ascii_case(location_code, code) || contains_substring(location_lower, code_lower)
}

/// True when `issue` passes the country filter `code`: its location code
/// equals `code` up to ASCII case, or its lowercase location name contains
/// the lowercase `code`.
pub fn matches_country(issue: &Issue, code: &str) -> (r: bool)
    ensures
        r == issue_matches_country(*issue, code@),
{
    let location_lower = lowercase(issue.location.as_str());
    let code_lower = lowercase(code);
    country_filter_matches(issue.location_code.as_str(), location_lower.as_str(), code, code_lower.as_str())
}

/// The country filter is asymmetric: a code whose length differs from the
/// issue's location code (as `uk` against `UKR`) never matches that code,
/// and matches the issue only as a substring of its lowercase location name.
pub proof fn lemma_partial_code_matches_only_by_name(issue: Issue, code: Seq<char>)
    requires
        issue.location_code@.len() != code.len(),
    ensures
        issue_matches_country(issue, code) == is_substring(lower_of(code), lower_of(issue.location@)),
{
}

/// The issues of `s` that pass the country filter `code`, in order.
pub open spec fn issues_in_country(s: Seq<Issue>, code: Seq<char>) -> Seq<Issue>
    decreases s.len(),
{
    if s.len() == 0 {
        Seq::empty()
    } else if issue_matches_country(s.last(), code) {
        issues_in_country(s.drop_last(), code).push(s.last())
    } else {
        issues_in_country(s.drop_last(), code)
    }
}

/// Keep the issues that pass the country filter `code`, in their order.
pub fn get_issues_by_country(issues: Vec<Issue>, code: &str) -> (r: Vec<Issue>)
    ensures
        r@ == issues_in_country(issues@, code@),
{
    let ghost orig = issues@;
    let mut rest = issues;
    let mut kept: Vec<Issue> = Vec::new();
    let ghost mut i: int = 0;
    assert(orig.take(0) =~= Seq::<Issue>::empty());
    while rest.len() > 0
        invariant
            0 <= i <= orig.len(),
            rest@ == orig.subrange(i, orig.len() as int),
            kept@ == issues_in_country(orig.take(i), code@),
        decreases rest.len(),
    {
        let x = rest.remove(0);
        proof {
            assert(x == orig[i]);
            assert(orig.take(i + 1).drop_last() =~= orig.take(i));
            assert(orig.take(i + 1).last() == x);
        }
        if matches_country(&x, code) {
            kept.push(x);
        }
        proof {
            i = i + 1;
            assert(rest@ =~= orig.subrange(i, orig.len() as int));
        }
    }
    assert(orig.take(i) =~= orig);
    kept
}

/// Filters of a dashboard request.
#[derive(Clone, Debug, Default)]
pub struct DashboardQuery {
    pub source: Option<String>,
    pub country: Option<String>,
}

/// What a dashboard request asks for, once its filters are read.
#[derive(Clone, Debug)]
pub enum DashboardPlan {
    /// The issues of every provider.
    All,
    /// The issues that pass a country filter.
    ByCountry(String),
    /// The issues of one provider.
    BySource(IssueSource),
    /// A source filter that names no provider.
    InvalidSource,
}

/// Read the filters of a dashboard request: a country filter takes
/// precedence over a source filter; a source filter must name a provider.
pub fn plan_dashboard_query(query: &DashboardQuery) -> (r: DashboardPlan)
    ensures
        query.country matches Some(c) ==> (r matches DashboardPlan::ByCountry(x) && x@ == c@),
        query.country is None && query.source is None ==> r is All,
        query.country is None ==> (query.source matches Some(t) ==> match source_for_token(t@) {
            Some(src) => r == DashboardPlan::BySource(src),
            None => r is InvalidSource,
        }),
{
    match &query.country {
        Some(c) => DashboardPlan::ByCountry(c.clone()),
        None => match &query.source {
            Some(t) => match IssueSource::from_token(t.as_str()) {
                Some(src) => DashboardPlan::BySource(src),
                None => DashboardPlan::InvalidSource,
            },
            None => DashboardPlan::All,
        },
    }
}

/// The view of an already filtered list of issues at `now`: the issues as
/// given, their summary, and no provider errors.
pub fn filtered_response(issues: Vec<Issue>, now: i64) -> (r: DashboardResponse)
    ensures
        r.timestamp == now,
        r.issues@ == issues@,
        summarizes(r.summary, issues@),
        r.errors@.len() == 0,
{
    let summary = DashboardSummary::from_issues(&issues);
    DashboardResponse { timestamp: now, summary, issues, errors: Vec::new() }
}

} // verus!
