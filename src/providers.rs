//! The aggregator's policy for each provider: which records become issues,
//! with which severity and category, and how they are described.
use vstd::prelude::*;

use crate::acled::{fatality_sum, lex_le, AcledResponse};
use crate::cloudflare::{anomaly_end, CloudflareAnomaliesResponse, CloudflareAnomaly};
use crate::hdx_hapi::{parse_period_start, period_start, HdxNationalRisk};
use crate::ioda::{drop_scaled, IodaAlert};
use crate::text::{decimal, push_decimal, push_signed_decimal, push_tenths, signed_decimal, tenths_text};
use crate::time::{representable_seconds, ymd_midnight_seconds};
use crate::dashboard::{
    issue_id_text, lower_of, metadata_view, Issue, IssueCategory, IssueSeverity, IssueSource,
};
use crate::reliefweb::{ReliefWebDisasterFields, ReliefWebListResponse};
use crate::storage::str_eq;
use crate::time::rfc3339_seconds;

verus! {

/// A country to watch, with both of its code forms.
#[derive(Clone, Debug, Default)]
pub struct MonitoredCountry {
    /// ISO 3166-1 alpha-2 code, as in `UA`.
    pub alpha2: String,
    /// ISO 3166-1 alpha-3 code, as in `UKR`.
    pub alpha3: String,
    /// Display name, also used to query the conflict provider.
    pub name: String,
}

/// Settings of the aggregator.
#[derive(Clone, Debug)]
pub struct DashboardConfig {
    pub acled_email: Option<String>,
    pub acled_key: Option<String>,
    pub cloudflare_token: Option<String>,
    pub app_identifier: String,
    pub monitored_countries: Vec<MonitoredCountry>,
    /// Hours to look back for recent issues.
    pub lookback_hours: u32,
}

impl Default for DashboardConfig {
    fn default() -> (r: Self)
        ensures
            r.acled_email is None,
            r.acled_key is None,
            r.cloudflare_token is None,
            r.app_identifier@ == "infrared"@,
            r.monitored_countries@.len() == 0,
            r.lookback_hours == 24,
    {
        DashboardConfig {
            acled_email: None,
            acled_key: None,
            cloudflare_token: None,
            app_identifier: String::from_str("infrared"),
            monitored_countries: Vec::new(),
            lookback_hours: 24,
        }
    }
}

/// True when the fields every issue builder sets agree with the given values.
pub open spec fn issue_head(
    i: Issue,
    source: IssueSource,
    category: IssueCategory,
    severity: IssueSeverity,
    location: Seq<char>,
    location_code: Seq<char>,
    title: Seq<char>,
    description: Seq<char>,
    timestamp: int,
) -> bool {
    &&& i.id@ == issue_id_text(source, category, lower_of(location_code), timestamp)
    &&& i.source == source
    &&& i.category == category
    &&& i.severity == severity
    &&& i.location@ == location
    &&& i.location_code@ == location_code
    &&& i.title@ == title
    &&& i.description@ == description
    &&& i.timestamp == timestamp
}

/// The text of a boolean.
pub open spec fn bool_text(b: bool) -> Seq<char> {
    if b {
        "true"@
    } else {
        "false"@
    }
}

fn bool_str(b: bool) -> (r: &'static str)
    ensures
        r@ == bool_text(b),
{
    if b {
        "true"
    } else {
        "false"
    }
}

/// The severity of a traffic anomaly: critical once verified, else warning.
pub open spec fn cloudflare_severity_of(verified: bool) -> IssueSeverity {
    if verified {
        IssueSeverity::Critical
    } else {
        IssueSeverity::Warning
    }
}

pub fn cloudflare_severity(verified: bool) -> (r: IssueSeverity)
    ensures
        r == cloudflare_severity_of(verified),
{
    if verified {
        IssueSeverity::Critical
    } else {
        IssueSeverity::Warning
    }
}

/// A start time, or `now` when it does not parse.
pub open spec fn or_now(t: Option<int>, now: int) -> int {
    match t {
        Some(x) => x,
        None => now,
    }
}

/// True when `i` is the issue built from the anomaly `a` at `now`.
pub open spec fn is_cloudflare_issue(i: Issue, a: CloudflareAnomaly, now: int) -> bool {
    &&& issue_head(
        i,
        IssueSource::CloudflareRadar,
        IssueCategory::TrafficAnomaly,
        cloudflare_severity_of(a.verified),
        a.location_name@,
        a.location@,
        "Traffic anomaly in "@ + a.location_name@,
        a.description@,
        or_now(rfc3339_seconds(a.start_time@), now),
    )
    &&& metadata_view(i.metadata@) == seq![("anomaly_type"@, a.anomaly_type@), ("verified"@, bool_text(a.verified))]
    &&& i.impact_hundredths is None
    &&& i.url is None
    &&& match anomaly_end(a) {
        Some(e) => i.end_timestamp == Some(e as i64) && !i.is_ongoing,
        None => i.end_timestamp is None && i.is_ongoing,
    }
}

/// The issue of one traffic anomaly.
pub fn cloudflare_issue(a: &CloudflareAnomaly, now: i64) -> (r: Issue)
    ensures
        is_cloudflare_issue(r, *a, now as int),
{
    let timestamp = match a.start_datetime() {
        Some(t) => t,
        None => now,
    };
    let mut title = String::from_str("Traffic anomaly in ");
    title.append(a.location_name.as_str());
    let issue = Issue::new(
        IssueSource::CloudflareRadar,
        IssueCategory::TrafficAnomaly,
        cloudflare_severity(a.verified),
        a.location_name.as_str(),
        a.location.as_str(),
        title.as_str(),
        a.description.as_str(),
        timestamp,
    );
    proof {
        reveal_strlit("anomaly_type");
        reveal_strlit("verified");
    }
    let issue = issue.with_metadata("anomaly_type", a.anomaly_type.as_str());
    assert(metadata_view(issue.metadata@) =~= seq![("anomaly_type"@, a.anomaly_type@)]);
    proof {
        assert("anomaly_type"@[0] != "verified"@[0]);
        assert(metadata_view(issue.metadata@).len() == issue.metadata@.len());
        crate::dashboard::lemma_key_absent(issue.metadata@, "verified"@);
    }
    let issue = issue.with_metadata("verified", bool_str(a.verified));
    assert(metadata_view(issue.metadata@) =~= seq![("anomaly_type"@, a.anomaly_type@), ("verified"@, bool_text(a.verified))]);
    match a.end_datetime() {
        Some(end) => issue.with_end(end),
        None => issue,
    }
}

/// The issues of all anomalies of an answer, in order; none without a result.
pub fn cloudflare_issues(response: &CloudflareAnomaliesResponse, now: i64) -> (r: Vec<Issue>)
    ensures
        response.result is None ==> r@.len() == 0,
        response.result matches Some(res) ==> r@.len() == res.anomalies@.len() && forall|k: int|
            0 <= k < r@.len() ==> is_cloudflare_issue(#[trigger] r@[k], res.anomalies@[k], now as int),
{
    let mut issues: Vec<Issue> = Vec::new();
    match &response.result {
        Some(result) => {
            let mut i: usize = 0;
            while i < result.anomalies.len()
                invariant
                    i <= result.anomalies.len(),
                    issues@.len() == i,
                    forall|k: int| 0 <= k < i ==> is_cloudflare_issue(#[trigger] issues@[k], result.anomalies@[k], now as int),
                decreases result.anomalies.len() - i,
            {
                let issue = cloudflare_issue(&result.anomalies[i], now);
                issues.push(issue);
                i = i + 1;
            }
        },
        None => {},
    }
    issues
}

/// The severity of a disaster by its type: a complex emergency is an
/// emergency; conflict, epidemic, flood, earthquake and tsunami are critical;
/// anything else, or no type, is a warning.
pub open spec fn reliefweb_severity_of(kind_name: Option<Seq<char>>) -> IssueSeverity {
    match kind_name {
        Some(t) => if t == "Complex Emergency"@ {
            IssueSeverity::Emergency
        } else if t == "Conflict"@ || t == "Epidemic"@ || t == "Flood"@ || t == "Earthquake"@ || t == "Tsunami"@ {
            IssueSeverity::Critical
        } else {
            IssueSeverity::Warning
        },
        None => IssueSeverity::Warning,
    }
}

pub fn reliefweb_severity(kind_name: Option<&str>) -> (r: IssueSeverity)
    ensures
        r == reliefweb_severity_of(match kind_name { Some(t) => Some(t@), None => None }),
{
    match kind_name {
        Some(t) => if str_eq(t, "Complex Emergency") {
            IssueSeverity::Emergency
        } else if str_eq(t, "Conflict") || str_eq(t, "Epidemic") || str_eq(t, "Flood") || str_eq(t, "Earthquake")
            || str_eq(t, "Tsunami") {
            IssueSeverity::Critical
        } else {
            IssueSeverity::Warning
        },
        None => IssueSeverity::Warning,
    }
}

/// The first type name of a disaster, if it has a type.
pub open spec fn first_type(d: ReliefWebDisasterFields) -> Option<Seq<char>> {
    if d.disaster_type@.len() > 0 {
        Some(d.disaster_type@[0].name@)
    } else {
        None
    }
}

/// True when `i` is the issue built from the disaster `d` at `now`.
pub open spec fn is_reliefweb_issue(i: Issue, d: ReliefWebDisasterFields, now: int) -> bool {
    &&& issue_head(
        i,
        IssueSource::ReliefWeb,
        IssueCategory::Disaster,
        reliefweb_severity_of(first_type(d)),
        match d.primary_country {
            Some(c) => c.name@,
            None => "Unknown"@,
        },
        match d.primary_country {
            Some(c) => c.iso3@,
            None => Seq::empty(),
        },
        d.name@,
        d.description@,
        or_now(
            match d.date {
                Some(dt) => rfc3339_seconds(dt.created@),
                None => None,
            },
            now,
        ),
    )
    &&& i.url matches Some(u) && u@ == d.url@
    &&& metadata_view(i.metadata@) == seq![
        ("disaster_type"@, match first_type(d) { Some(t) => t, None => "Unknown"@ }),
        ("glide"@, d.glide@),
        ("status"@, d.status@),
    ]
    &&& i.is_ongoing
    &&& i.end_timestamp is None
    &&& i.impact_hundredths is None
}

/// The issue of one disaster.
pub fn reliefweb_issue(d: &ReliefWebDisasterFields, now: i64) -> (r: Issue)
    ensures
        is_reliefweb_issue(r, *d, now as int),
{
    let kind_name = d.primary_type_name();
    let severity = reliefweb_severity(kind_name);
    let timestamp = match &d.date {
        Some(dt) => match dt.created_datetime() {
            Some(t) => t,
            None => now,
        },
        None => now,
    };
    let location = match d.country_name() {
        Some(n) => n,
        None => "Unknown",
    };
    let code = match &d.primary_country {
        Some(c) => c.iso3.as_str(),
        None => "",
    };
    proof {
        reveal_strlit("");
        reveal_strlit("disaster_type");
        reveal_strlit("glide");
        reveal_strlit("status");
    }
    assert(code@ == match d.primary_country { Some(c) => c.iso3@, None => Seq::<char>::empty() });
    let issue = Issue::new(
        IssueSource::ReliefWeb,
        IssueCategory::Disaster,
        severity,
        location,
        code,
        d.name.as_str(),
        d.description.as_str(),
        timestamp,
    );
    let issue = issue.with_url(d.url.as_str());
    let kind = match kind_name {
        Some(t) => t,
        None => "Unknown",
    };
    let issue = issue.with_metadata("disaster_type", kind);
    assert(metadata_view(issue.metadata@) =~= seq![("disaster_type"@, kind@)]);
    proof {
        assert("disaster_type"@[0] != "glide"@[0]);
        assert(metadata_view(issue.metadata@).len() == issue.metadata@.len());
        crate::dashboard::lemma_key_absent(issue.metadata@, "glide"@);
    }
    let issue = issue.with_metadata("glide", d.glide.as_str());
    assert(metadata_view(issue.metadata@) =~= seq![("disaster_type"@, kind@), ("glide"@, d.glide@)]);
    proof {
        assert("disaster_type"@[0] != "status"@[0]);
        assert("glide"@[0] != "status"@[0]);
        assert(metadata_view(issue.metadata@).len() == issue.metadata@.len());
        crate::dashboard::lemma_key_absent(issue.metadata@, "status"@);
    }
    let issue = issue.with_metadata("status", d.status.as_str());
    assert(metadata_view(issue.metadata@) =~= seq![("disaster_type"@, kind@), ("glide"@, d.glide@), ("status"@, d.status@)]);
    assert(seq![("disaster_type"@, kind@), ("glide"@, d.glide@), ("status"@, d.status@)] =~= seq![
        ("disaster_type"@, match first_type(*d) { Some(t) => t, None => "Unknown"@ }),
        ("glide"@, d.glide@),
        ("status"@, d.status@),
    ]);
    issue
}

/// The issues of all disasters of a list, in order.
pub fn reliefweb_issues(disasters: &ReliefWebListResponse<ReliefWebDisasterFields>, now: i64) -> (r: Vec<Issue>)
    ensures
        r@.len() == disasters.data@.len(),
        forall|k: int| 0 <= k < r@.len() ==> is_reliefweb_issue(#[trigger] r@[k], disasters.data@[k].fields, now as int),
{
    let mut issues: Vec<Issue> = Vec::new();
    let mut i: usize = 0;
    while i < disasters.data.len()
        invariant
            i <= disasters.data.len(),
            issues@.len() == i,
            forall|k: int| 0 <= k < i ==> is_reliefweb_issue(#[trigger] issues@[k], disasters.data@[k].fields, now as int),
        decreases disasters.data.len() - i,
    {
        let issue = reliefweb_issue(&disasters.data[i].fields, now);
        issues.push(issue);
        i = i + 1;
    }
    issues
}

/// The severity of an outage alert by its level: `critical` and `warning`
/// map to those severities, anything else is informational.
pub open spec fn ioda_severity_of(level: Seq<char>) -> IssueSeverity {
    if level == "critical"@ {
        IssueSeverity::Critical
    } else if level == "warning"@ {
        IssueSeverity::Warning
    } else {
        IssueSeverity::Info
    }
}

pub fn ioda_severity(level: &str) -> (r: IssueSeverity)
    ensures
        r == ioda_severity_of(level@),
{
    if str_eq(level, "critical") {
        IssueSeverity::Critical
    } else if str_eq(level, "warning") {
        IssueSeverity::Warning
    } else {
        IssueSeverity::Info
    }
}

/// True when `i` is the issue built from the outage alert `a` at `now`.
pub open spec fn is_ioda_issue(i: Issue, a: IodaAlert, now: int) -> bool {
    let drop = tenths_text(drop_scaled(a.history_value as int, a.value as int, 10));
    &&& issue_head(
        i,
        IssueSource::Ioda,
        IssueCategory::InternetOutage,
        ioda_severity_of(a.level@),
        a.entity_name@,
        a.entity_code@,
        "Internet outage detected in "@ + a.entity_name@,
        a.entity_name@ + " connectivity dropped by "@ + drop + "% (from "@ + tenths_text(a.history_value as int)
            + " to "@ + tenths_text(a.value as int) + ") detected by "@ + a.datasource@,
        if representable_seconds(a.time as int) { a.time as int } else { now },
    )
    &&& i.impact_hundredths == Some(drop_scaled(a.history_value as int, a.value as int, 100) as i128)
    &&& i.impact_label matches Some(l) && l@ == drop + "% drop from baseline"@
    &&& metadata_view(i.metadata@) == seq![("datasource"@, a.datasource@), ("condition"@, a.condition@)]
    &&& i.is_ongoing
    &&& i.end_timestamp is None
    &&& i.url is None
}

/// The issue of one outage alert.
pub fn ioda_issue(a: &IodaAlert, now: i64) -> (r: Issue)
    ensures
        is_ioda_issue(r, *a, now as int),
{
    let timestamp = match a.timestamp() {
        Some(t) => t,
        None => now,
    };
    let drop = a.drop_percentage();
    let mut title = String::from_str("Internet outage detected in ");
    title.append(a.entity_name.as_str());
    let mut description = String::from_str(a.entity_name.as_str());
    description.append(" connectivity dropped by ");
    push_tenths(&mut description, drop);
    description.append("% (from ");
    push_tenths(&mut description, a.history_value as i128);
    description.append(" to ");
    push_tenths(&mut description, a.value as i128);
    description.append(") detected by ");
    description.append(a.datasource.as_str());
    let mut label = String::new();
    push_tenths(&mut label, drop);
    label.append("% drop from baseline");
    assert(label@ =~= tenths_text(drop as int) + "% drop from baseline"@);
    let issue = Issue::new(
        IssueSource::Ioda,
        IssueCategory::InternetOutage,
        ioda_severity(a.level.as_str()),
        a.entity_name.as_str(),
        a.entity_code.as_str(),
        title.as_str(),
        description.as_str(),
        timestamp,
    );
    let issue = issue.with_impact(a.drop_hundredths(), label.as_str());
    proof {
        reveal_strlit("datasource");
        reveal_strlit("condition");
    }
    let issue = issue.with_metadata("datasource", a.datasource.as_str());
    assert(metadata_view(issue.metadata@) =~= seq![("datasource"@, a.datasource@)]);
    proof {
        assert("datasource"@[0] != "condition"@[0]);
        assert(metadata_view(issue.metadata@).len() == issue.metadata@.len());
        crate::dashboard::lemma_key_absent(issue.metadata@, "condition"@);
    }
    let issue = issue.with_metadata("condition", a.condition.as_str());
    assert(metadata_view(issue.metadata@) =~= seq![("datasource"@, a.datasource@), ("condition"@, a.condition@)]);
    issue
}

/// The issues of all outage alerts, in order.
pub fn ioda_issues(alerts: &Vec<IodaAlert>, now: i64) -> (r: Vec<Issue>)
    ensures
        r@.len() == alerts@.len(),
        forall|k: int| 0 <= k < r@.len() ==> is_ioda_issue(#[trigger] r@[k], alerts@[k], now as int),
{
    let mut issues: Vec<Issue> = Vec::new();
    let mut i: usize = 0;
    while i < alerts.len()
        invariant
            i <= alerts.len(),
            issues@.len() == i,
            forall|k: int| 0 <= k < i ==> is_ioda_issue(#[trigger] issues@[k], alerts@[k], now as int),
        decreases alerts.len() - i,
    {
        let issue = ioda_issue(&alerts[i], now);
        issues.push(issue);
        i = i + 1;
    }
    issues
}

/// The severity of a national risk score in hundredths: from 7.0 an
/// emergency, from 5.0 critical, below that (or without a score) no issue.
pub open spec fn hdx_risk_severity_of(overall: Option<i64>) -> Option<IssueSeverity> {
    match overall {
        Some(x) => if x >= 700 {
            Some(IssueSeverity::Emergency)
        } else if x >= 500 {
            Some(IssueSeverity::Critical)
        } else {
            None
        },
        None => None,
    }
}

pub fn hdx_risk_severity(overall: Option<i64>) -> (r: Option<IssueSeverity>)
    ensures
        r == hdx_risk_severity_of(overall),
{
    match overall {
        Some(x) => if x >= 700 {
            Some(IssueSeverity::Emergency)
        } else if x >= 500 {
            Some(IssueSeverity::Critical)
        } else {
            None
        },
        None => None,
    }
}

/// A score in hundredths, absent as zero, rounded half up to tenths.
pub open spec fn score_tenths(x: Option<i64>) -> int {
    let h: int = match x {
        Some(v) => v as int,
        None => 0,
    };
    (h + 5) / 10
}

fn push_score(s: &mut String, x: Option<i64>)
    ensures
        final(s)@ == old(s)@ + tenths_text(score_tenths(x)),
{
    let h: i128 = match x {
        Some(v) => v as i128,
        None => 0,
    };
    let t = crate::text::floor_div(h + 5, 10);
    push_tenths(s, t);
}

/// The description of a national risk record.
pub open spec fn hdx_description(r: HdxNationalRisk) -> Seq<char> {
    "National risk score: "@ + tenths_text(score_tenths(r.overall_risk)) + "/10. Hazard exposure: "@
        + tenths_text(score_tenths(r.hazard_exposure)) + ", Vulnerability: "@ + tenths_text(
        score_tenths(r.vulnerability),
    ) + ", Coping capacity: "@ + tenths_text(score_tenths(r.coping_capacity))
}

/// True when `i` is the issue built from the national risk record `r`,
/// whose severity is `sev`, at `now`.
pub open spec fn is_hdx_issue(i: Issue, r: HdxNationalRisk, sev: IssueSeverity, now: int) -> bool {
    &&& issue_head(
        i,
        IssueSource::HdxHapi,
        IssueCategory::HumanitarianEmergency,
        sev,
        r.location_name@,
        r.location_code@,
        (if sev == IssueSeverity::Emergency {
            "Very high humanitarian risk in "@
        } else {
            "High humanitarian risk in "@
        }) + r.location_name@,
        hdx_description(r),
        or_now(period_start(r.reference_period_start), now),
    )
    &&& i.impact_hundredths == Some(
        (match r.overall_risk {
            Some(v) => v as int,
            None => 0,
        }) as i128,
    )
    &&& i.impact_label matches Some(l) && l@ == tenths_text(score_tenths(r.overall_risk)) + "/10 risk score"@
    &&& i.metadata@.len() == 0
    &&& i.is_ongoing
    &&& i.end_timestamp is None
}

/// True when `i` is the issue built from `r` at `now`, with the severity
/// of its score.
pub open spec fn is_hdx_issue_of(i: Issue, r: HdxNationalRisk, now: int) -> bool {
    match hdx_risk_severity_of(r.overall_risk) {
        Some(sev) => is_hdx_issue(i, r, sev, now),
        None => false,
    }
}

/// The national risk records that become issues, in order.
pub open spec fn hdx_selected(rs: Seq<HdxNationalRisk>) -> Seq<HdxNationalRisk>
    decreases rs.len(),
{
    if rs.len() == 0 {
        Seq::empty()
    } else if hdx_risk_severity_of(rs.last().overall_risk) is Some {
        hdx_selected(rs.drop_last()).push(rs.last())
    } else {
        hdx_selected(rs.drop_last())
    }
}

/// The issue of one national risk record of severity `sev`.
fn hdx_issue(r: &HdxNationalRisk, sev: IssueSeverity, now: i64) -> (i: Issue)
    ensures
        is_hdx_issue(i, *r, sev, now as int),
{
    let timestamp = match parse_period_start(&r.reference_period_start) {
        Some(t) => t,
        None => now,
    };
    let mut title = if sev == IssueSeverity::Emergency {
        String::from_str("Very high humanitarian risk in ")
    } else {
        String::from_str("High humanitarian risk in ")
    };
    title.append(r.location_name.as_str());
    let mut description = String::from_str("National risk score: ");
    push_score(&mut description, r.overall_risk);
    description.append("/10. Hazard exposure: ");
    push_score(&mut description, r.hazard_exposure);
    description.append(", Vulnerability: ");
    push_score(&mut description, r.vulnerability);
    description.append(", Coping capacity: ");
    push_score(&mut description, r.coping_capacity);
    assert(description@ =~= hdx_description(*r));
    assert(title@ =~= (if sev == IssueSeverity::Emergency {
        "Very high humanitarian risk in "@
    } else {
        "High humanitarian risk in "@
    }) + r.location_name@);
    let mut label = String::new();
    push_score(&mut label, r.overall_risk);
    label.append("/10 risk score");
    assert(label@ =~= tenths_text(score_tenths(r.overall_risk)) + "/10 risk score"@);
    let overall: i128 = match r.overall_risk {
        Some(v) => v as i128,
        None => 0,
    };
    let issue = Issue::new(
        IssueSource::HdxHapi,
        IssueCategory::HumanitarianEmergency,
        sev,
        r.location_name.as_str(),
        r.location_code.as_str(),
        title.as_str(),
        description.as_str(),
        timestamp,
    );
    let issue = issue.with_impact(overall, label.as_str());
    assert(metadata_view(issue.metadata@).len() == issue.metadata@.len());
    issue
}

/// The issues of the national risk records with a score of at least 5.0,
/// in order; the others give none.
pub fn hdx_issues(risks: &Vec<HdxNationalRisk>, now: i64) -> (r: Vec<Issue>)
    ensures
        r@.len() == hdx_selected(risks@).len(),
        forall|k: int|
            0 <= k < r@.len() ==> is_hdx_issue_of(#[trigger] r@[k], hdx_selected(risks@)[k], now as int),
{
    let mut issues: Vec<Issue> = Vec::new();
    let mut i: usize = 0;
    assert(risks@.take(0) =~= Seq::<HdxNationalRisk>::empty());
    while i < risks.len()
        invariant
            i <= risks.len(),
            issues@.len() == hdx_selected(risks@.take(i as int)).len(),
            forall|k: int|
                0 <= k < issues@.len() ==> is_hdx_issue_of(#[trigger] issues@[k], hdx_selected(risks@.take(i as int))[k], now as int),
        decreases risks.len() - i,
    {
        let ghost prev = risks@.take(i as int);
        let ghost next = risks@.take(i + 1);
        assert(next.drop_last() =~= prev);
        assert(next.last() == risks@[i as int]);
        match hdx_risk_severity(risks[i].overall_risk) {
            Some(sev) => {
                let issue = hdx_issue(&risks[i], sev, now);
                issues.push(issue);
                assert forall|k: int|
                    0 <= k < issues@.len() implies is_hdx_issue_of(#[trigger] issues@[k], hdx_selected(next)[k], now as int) by {
                    if k < issues@.len() - 1 {
                        assert(hdx_selected(next)[k] == hdx_selected(prev)[k]);
                    }
                }
            },
            None => {},
        }
        i = i + 1;
    }
    assert(risks@.take(i as int) =~= risks@);
    issues
}

/// The severity of a country's conflict toll: no issue without deaths; from
/// 100 deaths an emergency, from 50 critical, from 10 a warning, else
/// informational.
pub open spec fn acled_severity_of(fatalities: int) -> Option<IssueSeverity> {
    if fatalities <= 0 {
        None
    } else if fatalities >= 100 {
        Some(IssueSeverity::Emergency)
    } else if fatalities >= 50 {
        Some(IssueSeverity::Critical)
    } else if fatalities >= 10 {
        Some(IssueSeverity::Warning)
    } else {
        Some(IssueSeverity::Info)
    }
}

pub fn acled_severity(fatalities: i128) -> (r: Option<IssueSeverity>)
    ensures
        r == acled_severity_of(fatalities as int),
{
    if fatalities <= 0 {
        None
    } else if fatalities >= 100 {
        Some(IssueSeverity::Emergency)
    } else if fatalities >= 50 {
        Some(IssueSeverity::Critical)
    } else if fatalities >= 10 {
        Some(IssueSeverity::Warning)
    } else {
        Some(IssueSeverity::Info)
    }
}

/// A death toll in hundredths, held at the largest `i128` when it does not fit.
pub open spec fn toll_hundredths(total: int) -> int {
    if 100 * total <= i128::MAX {
        100 * total
    } else {
        i128::MAX as int
    }
}

/// True when `i` is the conflict issue of `country` from `response`, over
/// `lookback_hours`, at `now`.
pub open spec fn is_acled_issue(i: Issue, country: MonitoredCountry, response: AcledResponse, lookback_hours: int, now: int) -> bool {
    let total = fatality_sum(response.data@);
    let data = response.data@;
    &&& acled_severity_of(total) matches Some(sev) && issue_head(
        i,
        IssueSource::Acled,
        IssueCategory::Conflict,
        sev,
        country.name@,
        country.alpha3@,
        "Conflict activity in "@ + country.name@,
        signed_decimal(response.count as int) + " conflict events with "@ + signed_decimal(total)
            + " fatalities in the last "@ + decimal(lookback_hours as nat) + " hours"@,
        i.timestamp as int,
    )
    &&& exists|k: int|
        0 <= k < data.len() && (forall|j: int| 0 <= j < data.len() ==> lex_le(#[trigger] data[j].event_date@, data[k].event_date@))
            && (forall|j: int| k < j < data.len() ==> !lex_le(data[k].event_date@, #[trigger] data[j].event_date@))
            && i.timestamp == or_now(ymd_midnight_seconds(data[k].event_date@), now)
    &&& i.impact_hundredths == Some(toll_hundredths(total) as i128)
    &&& i.impact_label matches Some(l) && l@ == signed_decimal(total) + " fatalities"@
    &&& metadata_view(i.metadata@) == seq![("event_count"@, signed_decimal(response.count as int))]
    &&& i.is_ongoing
    &&& i.end_timestamp is None
}

/// The conflict issue of one monitored country, from the events fetched for
/// it: none unless the events caused deaths.
pub fn acled_issue(country: &MonitoredCountry, response: &AcledResponse, lookback_hours: u32, now: i64) -> (r: Option<Issue>)
    ensures
        fatality_sum(response.data@) <= 0 <==> r is None,
        r matches Some(i) ==> is_acled_issue(i, *country, *response, lookback_hours as int, now as int),
{
    let total = response.total_fatalities();
    let severity = match acled_severity(total) {
        Some(s) => s,
        None => {
            return None;
        },
    };
    let timestamp = match response.most_recent() {
        Some(e) => match e.datetime() {
            Some(t) => t,
            None => now,
        },
        None => now,
    };
    let mut title = String::from_str("Conflict activity in ");
    title.append(country.name.as_str());
    let mut description = String::new();
    push_signed_decimal(&mut description, response.count as i128);
    description.append(" conflict events with ");
    push_signed_decimal(&mut description, total);
    description.append(" fatalities in the last ");
    push_decimal(&mut description, lookback_hours as u128);
    description.append(" hours");
    assert(description@ =~= signed_decimal(response.count as int) + " conflict events with "@ + signed_decimal(total as int)
        + " fatalities in the last "@ + decimal(lookback_hours as nat) + " hours"@);
    let mut label = String::new();
    push_signed_decimal(&mut label, total);
    label.append(" fatalities");
    assert(label@ =~= signed_decimal(total as int) + " fatalities"@);
    let mut count_text = String::new();
    push_signed_decimal(&mut count_text, response.count as i128);
    assert(count_text@ =~= signed_decimal(response.count as int));
    let hundredths: i128 = if total <= i128::MAX / 100 {
        100 * total
    } else {
        i128::MAX
    };
    let issue = Issue::new(
        IssueSource::Acled,
        IssueCategory::Conflict,
        severity,
        country.name.as_str(),
        country.alpha3.as_str(),
        title.as_str(),
        description.as_str(),
        timestamp,
    );
    let issue = issue.with_impact(hundredths, label.as_str());
    let issue = issue.with_metadata("event_count", count_text.as_str());
    assert(metadata_view(issue.metadata@) =~= seq![("event_count"@, signed_decimal(response.count as int))]);
    Some(issue)
}

} // verus!
