use infrared::dashboard::{
    filtered_response, get_issues_by_country, matches_country, merge_source_results,
    plan_dashboard_query, sort_issues, country_filter_matches, issue_id, DashboardPlan, DashboardQuery,
    DashboardSummary, Issue, IssueCategory, IssueSeverity, IssueSource, SourceOutcome,
};

fn issue(source: IssueSource, severity: IssueSeverity, location: &str, code: &str, timestamp: i64) -> Issue {
    Issue::new(source, IssueCategory::Disaster, severity, location, code, "Test", "Test", timestamp)
}

#[test]
fn test_issue_creation() {
    let issue = Issue::new(
        IssueSource::Ioda,
        IssueCategory::InternetOutage,
        IssueSeverity::Critical,
        "Ukraine",
        "UA",
        "Internet outage in Ukraine",
        "BGP connectivity dropped by 50%",
        chrono::Utc::now().timestamp(),
    );
    assert!(issue.id.starts_with("ioda:internet_outage:ua:"));
    assert!(issue.is_ongoing);
    assert_eq!(issue.severity, IssueSeverity::Critical);
}

#[test]
fn issue_id_is_exact() {
    let issue = Issue::new(
        IssueSource::CloudflareRadar,
        IssueCategory::HumanitarianEmergency,
        IssueSeverity::Info,
        "Somewhere",
        "ÉX",
        "t",
        "d",
        -5,
    );
    assert_eq!(issue.id, "cloudflare_radar:humanitarian_emergency:éx:-5");
    assert_eq!(issue_id(IssueSource::ReliefWeb, IssueCategory::Disaster, "sy", 1700000000), "reliefweb:disaster:sy:1700000000");
}

#[test]
fn test_issue_with_end() {
    let start = chrono::Utc::now().timestamp();
    let end = start + 2 * 3600;
    let issue = Issue::new(
        IssueSource::Ioda,
        IssueCategory::InternetOutage,
        IssueSeverity::Warning,
        "Germany",
        "DE",
        "Test",
        "Test",
        start,
    )
    .with_end(end);
    assert!(!issue.is_ongoing);
    assert_eq!(issue.end_timestamp, Some(end));
}

#[test]
fn builders_set_their_fields() {
    let i = issue(IssueSource::Acled, IssueSeverity::Info, "X", "XX", 1)
        .with_impact(1250, "12.5 units")
        .with_url("https://example.org")
        .with_metadata("k", "v1")
        .with_metadata("j", "w")
        .with_metadata("k", "v2");
    assert_eq!(i.impact_hundredths, Some(1250));
    assert_eq!(i.impact_label.as_deref(), Some("12.5 units"));
    assert_eq!(i.url.as_deref(), Some("https://example.org"));
    assert_eq!(i.metadata, vec![("k".to_string(), "v2".to_string()), ("j".to_string(), "w".to_string())]);
}

#[test]
fn test_severity_ordering() {
    assert!(IssueSeverity::Emergency > IssueSeverity::Critical);
    assert!(IssueSeverity::Critical > IssueSeverity::Warning);
    assert!(IssueSeverity::Warning > IssueSeverity::Info);
}

#[test]
fn labels_and_ranks() {
    assert_eq!(IssueSeverity::Emergency.label(), "Emergency");
    assert_eq!(IssueSeverity::Info.rank(), 0);
    assert_eq!(IssueSeverity::Emergency.rank(), 3);
    assert_eq!(IssueSource::CloudflareRadar.label(), "Cloudflare Radar");
    assert_eq!(IssueSource::HdxHapi.key(), "hdx_hapi");
    assert_eq!(IssueCategory::HumanitarianEmergency.label(), "Humanitarian Emergency");
    assert_eq!(IssueCategory::FoodSecurity.key(), "food_security");
}

#[test]
fn sorting_ranks_severity_then_newest() {
    let issues = vec![
        issue(IssueSource::Ioda, IssueSeverity::Info, "a", "A", 50),
        issue(IssueSource::Ioda, IssueSeverity::Critical, "b", "B", 10),
        issue(IssueSource::Ioda, IssueSeverity::Emergency, "c", "C", 5),
        issue(IssueSource::Ioda, IssueSeverity::Critical, "d", "D", 20),
        issue(IssueSource::Ioda, IssueSeverity::Warning, "e", "E", 99),
        issue(IssueSource::Acled, IssueSeverity::Critical, "f", "F", 20),
    ];
    let sorted = sort_issues(issues);
    let order: Vec<&str> = sorted.iter().map(|i| i.location.as_str()).collect();
    // "d" and "f" tie: they keep their order
    assert_eq!(order, vec!["c", "d", "f", "b", "e", "a"]);
}

#[test]
fn test_summary_from_issues() {
    let now = chrono::Utc::now().timestamp();
    let issues = vec![
        Issue::new(IssueSource::Ioda, IssueCategory::InternetOutage, IssueSeverity::Emergency, "Ukraine", "UA", "Test", "Test", now),
        Issue::new(IssueSource::Acled, IssueCategory::Conflict, IssueSeverity::Critical, "Ukraine", "UA", "Test", "Test", now),
        Issue::new(IssueSource::ReliefWeb, IssueCategory::Disaster, IssueSeverity::Warning, "Syria", "SY", "Test", "Test", now),
    ];
    let summary = DashboardSummary::from_issues(&issues);
    assert_eq!(summary.total_issues, 3);
    assert_eq!(summary.emergency_count, 1);
    assert_eq!(summary.critical_count, 1);
    assert_eq!(summary.warning_count, 1);
    assert_eq!(summary.info_count, 0);
    assert_eq!(summary.source_count("IODA"), Some(1));
    assert_eq!(summary.source_count("ACLED"), Some(1));
    assert_eq!(summary.top_countries.len(), 2);
}

#[test]
fn summary_groups_and_ranks_countries() {
    let mut issues = Vec::new();
    for k in 0..12 {
        let name = format!("C{}", k);
        for _ in 0..(k % 4 + 1) {
            issues.push(issue(IssueSource::HdxHapi, IssueSeverity::Info, &name, "XX", 1));
        }
    }
    issues.push(issue(IssueSource::Ioda, IssueSeverity::Info, "Ukraine", "UA", 1));
    issues.push(issue(IssueSource::Ioda, IssueSeverity::Info, "Ukraine (east)", "UA", 1));
    let summary = DashboardSummary::from_issues(&issues);
    assert_eq!(summary.total_issues, issues.len());
    assert_eq!(summary.top_countries.len(), 10);
    let counts: Vec<usize> = summary.top_countries.iter().map(|c| c.count).collect();
    assert_eq!(counts, vec![4, 4, 4, 3, 3, 3, 2, 2, 2, 1]);
    assert_eq!(summary.top_countries[0].country, "C3");
    assert_eq!(summary.source_count("HDX HAPI"), Some(30));
    assert_eq!(summary.source_count("IODA"), Some(2));
    assert_eq!(summary.source_count("ACLED"), None);
    assert_eq!(summary.category_count("Disaster"), Some(32));
    assert_eq!(summary.by_source.len(), 2);
    assert_eq!(summary.by_source[0].label, "IODA");
}

#[test]
fn empty_summary() {
    let summary = DashboardSummary::from_issues(&Vec::new());
    assert_eq!(summary.total_issues, 0);
    assert!(summary.by_source.is_empty());
    assert!(summary.by_category.is_empty());
    assert!(summary.top_countries.is_empty());
}

#[test]
fn country_filter_is_asymmetric() {
    let ua = issue(IssueSource::Ioda, IssueSeverity::Info, "Somewhere", "UA", 1);
    assert!(matches_country(&ua, "ua"));
    let east = issue(IssueSource::Ioda, IssueSeverity::Info, "Eastern Ukraine Region", "XX", 1);
    assert!(matches_country(&east, "ukraine"));
    let other = issue(IssueSource::Acled, IssueSeverity::Info, "Kyiv Oblast", "UKR", 1);
    assert!(!matches_country(&other, "uk"));
    assert!(country_filter_matches("UA", "kyiv", "ua", "ua"));
    assert!(!country_filter_matches("UKR", "kyiv oblast", "uk", "uk"));
    assert!(country_filter_matches("UKR", "eastern ukraine", "uk", "uk"));
}

#[test]
fn filtering_by_country_keeps_order() {
    let issues = vec![
        issue(IssueSource::Ioda, IssueSeverity::Info, "Ukraine", "UA", 1),
        issue(IssueSource::Ioda, IssueSeverity::Info, "Syria", "SY", 2),
        issue(IssueSource::Acled, IssueSeverity::Info, "Ukraine", "UKR", 3),
    ];
    let kept = get_issues_by_country(issues, "Ukraine");
    let stamps: Vec<i64> = kept.iter().map(|i| i.timestamp).collect();
    assert_eq!(stamps, vec![1, 3]);
}

#[test]
fn one_failing_provider_is_isolated() {
    let now = 1_700_000_000;
    let results = vec![
        SourceOutcome { source: IssueSource::Ioda, result: Ok(vec![issue(IssueSource::Ioda, IssueSeverity::Warning, "A", "A", 1)]) },
        SourceOutcome { source: IssueSource::CloudflareRadar, result: Ok(vec![issue(IssueSource::CloudflareRadar, IssueSeverity::Critical, "B", "B", 2)]) },
        SourceOutcome { source: IssueSource::HdxHapi, result: Err("timed out".to_string()) },
        SourceOutcome { source: IssueSource::ReliefWeb, result: Ok(vec![issue(IssueSource::ReliefWeb, IssueSeverity::Emergency, "C", "C", 3)]) },
        SourceOutcome { source: IssueSource::Acled, result: Ok(vec![]) },
    ];
    let r = merge_source_results(results, now);
    assert_eq!(r.timestamp, now);
    assert_eq!(r.issues.len(), 3);
    assert_eq!(r.errors.len(), 1);
    assert_eq!(r.errors[0].source, IssueSource::HdxHapi);
    assert_eq!(r.errors[0].message, "timed out");
    assert_eq!(r.issues[0].location, "C");
    assert_eq!(r.issues[1].location, "B");
    assert_eq!(r.summary.total_issues, 3);
}

#[test]
fn dashboard_query_plans() {
    let q = DashboardQuery { source: Some("hdx".to_string()), country: Some("UA".to_string()) };
    assert!(matches!(plan_dashboard_query(&q), DashboardPlan::ByCountry(c) if c == "UA"));
    let q = DashboardQuery { source: Some("cloudflare".to_string()), country: None };
    assert!(matches!(plan_dashboard_query(&q), DashboardPlan::BySource(IssueSource::CloudflareRadar)));
    let q = DashboardQuery { source: Some("nope".to_string()), country: None };
    assert!(matches!(plan_dashboard_query(&q), DashboardPlan::InvalidSource));
    let q = DashboardQuery::default();
    assert!(matches!(plan_dashboard_query(&q), DashboardPlan::All));
    assert_eq!(IssueSource::from_token("hapi"), Some(IssueSource::HdxHapi));
    assert_eq!(IssueSource::from_token("reliefweb"), Some(IssueSource::ReliefWeb));
    assert_eq!(IssueSource::from_token("ReliefWeb"), None);
}

#[test]
fn filtered_response_has_no_errors() {
    let r = filtered_response(vec![issue(IssueSource::Ioda, IssueSeverity::Info, "A", "A", 1)], 7);
    assert_eq!(r.timestamp, 7);
    assert!(r.errors.is_empty());
    assert_eq!(r.summary.info_count, 1);
}
