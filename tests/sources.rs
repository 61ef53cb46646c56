use infrared::acled::{AcledEvent, AcledEventType, AcledRegion, AcledResponse};
use infrared::cloudflare::{CloudflareAnomaliesResponse, CloudflareAnomaliesResult, CloudflareAnomaly};
use infrared::dashboard::{IssueSeverity, IssueSource};
use infrared::hdx_hapi::{HdxConflictEvent, HdxNationalRisk};
use infrared::ioda::IodaAlert;
use infrared::providers::{
    acled_issue, acled_severity, cloudflare_issues, hdx_issues, hdx_risk_severity, ioda_issues,
    ioda_severity, reliefweb_issues, reliefweb_severity, DashboardConfig, MonitoredCountry,
};
use infrared::reliefweb::{
    ReliefWebCountryRef, ReliefWebDate, ReliefWebDisasterFields, ReliefWebDisasterType, ReliefWebItem,
    ReliefWebListResponse, ReliefWebReportFields, ReliefWebSource, ReliefWebTerm,
};

fn sample_event() -> AcledEvent {
    AcledEvent {
        event_id_cnty: "UKR12345".to_string(),
        event_date: "2024-01-15".to_string(),
        year: Some(2024),
        time_precision: Some(1),
        disorder_type: "Political violence".to_string(),
        event_type: "Battles".to_string(),
        sub_event_type: "Armed clash".to_string(),
        actor1: "Military Forces of Ukraine".to_string(),
        actor2: "Military Forces of Russia".to_string(),
        interaction: Some(11),
        country: "Ukraine".to_string(),
        iso: Some(804),
        iso3: "UKR".to_string(),
        region: Some(9),
        admin1: "Donetsk".to_string(),
        admin2: "".to_string(),
        admin3: "".to_string(),
        location: "Bakhmut".to_string(),
        latitude: Some(48_595_300),
        longitude: Some(38_000_300),
        geo_precision: Some(1),
        source: "Ukrainian Armed Forces".to_string(),
        source_scale: "National".to_string(),
        notes: "Clashes reported".to_string(),
        fatalities: Some(5),
        timestamp: Some(1705276800),
    }
}

#[test]
fn test_event_date_parsing() {
    let event = sample_event();
    // 2024-01-15 at midnight UTC
    assert_eq!(event.datetime(), Some(1705276800));
    let bad = AcledEvent { event_date: "15/01/2024".to_string(), ..sample_event() };
    assert_eq!(bad.datetime(), None);
}

#[test]
fn test_event_type_detection() {
    let battle = sample_event();
    assert!(battle.is_battle());
    assert!(!battle.is_protest());
    let protest = AcledEvent { event_type: "Protests".to_string(), ..sample_event() };
    assert!(protest.is_protest());
    assert!(!protest.is_battle());
    let civilian = AcledEvent { event_type: "Violence against civilians".to_string(), ..sample_event() };
    assert!(civilian.is_civilian_targeting());
    let blast = AcledEvent { event_type: "Explosions/Remote violence".to_string(), ..sample_event() };
    assert!(blast.is_explosion());
    assert!(!blast.is_riot());
    assert!(battle.is_lethal());
}

#[test]
fn test_event_coordinates() {
    let event = sample_event();
    assert_eq!(event.coordinates(), Some((48_595_300, 38_000_300)));
}

#[test]
fn total_fatalities_and_most_recent() {
    let response = AcledResponse {
        success: true,
        error: None,
        count: 3,
        data: vec![
            AcledEvent { fatalities: Some(5), event_date: "2024-01-15".to_string(), ..sample_event() },
            AcledEvent { fatalities: Some(3), event_date: "2024-02-01".to_string(), event_id_cnty: "A".to_string(), ..sample_event() },
            AcledEvent { fatalities: None, event_date: "2024-02-01".to_string(), event_id_cnty: "B".to_string(), ..sample_event() },
        ],
    };
    assert_eq!(response.total_fatalities(), 8);
    assert_eq!(response.most_recent().map(|e| e.event_id_cnty.as_str()), Some("B"));
    let empty = AcledResponse::default();
    assert!(empty.most_recent().is_none());
    assert_eq!(empty.total_fatalities(), 0);
}

#[test]
fn test_region_numbers() {
    assert_eq!(AcledRegion::MiddleEast.number(), 8);
    assert_eq!(AcledRegion::Europe.number(), 9);
}

#[test]
fn event_type_names() {
    assert_eq!(AcledEventType::ExplosionsRemoteViolence.as_str(), "Explosions/Remote violence");
    assert_eq!(AcledEventType::StrategicDevelopments.as_str(), "Strategic developments");
}

fn anomaly() -> CloudflareAnomaly {
    CloudflareAnomaly {
        id: "1".to_string(),
        location: "US".to_string(),
        location_name: "United States".to_string(),
        anomaly_type: "OUTAGE".to_string(),
        start_time: "2024-01-01T00:00:00Z".to_string(),
        end_time: "".to_string(),
        verified: true,
        description: "Traffic anomaly".to_string(),
    }
}

#[test]
fn test_anomaly_ongoing() {
    let ongoing = anomaly();
    let ended = CloudflareAnomaly { end_time: "2024-01-01T02:00:00Z".to_string(), ..ongoing.clone() };
    assert!(ongoing.is_ongoing());
    assert!(!ended.is_ongoing());
}

#[test]
fn cloudflare_anomalies_become_issues() {
    let ended = CloudflareAnomaly {
        end_time: "2024-01-01T02:00:00Z".to_string(),
        verified: false,
        ..anomaly()
    };
    let response = CloudflareAnomaliesResponse {
        success: true,
        errors: vec![],
        result: Some(CloudflareAnomaliesResult { anomalies: vec![anomaly(), ended] }),
    };
    let issues = cloudflare_issues(&response, 42);
    assert_eq!(issues.len(), 2);
    assert_eq!(issues[0].severity, IssueSeverity::Critical);
    assert_eq!(issues[0].source, IssueSource::CloudflareRadar);
    assert_eq!(issues[0].timestamp, 1704067200);
    assert_eq!(issues[0].title, "Traffic anomaly in United States");
    assert_eq!(issues[0].id, "cloudflare_radar:traffic_anomaly:us:1704067200");
    assert!(issues[0].is_ongoing);
    assert_eq!(issues[1].severity, IssueSeverity::Warning);
    assert_eq!(issues[1].end_timestamp, Some(1704074400));
    assert!(!issues[1].is_ongoing);
    assert_eq!(issues[1].metadata[1], ("verified".to_string(), "false".to_string()));
    let none = CloudflareAnomaliesResponse::default();
    assert!(cloudflare_issues(&none, 42).is_empty());
}

#[test]
fn test_conflict_event_fatalities() {
    let with = HdxConflictEvent {
        reference_period_start: None,
        reference_period_end: None,
        location_code: "UKR".to_string(),
        location_name: "Ukraine".to_string(),
        admin1_name: "Kyiv".to_string(),
        admin2_name: "".to_string(),
        event_type: "battles".to_string(),
        events: Some(10),
        fatalities: Some(5),
    };
    let without = HdxConflictEvent { fatalities: Some(0), ..with.clone() };
    assert!(with.has_fatalities());
    assert!(!without.has_fatalities());
}

fn risk(score: Option<i64>) -> HdxNationalRisk {
    HdxNationalRisk {
        reference_period_start: None,
        reference_period_end: None,
        location_code: "SOM".to_string(),
        location_name: "Somalia".to_string(),
        overall_risk: score,
        hazard_exposure: Some(700),
        vulnerability: Some(800),
        coping_capacity: Some(400),
    }
}

#[test]
fn test_national_risk_levels() {
    let high = risk(Some(650));
    assert!(high.is_high_risk());
    assert!(!high.is_very_high_risk());
    let very_high = HdxNationalRisk { overall_risk: Some(800), ..high.clone() };
    assert!(very_high.is_very_high_risk());
}

#[test]
fn national_risk_becomes_issues_from_five() {
    assert_eq!(hdx_risk_severity(Some(700)), Some(IssueSeverity::Emergency));
    assert_eq!(hdx_risk_severity(Some(699)), Some(IssueSeverity::Critical));
    assert_eq!(hdx_risk_severity(Some(500)), Some(IssueSeverity::Critical));
    assert_eq!(hdx_risk_severity(Some(499)), None);
    assert_eq!(hdx_risk_severity(None), None);
    let risks = vec![risk(Some(650)), risk(Some(420)), risk(Some(705)), risk(None)];
    let issues = hdx_issues(&risks, 99);
    assert_eq!(issues.len(), 2);
    assert_eq!(issues[0].severity, IssueSeverity::Critical);
    assert_eq!(issues[0].title, "High humanitarian risk in Somalia");
    assert_eq!(
        issues[0].description,
        "National risk score: 6.5/10. Hazard exposure: 7.0, Vulnerability: 8.0, Coping capacity: 4.0"
    );
    assert_eq!(issues[0].timestamp, 99);
    assert_eq!(issues[0].impact_label.as_deref(), Some("6.5/10 risk score"));
    assert_eq!(issues[1].severity, IssueSeverity::Emergency);
    assert_eq!(issues[1].title, "Very high humanitarian risk in Somalia");
    assert_eq!(issues[1].impact_hundredths, Some(705));
}

fn alert(level: &str, value: i64, history: i64) -> IodaAlert {
    IodaAlert {
        datasource: "bgp".to_string(),
        entity_type: "country".to_string(),
        entity_code: "US".to_string(),
        entity_name: "United States".to_string(),
        time: 1701500000,
        level: level.to_string(),
        condition: "down".to_string(),
        value,
        history_value: history,
    }
}

#[test]
fn test_alert_drop_percentage() {
    // value 20.0, baseline 100.0: an 80.0% drop
    let a = alert("critical", 200, 1000);
    assert_eq!(a.drop_percentage(), 800);
    assert_eq!(alert("critical", 5, 0).drop_percentage(), 0);
}

#[test]
fn outage_alerts_become_issues() {
    assert_eq!(ioda_severity("critical"), IssueSeverity::Critical);
    assert_eq!(ioda_severity("warning"), IssueSeverity::Warning);
    assert_eq!(ioda_severity("Critical"), IssueSeverity::Info);
    let issues = ioda_issues(&vec![alert("critical", 200, 1000)], 7);
    assert_eq!(issues.len(), 1);
    let i = &issues[0];
    assert_eq!(i.timestamp, 1701500000);
    assert_eq!(i.title, "Internet outage detected in United States");
    assert_eq!(
        i.description,
        "United States connectivity dropped by 80.0% (from 100.0 to 20.0) detected by bgp"
    );
    assert_eq!(i.impact_hundredths, Some(8000));
    assert_eq!(i.impact_label.as_deref(), Some("80.0% drop from baseline"));
    assert_eq!(i.id, "ioda:internet_outage:us:1701500000");
}

#[test]
fn conflict_toll_becomes_one_issue() {
    assert_eq!(acled_severity(0), None);
    assert_eq!(acled_severity(9), Some(IssueSeverity::Info));
    assert_eq!(acled_severity(10), Some(IssueSeverity::Warning));
    assert_eq!(acled_severity(50), Some(IssueSeverity::Critical));
    assert_eq!(acled_severity(100), Some(IssueSeverity::Emergency));
    let country = MonitoredCountry { alpha2: "UA".to_string(), alpha3: "UKR".to_string(), name: "Ukraine".to_string() };
    let response = AcledResponse {
        success: true,
        error: None,
        count: 2,
        data: vec![
            AcledEvent { fatalities: Some(40), event_date: "2024-01-15".to_string(), ..sample_event() },
            AcledEvent { fatalities: Some(12), event_date: "2024-01-14".to_string(), ..sample_event() },
        ],
    };
    let issue = acled_issue(&country, &response, 24, 5).unwrap();
    assert_eq!(issue.severity, IssueSeverity::Critical);
    assert_eq!(issue.location_code, "UKR");
    assert_eq!(issue.timestamp, 1705276800);
    assert_eq!(issue.description, "2 conflict events with 52 fatalities in the last 24 hours");
    assert_eq!(issue.impact_hundredths, Some(5200));
    assert_eq!(issue.metadata, vec![("event_count".to_string(), "2".to_string())]);
    let quiet = AcledResponse { data: vec![AcledEvent { fatalities: Some(0), ..sample_event() }], ..response.clone() };
    assert!(acled_issue(&country, &quiet, 24, 5).is_none());
}

#[test]
fn test_disaster_status() {
    let ongoing = ReliefWebDisasterFields {
        name: "Test Disaster".to_string(),
        status: "ongoing".to_string(),
        ..Default::default()
    };
    let past = ReliefWebDisasterFields { status: "past".to_string(), ..ongoing.clone() };
    assert!(ongoing.is_ongoing());
    assert!(!past.is_ongoing());
    let shouting = ReliefWebDisasterFields { status: "ONGOING".to_string(), ..ongoing.clone() };
    assert!(shouting.is_ongoing());
}

#[test]
fn test_disaster_type_strings() {
    assert_eq!(ReliefWebDisasterType::Flood.as_str(), "Flood");
    assert_eq!(ReliefWebDisasterType::Cyclone.as_str(), "Tropical Cyclone");
    assert_eq!(ReliefWebDisasterType::ComplexEmergency.as_str(), "Complex Emergency");
}

#[test]
fn test_disaster_type_name() {
    let disaster = ReliefWebDisasterFields {
        disaster_type: vec![ReliefWebTerm { id: 1, name: "Earthquake".to_string() }],
        ..Default::default()
    };
    assert_eq!(disaster.primary_type_name(), Some("Earthquake"));
}

#[test]
fn test_report_source() {
    let report = ReliefWebReportFields {
        source: vec![ReliefWebSource {
            id: 1,
            name: "OCHA".to_string(),
            shortname: "OCHA".to_string(),
            homepage: "https://www.unocha.org".to_string(),
        }],
        ..Default::default()
    };
    assert_eq!(report.source_name(), Some("OCHA"));
    assert_eq!(report.format_name(), None);
    assert_eq!(report.country_name(), None);
}

#[test]
fn disasters_become_issues() {
    assert_eq!(reliefweb_severity(Some("Complex Emergency")), IssueSeverity::Emergency);
    assert_eq!(reliefweb_severity(Some("Tsunami")), IssueSeverity::Critical);
    assert_eq!(reliefweb_severity(Some("Drought")), IssueSeverity::Warning);
    assert_eq!(reliefweb_severity(None), IssueSeverity::Warning);
    let quake = ReliefWebDisasterFields {
        name: "Quake".to_string(),
        description: "A quake".to_string(),
        glide: "EQ-1".to_string(),
        status: "ongoing".to_string(),
        disaster_type: vec![ReliefWebTerm { id: 1, name: "Earthquake".to_string() }],
        primary_country: Some(ReliefWebCountryRef { id: 1, name: "Türkiye".to_string(), iso3: "TUR".to_string(), primary: true }),
        date: Some(ReliefWebDate { created: "2023-02-06T00:00:00+00:00".to_string(), ..Default::default() }),
        url: "https://reliefweb.int/q".to_string(),
        ..Default::default()
    };
    let bare = ReliefWebDisasterFields { name: "Bare".to_string(), ..Default::default() };
    let list = ReliefWebListResponse {
        total_count: 2,
        count: 2,
        data: vec![
            ReliefWebItem { id: "1".to_string(), fields: quake, href: String::new() },
            ReliefWebItem { id: "2".to_string(), fields: bare, href: String::new() },
        ],
    };
    let issues = reliefweb_issues(&list, 11);
    assert_eq!(issues.len(), 2);
    assert_eq!(issues[0].severity, IssueSeverity::Critical);
    assert_eq!(issues[0].location, "Türkiye");
    assert_eq!(issues[0].timestamp, 1675641600);
    assert_eq!(issues[0].url.as_deref(), Some("https://reliefweb.int/q"));
    assert_eq!(issues[1].location, "Unknown");
    assert_eq!(issues[1].location_code, "");
    assert_eq!(issues[1].timestamp, 11);
    assert_eq!(issues[1].metadata[0], ("disaster_type".to_string(), "Unknown".to_string()));
}

#[test]
fn default_config() {
    let c = DashboardConfig::default();
    assert_eq!(c.app_identifier, "infrared");
    assert_eq!(c.lookback_hours, 24);
    assert!(c.monitored_countries.is_empty());
}

#[test]
fn test_food_security_levels() {
    let crisis = infrared::hdx_hapi::HdxFoodSecurity {
        reference_period_start: None,
        reference_period_end: None,
        location_code: "AFG".to_string(),
        location_name: "Afghanistan".to_string(),
        ipc_phase: Some(3),
        ipc_type: "current".to_string(),
        population_in_phase: Some(1_000_000),
        population_fraction_in_phase: Some(100_000),
    };
    assert!(crisis.is_crisis_level());
    assert!(!crisis.is_emergency_level());
    assert!(!crisis.is_famine());
    let famine = infrared::hdx_hapi::HdxFoodSecurity { ipc_phase: Some(5), ..crisis.clone() };
    assert!(famine.is_crisis_level());
    assert!(famine.is_emergency_level());
    assert!(famine.is_famine());
}

#[test]
fn test_event_duration() {
    let event = infrared::ioda::IodaEvent {
        entity_type: "country".to_string(),
        entity_code: "DE".to_string(),
        entity_name: "Germany".to_string(),
        from: 1701500000,
        until: 1701503600,
        score: 5000,
    };
    assert_eq!(event.duration_seconds(), 3600);
    assert_eq!(event.start_time(), Some(1701500000));
    assert_eq!(event.end_time(), Some(1701503600));
}

#[test]
fn test_response_statistics() {
    let response = AcledResponse {
        success: true,
        error: None,
        count: 3,
        data: vec![
            AcledEvent { fatalities: Some(5), event_type: "Battles".to_string(), ..sample_event() },
            AcledEvent { fatalities: Some(3), event_type: "Battles".to_string(), ..sample_event() },
            AcledEvent { fatalities: Some(0), event_type: "Protests".to_string(), ..sample_event() },
        ],
    };
    assert_eq!(response.total_fatalities(), 8);
    assert_eq!(response.with_fatalities().len(), 2);
    let by_type = response.events_by_type();
    let count_of = |label: &str| by_type.iter().find(|c| c.label == label).map(|c| c.count);
    assert_eq!(count_of("Battles"), Some(2));
    assert_eq!(count_of("Protests"), Some(1));
}

#[test]
fn unrepresentable_instants_fall_back() {
    let event = infrared::ioda::IodaEvent { from: i64::MAX, until: i64::MIN, ..Default::default() };
    assert_eq!(event.start_time(), None);
    assert_eq!(event.end_time(), None);
    let a = IodaAlert { time: i64::MAX, ..alert("warning", 10, 10) };
    let issues = ioda_issues(&vec![a], 77);
    assert_eq!(issues[0].timestamp, 77);
    assert_eq!(issues[0].severity, IssueSeverity::Warning);
}
