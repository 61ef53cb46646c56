//! Records of the humanitarian indicators provider, as the library reads them.
//! Scores are kept in hundredths.
use vstd::prelude::*;

use crate::time::{parse_rfc3339, rfc3339_seconds};

verus! {

/// A page of records.
#[derive(Clone, Debug, Default)]
pub struct HdxPaginatedResponse<T> {
    pub data: Vec<T>,
}

/// People in need of humanitarian assistance.
#[derive(Clone, Debug, Default)]
pub struct HdxHumanitarianNeed {
    pub reference_period_start: Option<String>,
    pub reference_period_end: Option<String>,
    pub location_code: String,
    pub location_name: String,
    pub population_group: String,
    pub population_status: String,
    pub gender: String,
    pub age_range: String,
    pub population: Option<i64>,
}

/// The start of a reference period in unix seconds, when it parses.
pub open spec fn period_start(start: Option<String>) -> Option<int> {
    match start {
        Some(s) => rfc3339_seconds(s@),
        None => None,
    }
}

/// Parse an optional RFC 3339 period start.
pub fn parse_period_start(start: &Option<String>) -> (r: Option<i64>)
    ensures
        r matches Some(t) ==> period_start(*start) == Some(t as int),
        r is None ==> period_start(*start) is None,
{
    match start {
        Some(s) => parse_rfc3339(s.as_str()),
        None => None,
    }
}

impl HdxHumanitarianNeed {
    /// The start of the reference period in unix seconds.
    pub fn start_date(&self) -> (r: Option<i64>)
        ensures
            r matches Some(t) ==> period_start(self.reference_period_start) == Some(t as int),
            r is None ==> period_start(self.reference_period_start) is None,
    {
        parse_period_start(&self.reference_period_start)
    }
}

/// Refugees by origin and asylum country.
#[derive(Clone, Debug, Default)]
pub struct HdxRefugee {
    pub reference_period_start: Option<String>,
    pub reference_period_end: Option<String>,
    pub origin_location_code: String,
    pub origin_location_name: String,
    pub asylum_location_code: String,
    pub asylum_location_name: String,
    pub population_group: String,
    pub gender: String,
    pub age_range: String,
    pub population: Option<i64>,
}

/// Internally displaced people.
#[derive(Clone, Debug, Default)]
pub struct HdxIdp {
    pub reference_period_start: Option<String>,
    pub reference_period_end: Option<String>,
    pub location_code: String,
    pub location_name: String,
    pub population: Option<i64>,
}

/// Conflict events of one type in one area.
#[derive(Clone, Debug, Default)]
pub struct HdxConflictEvent {
    pub reference_period_start: Option<String>,
    pub reference_period_end: Option<String>,
    pub location_code: String,
    pub location_name: String,
    pub admin1_name: String,
    pub admin2_name: String,
    pub event_type: String,
    pub events: Option<i64>,
    pub fatalities: Option<i64>,
}

impl HdxConflictEvent {
    /// True when the events caused at least one death.
    pub fn has_fatalities(&self) -> (r: bool)
        ensures
            r == (self.fatalities matches Some(f) && f > 0),
    {
        match self.fatalities {
            Some(f) => f > 0,
            None => false,
        }
    }
}

/// Organizations present in an area.
#[derive(Clone, Debug, Default)]
pub struct HdxOperationalPresence {
    pub reference_period_start: Option<String>,
    pub reference_period_end: Option<String>,
    pub location_code: String,
    pub location_name: String,
    pub org_name: String,
    pub org_type_description: String,
    pub sector_name: String,
}

/// Population figures.
#[derive(Clone, Debug, Default)]
pub struct HdxPopulation {
    pub reference_period_start: Option<String>,
    pub reference_period_end: Option<String>,
    pub location_code: String,
    pub location_name: String,
    pub gender: String,
    pub age_range: String,
    pub population: Option<i64>,
}

/// The national risk index of a country, scores in hundredths (0 to 1000).
#[derive(Clone, Debug, Default)]
pub struct HdxNationalRisk {
    pub reference_period_start: Option<String>,
    pub reference_period_end: Option<String>,
    pub location_code: String,
    pub location_name: String,
    pub overall_risk: Option<i64>,
    pub hazard_exposure: Option<i64>,
    pub vulnerability: Option<i64>,
    pub coping_capacity: Option<i64>,
}

impl HdxNationalRisk {
    /// True when the overall risk is at least 5.0.
    pub fn is_high_risk(&self) -> (r: bool)
        ensures
            r == (self.overall_risk matches Some(x) && x >= 500),
    {
        match self.overall_risk {
            Some(x) => x >= 500,
            None => false,
        }
    }

    /// True when the overall risk is at least 7.0.
    pub fn is_very_high_risk(&self) -> (r: bool)
        ensures
            r == (self.overall_risk matches Some(x) && x >= 700),
    {
        match self.overall_risk {
            Some(x) => x >= 700,
            None => false,
        }
    }
}

/// Food insecurity by IPC phase. The population fraction is in millionths.
#[derive(Clone, Debug, Default)]
pub struct HdxFoodSecurity {
    pub reference_period_start: Option<String>,
    pub reference_period_end: Option<String>,
    pub location_code: String,
    pub location_name: String,
    pub ipc_phase: Option<i32>,
    pub ipc_type: String,
    pub population_in_phase: Option<i64>,
    pub population_fraction_in_phase: Option<i64>,
}

impl HdxFoodSecurity {
    /// Crisis level or worse (IPC phase 3 and up).
    pub fn is_crisis_level(&self) -> (r: bool)
        ensures
            r == (self.ipc_phase matches Some(p) && p >= 3),
    {
        match self.ipc_phase {
            Some(p) => p >= 3,
            None => false,
        }
    }

    /// Emergency level or worse (IPC phase 4 and up).
    pub fn is_emergency_level(&self) -> (r: bool)
        ensures
            r == (self.ipc_phase matches Some(p) && p >= 4),
    {
        match self.ipc_phase {
            Some(p) => p >= 4,
            None => false,
        }
    }

    /// Famine (IPC phase 5).
    pub fn is_famine(&self) -> (r: bool)
        ensures
            r == (self.ipc_phase == Some(5i32)),
    {
        match self.ipc_phase {
            Some(p) => p == 5,
            None => false,
        }
    }
}

} // verus!
