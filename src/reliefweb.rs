//! Records of the disaster and report provider, as the library reads them.
use vstd::prelude::*;

use crate::dashboard::{lower_of, lowercase};
use crate::storage::str_eq;

verus! {

/// A list of items with the provider's totals.
#[derive(Clone, Debug, Default)]
pub struct ReliefWebListResponse<T> {
    pub total_count: i64,
    pub count: i64,
    pub data: Vec<ReliefWebItem<T>>,
}

/// One item of a list: its identifier, its fields and its link.
#[derive(Clone, Debug, Default)]
pub struct ReliefWebItem<T> {
    pub id: String,
    pub fields: T,
    pub href: String,
}

/// A single-item answer.
#[derive(Clone, Debug, Default)]
pub struct ReliefWebSingleResponse<T> {
    pub data: Vec<ReliefWebItem<T>>,
}

/// A term of the provider's taxonomy.
#[derive(Clone, Debug, Default)]
pub struct ReliefWebTerm {
    pub id: i64,
    pub name: String,
}

/// A source organization.
#[derive(Clone, Debug, Default)]
pub struct ReliefWebSource {
    pub id: i64,
    pub name: String,
    pub shortname: String,
    pub homepage: String,
}

/// A reference to a country.
#[derive(Clone, Debug, Default)]
pub struct ReliefWebCountryRef {
    pub id: i64,
    pub name: String,
    /// ISO 3166-1 alpha-3 code.
    pub iso3: String,
    pub primary: bool,
}

/// A reference to a disaster.
#[derive(Clone, Debug, Default)]
pub struct ReliefWebDisasterRef {
    pub id: i64,
    pub name: String,
    pub glide: String,
}

/// The dates of a record, as the provider writes them.
#[derive(Clone, Debug, Default)]
pub struct ReliefWebDate {
    pub original: String,
    /// RFC 3339 creation time.
    pub created: String,
    pub changed: String,
}

impl ReliefWebDate {
    /// The creation time in unix seconds, when it parses as RFC 3339.
    pub fn created_datetime(&self) -> (r: Option<i64>)
        ensures
            r matches Some(t) ==> crate::time::rfc3339_seconds(self.created@) == Some(t as int),
            r is None ==> crate::time::rfc3339_seconds(self.created@) is None,
    {
        crate::time::parse_rfc3339(self.created.as_str())
    }
}

/// A disaster record.
#[derive(Clone, Debug, Default)]
pub struct ReliefWebDisasterFields {
    pub name: String,
    pub description: String,
    /// GLIDE number.
    pub glide: String,
    pub status: String,
    pub disaster_type: Vec<ReliefWebTerm>,
    pub primary_country: Option<ReliefWebCountryRef>,
    pub country: Vec<ReliefWebCountryRef>,
    pub date: Option<ReliefWebDate>,
    pub date_created: Option<String>,
    pub url: String,
    pub current: String,
}

/// True when a lowercase status text says the disaster is ongoing.
pub fn status_is_ongoing(status_lower: &str) -> (r: bool)
    ensures
        r == (status_lower@ == "ongoing"@),
{
    str_eq(status_lower, "ongoing")
}

impl ReliefWebDisasterFields {
    /// True when the status, in lowercase, is `ongoing`.
    pub fn is_ongoing(&self) -> (r: bool)
        ensures
            r == (lower_of(self.status@) == "ongoing"@),
    {
        let lower = lowercase(self.status.as_str());
        status_is_ongoing(lower.as_str())
    }

    /// The name of the first listed type.
    pub fn primary_type_name(&self) -> (r: Option<&str>)
        ensures
            self.disaster_type@.len() == 0 ==> r is None,
            self.disaster_type@.len() > 0 ==> (r matches Some(n) && n@ == self.disaster_type@[0].name@),
    {
        if self.disaster_type.len() > 0 {
            Some(self.disaster_type[0].name.as_str())
        } else {
            None
        }
    }

    /// The name of the primary country.
    pub fn country_name(&self) -> (r: Option<&str>)
        ensures
            self.primary_country is None ==> r is None,
            self.primary_country matches Some(c) ==> (r matches Some(n) && n@ == c.name@),
    {
        match &self.primary_country {
            Some(c) => Some(c.name.as_str()),
            None => None,
        }
    }
}

/// A report record.
#[derive(Clone, Debug, Default)]
pub struct ReliefWebReportFields {
    pub title: String,
    pub body: String,
    pub body_html: String,
    pub status: String,
    pub format: Vec<ReliefWebTerm>,
    pub source: Vec<ReliefWebSource>,
    pub primary_country: Option<ReliefWebCountryRef>,
    pub country: Vec<ReliefWebCountryRef>,
    pub disaster: Vec<ReliefWebDisasterRef>,
    pub theme: Vec<ReliefWebTerm>,
    pub ocha_product: Vec<ReliefWebTerm>,
    pub language: Vec<ReliefWebTerm>,
    pub date: Option<ReliefWebDate>,
    pub url: String,
    pub url_alias: String,
    pub origin: String,
}

impl ReliefWebReportFields {
    /// The name of the first listed source.
    pub fn source_name(&self) -> (r: Option<&str>)
        ensures
            self.source@.len() == 0 ==> r is None,
            self.source@.len() > 0 ==> (r matches Some(n) && n@ == self.source@[0].name@),
    {
        if self.source.len() > 0 {
            Some(self.source[0].name.as_str())
        } else {
            None
        }
    }

    /// The name of the first listed format.
    pub fn format_name(&self) -> (r: Option<&str>)
        ensures
            self.format@.len() == 0 ==> r is None,
            self.format@.len() > 0 ==> (r matches Some(n) && n@ == self.format@[0].name@),
    {
        if self.format.len() > 0 {
            Some(self.format[0].name.as_str())
        } else {
            None
        }
    }

    /// The name of the primary country.
    pub fn country_name(&self) -> (r: Option<&str>)
        ensures
            self.primary_country is None ==> r is None,
            self.primary_country matches Some(c) ==> (r matches Some(n) && n@ == c.name@),
    {
        match &self.primary_country {
            Some(c) => Some(c.name.as_str()),
            None => None,
        }
    }
}

/// A country record.
#[derive(Clone, Debug, Default)]
pub struct ReliefWebCountryFields {
    pub name: String,
    pub description: String,
    pub iso3: String,
    pub status: String,
    pub url: String,
    pub current: String,
}

/// A job record.
#[derive(Clone, Debug, Default)]
pub struct ReliefWebJobFields {
    pub title: String,
    pub body: String,
    pub source: Vec<ReliefWebSource>,
    pub job_type: Vec<ReliefWebTerm>,
    pub experience: Vec<ReliefWebTerm>,
    pub career_categories: Vec<ReliefWebTerm>,
    pub country: Vec<ReliefWebCountryRef>,
    pub city: Vec<ReliefWebTerm>,
    pub date: Option<ReliefWebDate>,
    pub url: String,
    pub how_to_apply: String,
}

/// A training record.
#[derive(Clone, Debug, Default)]
pub struct ReliefWebTrainingFields {
    pub title: String,
    pub body: String,
    pub source: Vec<ReliefWebSource>,
    pub training_type: Vec<ReliefWebTerm>,
    pub format: Vec<ReliefWebTerm>,
    pub language: Vec<ReliefWebTerm>,
    pub theme: Vec<ReliefWebTerm>,
    pub country: Vec<ReliefWebCountryRef>,
    pub date: Option<ReliefWebDate>,
    pub url: String,
    pub cost: String,
    pub registration: String,
}

/// A source organization record.
#[derive(Clone, Debug, Default)]
pub struct ReliefWebSourceFields {
    pub name: String,
    pub description: String,
    pub source_type: Vec<ReliefWebTerm>,
    pub homepage: String,
    pub url: String,
}

/// Common disaster types.
#[derive(Clone, Copy, Debug, PartialEq, Eq, Structural)]
pub enum ReliefWebDisasterType {
    Flood,
    Earthquake,
    Cyclone,
    Drought,
    Epidemic,
    Conflict,
    Fire,
    Landslide,
    Volcano,
    ColdWave,
    HeatWave,
    Storm,
    Tsunami,
    InsectInfestation,
    ComplexEmergency,
}

pub open spec fn disaster_type_text(t: ReliefWebDisasterType) -> Seq<char> {
    match t {
        ReliefWebDisasterType::Flood => "Flood"@,
        ReliefWebDisasterType::Earthquake => "Earthquake"@,
        ReliefWebDisasterType::Cyclone => "Tropical Cyclone"@,
        ReliefWebDisasterType::Drought => "Drought"@,
        ReliefWebDisasterType::Epidemic => "Epidemic"@,
        ReliefWebDisasterType::Conflict => "Conflict"@,
        ReliefWebDisasterType::Fire => "Fire"@,
        ReliefWebDisasterType::Landslide => "Landslide"@,
        ReliefWebDisasterType::Volcano => "Volcano"@,
        ReliefWebDisasterType::ColdWave => "Cold Wave"@,
        ReliefWebDisasterType::HeatWave => "Heat Wave"@,
        ReliefWebDisasterType::Storm => "Storm"@,
        ReliefWebDisasterType::Tsunami => "Tsunami"@,
        ReliefWebDisasterType::InsectInfestation => "Insect Infestation"@,
        ReliefWebDisasterType::ComplexEmergency => "Complex Emergency"@,
    }
}

impl ReliefWebDisasterType {
    /// The provider's name for the type.
    pub fn as_str(&self) -> (r: &'static str)
        ensures
            r@ == disaster_type_text(*self),
    {
        match self {
            ReliefWebDisasterType::Flood => "Flood",
            ReliefWebDisasterType::Earthquake => "Earthquake",
            ReliefWebDisasterType::Cyclone => "Tropical Cyclone",
            ReliefWebDisasterType::Drought => "Drought",
            ReliefWebDisasterType::Epidemic => "Epidemic",
            ReliefWebDisasterType::Conflict => "Conflict",
            ReliefWebDisasterType::Fire => "Fire",
            ReliefWebDisasterType::Landslide => "Landslide",
            ReliefWebDisasterType::Volcano => "Volcano",
            ReliefWebDisasterType::ColdWave => "Cold Wave",
            ReliefWebDisasterType::HeatWave => "Heat Wave",
            ReliefWebDisasterType::Storm => "Storm",
            ReliefWebDisasterType::Tsunami => "Tsunami",
            ReliefWebDisasterType::InsectInfestation => "Insect Infestation",
            ReliefWebDisasterType::ComplexEmergency => "Complex Emergency",
        }
    }
}

} // verus!
