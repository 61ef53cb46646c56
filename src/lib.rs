//! Infrared: aggregate "warmth" of coarse activity buckets, and a unified,
//! severity-ranked view of crisis signals gathered from independent providers.
//!
//! - [`model`]: signals, warmth statuses and alerts
//! - [`storage`]: the append-only signal log and its windowed queries
//! - [`aggregation`]: the warmth engine and the alert scanner
//! - [`dashboard`]: the unified issue record, ranking, merging, summary and
//!   country filter
//! - [`providers`]: which provider records become issues, and how
//! - [`acled`], [`cloudflare`], [`hdx_hapi`], [`ioda`], [`reliefweb`]: the
//!   provider records as the library reads them
//! - [`text`], [`time`]: decimal rendering and calendar parsing

pub mod acled;
pub mod aggregation;
pub mod cloudflare;
pub mod dashboard;
pub mod hdx_hapi;
pub mod ioda;
pub mod model;
pub mod providers;
pub mod reliefweb;
pub mod storage;
pub mod text;
pub mod time;
