//! The reports the dashboard API returns, one per view. Values are sample
//! value bit patterns (see `number`); fields named `*_fraction` hold the
//! fraction that the API shows multiplied by 100 as a percentage.

use vstd::prelude::*;
use crate::response::Timestamp;

verus! {

/// Shared shape for a labeled scalar reading.
pub struct Reading {
    pub label: String,
    pub value: u64,
}

impl View for Reading {
    type V = (Seq<char>, u64);

    open spec fn view(&self) -> (Seq<char>, u64) {
        (self.label@, self.value)
    }
}

/// Readings as plain values.
pub open spec fn readings_view(r: Seq<Reading>) -> Seq<(Seq<char>, u64)> {
    r.map_values(|x: Reading| x@)
}

/// Health snapshot of telemetry dependencies.
pub struct HealthReport {
    pub prometheus_reachable: bool,
    pub factorio_metrics_job_present: bool,
    pub game_ticks_played: Option<u64>,
}

/// Top-level dashboard summary.
pub struct Overview {
    pub health: HealthReport,
    pub evolution_factor: Option<u64>,
    pub pollution: Option<u64>,
    pub power_production_mw: Option<u64>,
    pub power_consumption_mw: Option<u64>,
    pub accumulator_charge_fraction: Option<u64>,
    pub satisfaction_fraction: Option<u64>,
    pub top_produced: Vec<Reading>,
    pub top_consumed: Vec<Reading>,
    pub current_research: Option<String>,
    pub research_progress_pct: Option<u64>,
    pub platform_count: Option<u64>,
    pub machine_counts: Vec<Reading>,
    pub robot_counts: Vec<Reading>,
    pub train_counts: Vec<Reading>,
}

/// Production flows over a time range.
pub struct ProductionReport {
    pub range: String,
    pub top_produced: Vec<Reading>,
    pub top_consumed: Vec<Reading>,
    pub produced_series: Vec<Series>,
    pub consumed_series: Vec<Series>,
    pub research_packages_per_minute: Option<u64>,
}

/// Power statistics over a time range.
pub struct PowerReport {
    pub range: String,
    pub production_mw: Option<u64>,
    pub consumption_mw: Option<u64>,
    pub production_by_source: Vec<Reading>,
    pub production_series: Vec<Series>,
    pub consumption_series: Vec<Series>,
    pub accumulator_charge_fraction: Option<u64>,
    pub satisfaction_fraction: Option<u64>,
}

/// Factory machine census.
pub struct FactoryReport {
    pub machines: Vec<MachineStatus>,
}

/// One machine type census row.
pub struct MachineStatus {
    pub machine: String,
    pub active: Option<u64>,
    pub total: Option<u64>,
}

impl View for MachineStatus {
    type V = (Seq<char>, Option<u64>, Option<u64>);

    open spec fn view(&self) -> (Seq<char>, Option<u64>, Option<u64>) {
        (self.machine@, self.active, self.total)
    }
}

/// Logistics network status.
pub struct LogisticsReport {
    pub robots: Vec<Reading>,
    pub networks: Option<u64>,
    pub top_stored_items: Vec<Reading>,
}

/// Train status.
pub struct TrainsReport {
    pub trains_by_state: Vec<Reading>,
    pub station_count: Option<u64>,
    pub stations_waiting: Vec<Reading>,
}

/// Research status.
pub struct ResearchReport {
    pub current_research: Option<String>,
    pub progress_pct: Option<u64>,
    pub completed_count: Option<u64>,
    pub queue_size: Option<u64>,
}

/// Space platform status.
pub struct PlatformReport {
    pub count: Option<u64>,
    pub platforms: Vec<PlatformStatus>,
}

/// One space platform.
pub struct PlatformStatus {
    pub platform: String,
    pub speed_kmph: Option<u64>,
    pub fuel_fraction: Option<u64>,
}

impl View for PlatformStatus {
    type V = (Seq<char>, Option<u64>, Option<u64>);

    open spec fn view(&self) -> (Seq<char>, Option<u64>, Option<u64>) {
        (self.platform@, self.speed_kmph, self.fuel_fraction)
    }
}

/// A named time series for charting.
pub struct Series {
    pub name: String,
    pub points: Vec<SeriesPoint>,
}

/// One chart point.
pub struct SeriesPoint {
    pub t: Timestamp,
    pub v: Option<u64>,
}

impl View for Series {
    type V = (Seq<char>, Seq<(Timestamp, Option<u64>)>);

    open spec fn view(&self) -> (Seq<char>, Seq<(Timestamp, Option<u64>)>) {
        (self.name@, self.points@.map_values(|p: SeriesPoint| (p.t, p.v)))
    }
}

} // verus!
