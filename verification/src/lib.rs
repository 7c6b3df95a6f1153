//! Verified core of a terminal swap-usage dashboard.
//!
//! The library owns the telemetry aggregation and windowed presentation
//! logic: converting raw kilobyte samples to a display unit, grouping
//! per-process samples by name, keeping a fixed-capacity history of usage
//! points, and reconciling scroll state against a list whose length changes
//! every refresh. Sample acquisition and terminal rendering live outside the
//! library and hand it plain values.

pub mod app;
pub mod fmt;
pub mod history;
pub mod samples;
pub mod sched;
pub mod telemetry;
pub mod theme;
pub mod units;
pub mod view;

pub use units::SizeUnits;
