//! # ruvector-layoff-trap
//!
//! The demand-circulation mincut model of the "AI Layoff Trap", calibrated
//! on FRED and BEA data: the exact part of the model, with its contracts.
//!
//! - `sectors`: the supersector calibration tables, held exactly in the
//!   units they are published in, and the check that the share tables sum
//!   to unity within tolerance.
//! - `data`: the `fredgraph.csv` grammar (`data::grammar`), series, the
//!   calendar months of their dates (`data::calendar`) and macro snapshots.
//! - `simulation`: the policy regimes, crossing-year detection and the
//!   report's choice of rows.
//!
//! The real-valued circulation model and the multi-period simulation that
//! rolls it forward work in floating point and live with the demo program.

pub mod data;
pub mod sectors;
pub mod simulation;
