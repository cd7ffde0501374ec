//! Simulation and auditing of laboratory quality-control series.
//!
//! Every quantity is a signed fixed-point number held in an `i64`:
//! observations, the target, the standard deviation, bias and drift all count
//! the same unit. The rule engine and the generator only compare and add such
//! quantities, so they work at any resolution; the text rendering in
//! [`export`] fixes the resolution at [`export::UNITS_PER_ONE`] units per
//! whole.
//!
//! - [`rules`]: the audit catalog of seven rules, evaluated over a whole
//!   series, and the report of an audit.
//! - [`gatekeeper`]: the narrower streaming test on one candidate observation.
//! - [`generator`]: control parameters, the working mean, and the run that
//!   builds a series from draws, with or without constraints.
//! - [`export`]: rows of text with two decimals, and reading them back.
//! - [`csv_table`]: the rows as comma-separated text.
//! - [`hotkey`]: the chord that triggers output.

pub mod csv_table;
pub mod export;
pub mod gatekeeper;
pub mod generator;
pub mod hotkey;
pub mod rules;
