//! The configuration a program is built from, as plain values.

use vstd::prelude::*;

verus! {

/// What the formulation reads of the configuration. Each flag records whether a
/// configured quantity is present or positive; durations are whole seconds.
#[derive(Debug)]
pub struct Options {
    /// The water heater's rated power is positive.
    pub heater: bool,
    /// A minimum daily heating energy is configured (positive).
    pub daily_minimum: bool,
    /// The first accounting day still owes heating energy after what was
    /// delivered earlier that day.
    pub first_day_outstanding: bool,
    /// Longest comfortable stretch without heating; zero for none.
    pub max_gap_seconds: u64,
    /// The comfort penalty is positive.
    pub comfort_penalty: bool,
    /// Least time between heater activations; zero for none.
    pub min_spacing_seconds: u64,
    /// The penalty per heater block start is positive.
    pub block_start_penalty: bool,
    /// The ramping cost is positive.
    pub ramping_cost: bool,
    /// A target end state of charge is set.
    pub target: bool,
    /// The target end state of charge is positive.
    pub target_positive: bool,
    /// A soft fuse limit on import is set.
    pub fuse_limit: bool,
    /// A hard cap on import power is set.
    pub import_cap: bool,
    /// A hard cap on export power is set.
    pub export_cap: bool,
    /// Export to the grid is allowed.
    pub export_enabled: bool,
    /// Slots in which the heater must run.
    pub forced_on: Vec<usize>,
    /// Slots that start in the first this many hours of a UTC day count toward
    /// the previous day's heating requirement.
    pub defer_hours: u32,
}

impl Options {
    /// Limits that the integer representation of the program imposes.
    pub open spec fn wf(&self) -> bool {
        &&& self.min_spacing_seconds <= i64::MAX as u64
        &&& self.max_gap_seconds <= i64::MAX as u64
    }
}

} // verus!
