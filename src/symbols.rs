//! The symbolic numbers of a program: coefficients and right-hand sides whose
//! numeric value comes from the forecast or the configuration.

use vstd::prelude::*;

verus! {

/// A configured or forecast quantity that multiplies a variable.
#[derive(Clone, Copy, Debug, PartialEq, Eq, Structural)]
pub enum Factor {
    /// Charge efficiency: stored energy per unit charged.
    ChargeEfficiency,
    /// The inverse of the discharge efficiency; an efficiency configured as zero
    /// or less counts as one.
    DischargeLoss,
    /// Energy the water heater draws in one slot: rated power times slot length.
    HeaterSlotEnergy,
    /// Import price of slot `t`.
    ImportPrice(usize),
    /// Export price of slot `t` less the export price threshold.
    ExportMargin(usize),
    /// Wear cost per unit charged or discharged.
    WearCost,
    /// Ramping cost per unit of power change divided by the slot length.
    RampingRate,
    /// Penalty per heater block start.
    BlockStartPenalty,
    /// Penalty per unit of deviation from the target state of charge.
    TargetPenalty,
    /// Value credited per unit of energy left in the battery at the end.
    TerminalValue,
    /// Penalty per violated comfort window.
    ComfortPenalty,
}

/// The coefficient of a variable in a row or in the objective.
#[derive(Clone, Copy, Debug, PartialEq, Eq, Structural)]
pub enum Coef {
    /// An integer.
    Int(i64),
    /// An amount of thousandths (a fixed penalty in thousandths of the currency).
    Thousandths(u64),
    /// A factor.
    Plus(Factor),
    /// The negation of a factor.
    Minus(Factor),
}

/// A configured or forecast quantity on the right-hand side of a row, or an
/// upper bound of a variable.
#[derive(Clone, Copy, Debug, PartialEq, Eq, Structural)]
pub enum Amount {
    /// An integer.
    Int(i64),
    /// State of charge at the start of the horizon.
    InitialSoc,
    /// Generation less load in slot `t`.
    NetGeneration(usize),
    /// Minimum state of charge: the minimum percentage of capacity.
    MinSoc,
    /// Maximum state of charge: the maximum percentage of capacity.
    MaxSoc,
    /// Battery capacity.
    Capacity,
    /// Most energy charged in one slot: maximum charge power times slot length.
    ChargeLimit,
    /// Most energy discharged in one slot.
    DischargeLimit,
    /// Import allowed in one slot by the fuse before a breach is counted.
    FuseAllowance,
    /// Hard import cap for one slot.
    ImportCap,
    /// Hard export cap for one slot.
    ExportCap,
    /// Target state of charge at the end of the horizon.
    TargetSoc,
    /// Heating energy owed per accounting day.
    DailyRequirement,
    /// Heating energy still owed on the first accounting day, after what was
    /// delivered earlier that day.
    FirstDayRequirement,
}

/// Penalty per unit of state of charge below the minimum, in thousandths.
pub const SOC_SHORTFALL_PENALTY_MILLIS: u64 = 1_000_000;

/// Penalty per unit of generation left unused, in thousandths.
pub const CURTAILMENT_PENALTY_MILLIS: u64 = 100;

/// Penalty per unit of load left unserved, in thousandths.
pub const LOAD_SHEDDING_PENALTY_MILLIS: u64 = 10_000_000;

/// Penalty per unit of import beyond the fuse allowance, in thousandths.
pub const IMPORT_BREACH_PENALTY_MILLIS: u64 = 5_000_000;

} // verus!
