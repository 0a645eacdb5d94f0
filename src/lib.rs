//! Cost-optimal scheduling of a home battery, grid exchange and a water heater,
//! stated as a mixed-integer linear program.
//!
//! The library builds the program from plain values: which variables exist and
//! where they stand, every constraint row and every objective term. Numeric
//! parameters (prices, efficiencies, energies) appear as symbols that a caller
//! replaces with the forecast's and the configuration's numbers before handing
//! the program to a solver.

pub mod horizon;
pub mod symbols;
pub mod options;
pub mod layout;
pub mod program;
pub mod planner;
pub mod laws;
