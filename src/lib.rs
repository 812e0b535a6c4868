//! Stochastic simulation of the spread and regulatory control of a contagious
//! livestock disease across a network of farms, in daily steps.

// clock and calendar
pub mod scenario_time;

// rates, probabilities and random decisions
pub mod parameters;
pub mod random;

// population topology and the farm store
pub mod populations;
pub mod farm_store;
pub mod compartment_counts;

// disease processes
pub mod errors;
pub mod sir_spread_model;
pub mod between_herd_spread_model;
pub mod between_herd_spread_exogenous_model;

// regulators
pub mod regulator_active_surveillance;
pub mod regulator_passive_surveillance;

// running a scenario
pub mod chain_tools;
pub mod scenario_builder;
