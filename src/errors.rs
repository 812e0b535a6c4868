//! Fatal errors of a simulated day: each means that the population data or
//! the parameters broke the model's assumptions, and the run must stop.

use vstd::prelude::*;

use crate::populations::FarmId;

verus! {

/// A fatal error raised while simulating.
#[derive(Debug, Clone, Copy, PartialEq, Eq, Structural)]
pub enum SimulationError {
    /// The drawn new infections of this farm exceed its susceptible animals.
    InfectionsExceedSusceptible(FarmId),
    /// This farm was selected to send animals but has no adjacent farms.
    EmptyAdjacency(FarmId),
    /// A farm adjacent to some farm has this id, which no farm has.
    UnknownFarm(FarmId),
    /// There is no farm to seed an infection into.
    NoFarms,
    /// This farm was chosen for seeding but has no susceptible animal.
    NoSusceptible(FarmId),
    /// The day counter or the batch counter cannot advance any further.
    CounterExhausted,
}

impl SimulationError {
    /// A human-readable description of the error.
    pub fn message(&self) -> (r: &'static str) {
        match self {
            SimulationError::InfectionsExceedSusceptible(_) => {
                "cannot infect more animals than there are susceptible"
            },
            SimulationError::EmptyAdjacency(_) => "farm has no adjacent farm to send animals to",
            SimulationError::UnknownFarm(_) => "failed to find target farm to infect",
            SimulationError::NoFarms => "couldn't find a farm to seed the infection",
            SimulationError::NoSusceptible(_) => "no susceptible individuals to infect",
            SimulationError::CounterExhausted => "the day or batch counter would overflow",
        }
    }
}

} // verus!
