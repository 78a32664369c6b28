use vstd::prelude::*;

verus! {

/// Lattice that the user asks for.
#[derive(Clone, Copy, Debug, PartialEq, Eq)]
pub enum CrystalCellType {
    /// Simple cubic lattice, as in gases.
    U,
    /// Face-centred cubic lattice, as in metals.
    FCC,
}

/// Integrator that the user asks for.
#[derive(Clone, Copy, Debug, PartialEq, Eq)]
pub enum IntegratorChoose {
    /// Velocity Verlet.
    VerletMethod,
    /// A scheme of the user's own.
    Custom,
}

/// Barostat that the user asks for.
#[derive(Clone, Copy, Debug, PartialEq, Eq)]
pub enum BarostatChoose {
    Berendsen,
    /// A barostat of the user's own.
    Custom,
}

/// Thermostat that the user asks for.
#[derive(Clone, Copy, Debug, PartialEq, Eq)]
pub enum ThermostatChoose {
    Berendsen,
    NoseHoover,
    /// A thermostat of the user's own.
    Custom,
}

/// Kind of potential that the user asks for.
#[derive(Clone, Copy, Debug, PartialEq, Eq)]
pub enum PotentialChoose {
    LennardJones,
    /// A potential of the user's own.
    Custom,
}

} // verus!
