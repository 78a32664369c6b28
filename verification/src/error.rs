use vstd::prelude::*;

verus! {

/// What the solver can object to.
#[derive(Clone, Copy, Debug, PartialEq, Eq)]
pub enum SolverError {
    /// A pair of particle types interacts through a potential of a kind that
    /// cannot be evaluated.
    PotentialNotImplemented,
    /// The thermostat is of a kind that cannot be applied.
    ThermostatNotImplemented,
    /// The barostat is of a kind that cannot be applied.
    BarostatNotImplemented,
    /// The integrator is of a kind that cannot be run.
    IntegratorNotImplemented,
    /// A thermostat was asked for without a target temperature.
    PotentialUsedWithoutTemperature,
    /// A barostat was asked for without a target pressure.
    BarostatUsedWithoutPressure,
    /// A thermostat or barostat was asked for with too few parameters.
    MissingParameters,
}

} // verus!
