use crate::error::SolverError;
use vstd::prelude::*;

verus! {

/// Scheme that advances the state by one time step.
#[derive(Debug, PartialEq)]
pub enum Integrator {
    /// Velocity Verlet.
    VerletMethod,
    /// A scheme known by name only; it cannot be run.
    Custom(String),
}

/// Coupling to a heat bath, with the values it carries from step to step.
#[derive(Debug, PartialEq)]
pub enum Thermostat<S> {
    /// Berendsen thermostat with time constant `tau`; `lambda` is the factor
    /// by which it last scaled the velocities.
    Berendsen { tau: S, lambda: S },
    /// Nose-Hoover thermostat with time constant `tau` and friction `psi`;
    /// `lambda` is the factor by which it last scaled the velocities.
    NoseHoover { tau: S, psi: S, lambda: S },
    /// A thermostat known by name only; it cannot be applied.
    Custom { name: String, custom_data: Vec<S> },
}

/// Coupling to a pressure bath, with the value it carries from step to step.
#[derive(Debug, PartialEq)]
pub enum Barostat<S> {
    /// Berendsen barostat with compressibility `beta` and time constant
    /// `tau`; `myu` is the factor by which it last scaled the box.
    Berendsen { beta: S, tau: S, myu: S },
    /// A barostat known by name only; it cannot be applied.
    Custom { name: String, custom_data: Vec<S> },
}

/// One phase of an integration step.
#[derive(Clone, Copy, Debug, PartialEq, Eq)]
pub enum Phase {
    /// The barostat reads the pressure and fixes its scaling factor.
    CalculateMyu,
    /// The thermostat reads the temperature and fixes its scaling factor.
    CalculateLambda,
    /// Every velocity advances by half a step under the current forces.
    HalfKick,
    /// The thermostat scales the velocities.
    ScaleVelocities,
    /// Every position advances by a full step at the current velocity.
    Drift,
    /// Positions that left the box are brought back into it.
    Wrap,
    /// Force, potential and virial of every particle are computed anew.
    UpdateForce,
    /// The barostat scales the box and the positions.
    ScaleBox,
}

impl<S> Thermostat<S> {
    /// Whether the thermostat is of a kind that can be applied.
    pub open spec fn implemented(&self) -> bool {
        !(self is Custom)
    }
}

impl<S> Barostat<S> {
    /// Whether the barostat is of a kind that can be applied.
    pub open spec fn implemented(&self) -> bool {
        !(self is Custom)
    }
}

/// The phases of one velocity-Verlet step, in order. Both couplings fix
/// their factors before any velocity changes; the thermostat acts between the
/// first half kick and the drift; positions are wrapped before the forces
/// are computed; the barostat acts last.
pub open spec fn verlet_phases(barostat: bool, thermostat: bool) -> Seq<Phase> {
    (if barostat {
        seq![Phase::CalculateMyu]
    } else {
        seq![]
    }) + (if thermostat {
        seq![Phase::CalculateLambda]
    } else {
        seq![]
    }) + seq![Phase::HalfKick] + (if thermostat {
        seq![Phase::ScaleVelocities]
    } else {
        seq![]
    }) + seq![Phase::Drift, Phase::Wrap, Phase::UpdateForce, Phase::HalfKick] + (if barostat {
        seq![Phase::ScaleBox]
    } else {
        seq![]
    })
}

/// In every step the forces are computed right after the positions were
/// wrapped, both couplings fix their factors before the first velocity
/// changes, and the barostat, where there is one, acts last.
pub proof fn lemma_phase_order(barostat: bool, thermostat: bool)
    ensures
        forall|i: int|
            0 <= i < verlet_phases(barostat, thermostat).len() && #[trigger] verlet_phases(
                barostat,
                thermostat,
            )[i] == Phase::UpdateForce ==> i > 0 && verlet_phases(barostat, thermostat)[i - 1]
                == Phase::Wrap,
        forall|i: int, j: int|
            0 <= i < verlet_phases(barostat, thermostat).len() && 0 <= j < verlet_phases(
                barostat,
                thermostat,
            ).len() && (#[trigger] verlet_phases(barostat, thermostat)[i] == Phase::CalculateMyu
                || verlet_phases(barostat, thermostat)[i] == Phase::CalculateLambda)
                && #[trigger] verlet_phases(barostat, thermostat)[j] == Phase::HalfKick ==> i < j,
        barostat ==> verlet_phases(barostat, thermostat).last() == Phase::ScaleBox,
{
    let phases = verlet_phases(barostat, thermostat);
}

/// What a step with the given integrator and couplings comes to: its phases,
/// or the first thing in it that cannot be done.
pub open spec fn step_outcome<S>(
    integrator: Integrator,
    barostat: Option<&Barostat<S>>,
    thermostat: Option<&Thermostat<S>>,
) -> Result<Seq<Phase>, SolverError> {
    if integrator is Custom {
        Err(SolverError::IntegratorNotImplemented)
    } else if barostat is Some && !barostat->0.implemented() {
        Err(SolverError::BarostatNotImplemented)
    } else if thermostat is Some && !thermostat->0.implemented() {
        Err(SolverError::ThermostatNotImplemented)
    } else {
        Ok(verlet_phases(barostat is Some, thermostat is Some))
    }
}

impl Integrator {
    /// The phases that one step under the given couplings goes through, in
    /// order. Whoever owns the state carries them out one after the other.
    /// Where the integrator or a coupling cannot be run, the step has no
    /// phases at all, so nothing is changed before the error shows.
    pub fn calculate<S>(
        &self,
        barostat: Option<&Barostat<S>>,
        thermostat: Option<&Thermostat<S>>,
    ) -> (r: Result<Vec<Phase>, SolverError>)
        ensures
            r is Ok <==> step_outcome(*self, barostat, thermostat) is Ok,
            r is Ok ==> r->Ok_0@ == step_outcome(*self, barostat, thermostat)->Ok_0,
            r is Err ==> r->Err_0 == step_outcome(*self, barostat, thermostat)->Err_0,
    {
        match self {
            Integrator::VerletMethod => {},
            Integrator::Custom(_) => {
                return Err(SolverError::IntegratorNotImplemented);
            },
        }
        let with_barostat = match barostat {
            Some(Barostat::Custom { .. }) => {
                return Err(SolverError::BarostatNotImplemented);
            },
            Some(_) => true,
            None => false,
        };
        let with_thermostat = match thermostat {
            Some(Thermostat::Custom { .. }) => {
                return Err(SolverError::ThermostatNotImplemented);
            },
            Some(_) => true,
            None => false,
        };
        let mut phases: Vec<Phase> = Vec::new();
        if with_barostat {
            phases.push(Phase::CalculateMyu);
        }
        if with_thermostat {
            phases.push(Phase::CalculateLambda);
        }
        phases.push(Phase::HalfKick);
        if with_thermostat {
            phases.push(Phase::ScaleVelocities);
        }
        phases.push(Phase::Drift);
        phases.push(Phase::Wrap);
        phases.push(Phase::UpdateForce);
        phases.push(Phase::HalfKick);
        if with_barostat {
            phases.push(Phase::ScaleBox);
        }
        Ok(phases)
    }
}

} // verus!
