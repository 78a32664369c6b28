use crate::args::{
    BarostatChoose, CrystalCellType, IntegratorChoose, PotentialChoose, ThermostatChoose,
};
use crate::error::SolverError;
use crate::initializer::UnitCell;
use crate::integrator::{Barostat, Integrator, Thermostat};
use crate::potential::{Potential, PotentialView, PotentialsDatabase};
use vstd::prelude::*;

verus! {

/// The registry that a fresh simulation starts from: `default_potential`
/// stands for every pair, and is also set for the pair of type 0 with itself.
pub fn generate_default_potentials<S: Copy>(default_potential: Potential<S>) -> (db:
    PotentialsDatabase<S>)
    ensures
        db@ == Map::<(u16, u16), PotentialView<S>>::empty().insert((0, 0), default_potential@),
        db.default_potential() == default_potential@,
{
    let copy = default_potential.duplicate();
    let mut db = PotentialsDatabase::new(default_potential);
    db.set_potential(0, 0, copy);
    db
}

/// The unit cell of the lattice that the user chose.
pub fn unit_cell(crystal_cell_type: CrystalCellType) -> (cell: UnitCell)
    ensures
        cell == (match crystal_cell_type {
            CrystalCellType::U => UnitCell::U,
            CrystalCellType::FCC => UnitCell::FCC,
        }),
{
    match crystal_cell_type {
        CrystalCellType::U => UnitCell::U,
        CrystalCellType::FCC => UnitCell::FCC,
    }
}

/// Number of particles that fill a lattice of `size[0]` by `size[1]` by
/// `size[2]` cells, if `size` names three extents and the number can be
/// counted.
pub fn lattice_population(crystal_cell_type: CrystalCellType, size: &Vec<u32>) -> (count: Option<
    usize,
>)
    ensures
        count == (if size.len() >= 3 && unit_cell_spec(crystal_cell_type).sites(
            size[0] as int,
            size[1] as int,
            size[2] as int,
        ) <= usize::MAX {
            Some(
                unit_cell_spec(crystal_cell_type).sites(
                    size[0] as int,
                    size[1] as int,
                    size[2] as int,
                ) as usize,
            )
        } else {
            None
        }),
{
    if size.len() < 3 {
        return None;
    }
    crate::initializer::count_sites(
        unit_cell(crystal_cell_type),
        size[0] as usize,
        size[1] as usize,
        size[2] as usize,
    )
}

/// The unit cell of the lattice that the user chose.
pub open spec fn unit_cell_spec(crystal_cell_type: CrystalCellType) -> UnitCell {
    match crystal_cell_type {
        CrystalCellType::U => UnitCell::U,
        CrystalCellType::FCC => UnitCell::FCC,
    }
}

/// The integrator that the user chose. A scheme of the user's own cannot be
/// run.
pub fn choose_integrator(integrator: IntegratorChoose) -> (r: Result<Integrator, SolverError>)
    ensures
        r == (match integrator {
            IntegratorChoose::VerletMethod => Ok::<Integrator, SolverError>(
                Integrator::VerletMethod,
            ),
            IntegratorChoose::Custom => Err(SolverError::IntegratorNotImplemented),
        }),
{
    match integrator {
        IntegratorChoose::VerletMethod => Ok(Integrator::VerletMethod),
        IntegratorChoose::Custom => Err(SolverError::IntegratorNotImplemented),
    }
}

/// The thermostat that the user chose, at rest: its carried values are
/// `zero`. Its first parameter is the time constant.
pub open spec fn thermostat_outcome<S>(
    choice: ThermostatChoose,
    params: Option<Seq<S>>,
    zero: S,
) -> Result<Thermostat<S>, SolverError> {
    match choice {
        ThermostatChoose::Custom => Err(SolverError::ThermostatNotImplemented),
        _ => if params is None || params->0.len() < 1 {
            Err(SolverError::MissingParameters)
        } else if choice is Berendsen {
            Ok(Thermostat::Berendsen { tau: params->0[0], lambda: zero })
        } else {
            Ok(Thermostat::NoseHoover { tau: params->0[0], psi: zero, lambda: zero })
        },
    }
}

/// The barostat that the user chose, at rest: its carried value is `zero`.
/// Its first parameter is the compressibility, its second the time constant.
pub open spec fn barostat_outcome<S>(
    choice: BarostatChoose,
    params: Option<Seq<S>>,
    zero: S,
) -> Result<Barostat<S>, SolverError> {
    match choice {
        BarostatChoose::Custom => Err(SolverError::BarostatNotImplemented),
        BarostatChoose::Berendsen => if params is None || params->0.len() < 2 {
            Err(SolverError::MissingParameters)
        } else {
            Ok(Barostat::Berendsen { beta: params->0[0], tau: params->0[1], myu: zero })
        },
    }
}

/// The view of optional parameters.
pub open spec fn params_view<S>(params: Option<&Vec<S>>) -> Option<Seq<S>> {
    match params {
        Some(v) => Some(v@),
        None => None,
    }
}

/// Builds the thermostat that the user chose from its parameters.
pub fn choose_thermostat<S: Copy>(
    choice: ThermostatChoose,
    params: Option<&Vec<S>>,
    zero: S,
) -> (r: Result<Thermostat<S>, SolverError>)
    ensures
        r == thermostat_outcome(choice, params_view(params), zero),
{
    if let ThermostatChoose::Custom = choice {
        return Err(SolverError::ThermostatNotImplemented);
    }
    let tau = match params {
        Some(values) => {
            if values.len() < 1 {
                return Err(SolverError::MissingParameters);
            }
            values[0]
        },
        None => {
            return Err(SolverError::MissingParameters);
        },
    };
    match choice {
        ThermostatChoose::Berendsen => Ok(Thermostat::Berendsen { tau, lambda: zero }),
        _ => Ok(Thermostat::NoseHoover { tau, psi: zero, lambda: zero }),
    }
}

/// Builds the barostat that the user chose from its parameters.
pub fn choose_barostat<S: Copy>(choice: BarostatChoose, params: Option<&Vec<S>>, zero: S) -> (r:
    Result<Barostat<S>, SolverError>)
    ensures
        r == barostat_outcome(choice, params_view(params), zero),
{
    if let BarostatChoose::Custom = choice {
        return Err(SolverError::BarostatNotImplemented);
    }
    match params {
        Some(values) => {
            if values.len() < 2 {
                return Err(SolverError::MissingParameters);
            }
            Ok(Barostat::Berendsen { beta: values[0], tau: values[1], myu: zero })
        },
        None => Err(SolverError::MissingParameters),
    }
}

/// The couplings of a run, each with the target it steers towards.
#[derive(Debug, PartialEq)]
pub struct Couplings<S> {
    pub barostat: Option<(Barostat<S>, S)>,
    pub thermostat: Option<(Thermostat<S>, S)>,
}

/// What the user's choice of couplings comes to. The thermostat is built
/// first, then the barostat; after that a barostat without a target pressure
/// and then a thermostat without a target temperature are objected to.
pub open spec fn couplings_outcome<S>(
    thermostat_choose: Option<ThermostatChoose>,
    thermostat_params: Option<Seq<S>>,
    temperature: Option<S>,
    barostat_choose: Option<BarostatChoose>,
    barostat_params: Option<Seq<S>>,
    pressure: Option<S>,
    zero: S,
) -> Result<Couplings<S>, SolverError> {
    if thermostat_choose is Some && thermostat_outcome(
        thermostat_choose->0,
        thermostat_params,
        zero,
    ) is Err {
        Err(thermostat_outcome(thermostat_choose->0, thermostat_params, zero)->Err_0)
    } else if barostat_choose is Some && barostat_outcome(
        barostat_choose->0,
        barostat_params,
        zero,
    ) is Err {
        Err(barostat_outcome(barostat_choose->0, barostat_params, zero)->Err_0)
    } else if barostat_choose is Some && pressure is None {
        Err(SolverError::BarostatUsedWithoutPressure)
    } else if thermostat_choose is Some && temperature is None {
        Err(SolverError::PotentialUsedWithoutTemperature)
    } else {
        Ok(
            Couplings {
                barostat: if barostat_choose is Some {
                    Some(
                        (
                            barostat_outcome(barostat_choose->0, barostat_params, zero)->Ok_0,
                            pressure->0,
                        ),
                    )
                } else {
                    None
                },
                thermostat: if thermostat_choose is Some {
                    Some(
                        (
                            thermostat_outcome(thermostat_choose->0, thermostat_params, zero)->Ok_0,
                            temperature->0,
                        ),
                    )
                } else {
                    None
                },
            },
        )
    }
}

/// Builds the couplings of a run from what the user chose, before any step
/// is taken.
pub fn configure_couplings<S: Copy>(
    thermostat_choose: Option<ThermostatChoose>,
    thermostat_params: Option<&Vec<S>>,
    temperature: Option<S>,
    barostat_choose: Option<BarostatChoose>,
    barostat_params: Option<&Vec<S>>,
    pressure: Option<S>,
    zero: S,
) -> (r: Result<Couplings<S>, SolverError>)
    ensures
        r == couplings_outcome(
            thermostat_choose,
            params_view(thermostat_params),
            temperature,
            barostat_choose,
            params_view(barostat_params),
            pressure,
            zero,
        ),
{
    let thermostat = match thermostat_choose {
        Some(choice) => match choose_thermostat(choice, thermostat_params, zero) {
            Ok(t) => Some(t),
            Err(e) => {
                return Err(e);
            },
        },
        None => None,
    };
    let barostat = match barostat_choose {
        Some(choice) => match choose_barostat(choice, barostat_params, zero) {
            Ok(b) => Some(b),
            Err(e) => {
                return Err(e);
            },
        },
        None => None,
    };
    let barostat = match barostat {
        Some(b) => match pressure {
            Some(p) => Some((b, p)),
            None => {
                return Err(SolverError::BarostatUsedWithoutPressure);
            },
        },
        None => None,
    };
    let thermostat = match thermostat {
        Some(t) => match temperature {
            Some(target) => Some((t, target)),
            None => {
                return Err(SolverError::PotentialUsedWithoutTemperature);
            },
        },
        None => None,
    };
    Ok(Couplings { barostat, thermostat })
}

/// A Lennard-Jones potential that the user asks for: the two types that it
/// is to act between, its length and its depth.
#[derive(Clone, Copy, Debug, PartialEq)]
pub struct PotentialRequest<S> {
    pub id0: u16,
    pub id1: u16,
    pub sigma: S,
    pub eps: S,
}

/// What the user's wish for a potential comes to. It needs two types; the
/// potential must be of a kind that can be evaluated; and a Lennard-Jones
/// potential needs two parameters, its length and then its depth.
pub open spec fn potential_outcome<S>(
    particles: Seq<u16>,
    potential: PotentialChoose,
    params: Seq<S>,
) -> Result<PotentialRequest<S>, SolverError> {
    if particles.len() < 2 {
        Err(SolverError::MissingParameters)
    } else if potential is Custom {
        Err(SolverError::PotentialNotImplemented)
    } else if params.len() < 2 {
        Err(SolverError::MissingParameters)
    } else {
        Ok(PotentialRequest { id0: particles[0], id1: particles[1], sigma: params[0], eps: params[1] })
    }
}

/// Reads the user's wish for a potential between two types.
pub fn choose_potential<S: Copy>(
    particles: &Vec<u16>,
    potential: PotentialChoose,
    params: &Vec<S>,
) -> (r: Result<PotentialRequest<S>, SolverError>)
    ensures
        r == potential_outcome(particles@, potential, params@),
{
    if particles.len() < 2 {
        return Err(SolverError::MissingParameters);
    }
    if let PotentialChoose::Custom = potential {
        return Err(SolverError::PotentialNotImplemented);
    }
    if params.len() < 2 {
        return Err(SolverError::MissingParameters);
    }
    Ok(PotentialRequest { id0: particles[0], id1: particles[1], sigma: params[0], eps: params[1] })
}

} // verus!
