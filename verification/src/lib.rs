//! Verified bookkeeping core of a molecular-dynamics engine.
//!
//! The crate owns everything about a simulation that is discrete: the
//! particle-type registry, the particle population and its ordering by type,
//! the registry of pair potentials and the text of its keys, the indexing of
//! lattice sites, the stored form of a state, the plan of a force evaluation
//! and the order of the phases of an integration step. All of it is generic
//! over the scalar type `S`: scalars are stored and copied here, never
//! combined, so the numeric kernels that instantiate `S` stay with the
//! caller.
pub mod args;
pub mod commands;
pub mod error;
pub mod force;
pub mod frames;
pub mod initializer;
pub mod integrator;
pub mod key;
pub mod macro_data;
pub mod particle;
pub mod particles_database;
pub mod potential;
pub mod save_data;
pub mod vector;

pub use args::{BarostatChoose, CrystalCellType, IntegratorChoose, PotentialChoose, ThermostatChoose};
pub use commands::{
    choose_barostat, choose_integrator, choose_potential, choose_thermostat, configure_couplings,
    generate_default_potentials, lattice_population, unit_cell, Couplings, PotentialRequest,
};
pub use error::SolverError;
pub use force::{begin_force_update, force_plan, Interaction};
pub use frames::{frame_name, last_frame, parse_frame_number, record_boundary_box};
pub use initializer::{
    initialize_particles, initialize_particles_position, initialize_velocities_maxwell_boltzmann,
    CellCoordinate, InitError, UnitCell,
};
pub use integrator::{Barostat, Integrator, Phase, Thermostat};
pub use key::{format_key, parse_key};
pub use macro_data::{DataFileMacro, MacroParameterType, MacroParameters};
pub use particle::{Particle, State};
pub use particles_database::{ParticleData, ParticleDatabase, ParticleRecord, SaveLoadError};
pub use potential::{Potential, PotentialRecord, PotentialsDatabase};
pub use save_data::{ParticleToSave, StateToSave};
pub use vector::Vector3;
