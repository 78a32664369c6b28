use moldyn::{
    choose_barostat, choose_integrator, choose_potential, choose_thermostat, configure_couplings,
    lattice_population, unit_cell, Barostat, BarostatChoose, Couplings, CrystalCellType,
    DataFileMacro, Integrator, IntegratorChoose, MacroParameterType, MacroParameters, Phase,
    PotentialChoose, PotentialRequest, SolverError, Thermostat, ThermostatChoose, UnitCell,
};

fn berendsen_thermostat() -> Thermostat<f64> {
    Thermostat::Berendsen { tau: 0.5, lambda: 0.0 }
}

fn berendsen_barostat() -> Barostat<f64> {
    Barostat::Berendsen { beta: 1.0, tau: 0.1, myu: 0.0 }
}

#[test]
fn plain_verlet_step() {
    let phases = Integrator::VerletMethod.calculate::<f64>(None, None);
    assert_eq!(
        phases,
        Ok(vec![Phase::HalfKick, Phase::Drift, Phase::Wrap, Phase::UpdateForce, Phase::HalfKick])
    );
}

#[test]
fn verlet_step_with_couplings() {
    let thermostat = berendsen_thermostat();
    let barostat = berendsen_barostat();
    assert_eq!(
        Integrator::VerletMethod.calculate(Some(&barostat), Some(&thermostat)),
        Ok(vec![
            Phase::CalculateMyu,
            Phase::CalculateLambda,
            Phase::HalfKick,
            Phase::ScaleVelocities,
            Phase::Drift,
            Phase::Wrap,
            Phase::UpdateForce,
            Phase::HalfKick,
            Phase::ScaleBox,
        ])
    );
    assert_eq!(
        Integrator::VerletMethod.calculate(None, Some(&thermostat)),
        Ok(vec![
            Phase::CalculateLambda,
            Phase::HalfKick,
            Phase::ScaleVelocities,
            Phase::Drift,
            Phase::Wrap,
            Phase::UpdateForce,
            Phase::HalfKick,
        ])
    );
    let nose_hoover: Thermostat<f64> = Thermostat::NoseHoover { tau: 0.5, psi: 0.0, lambda: 0.0 };
    assert_eq!(
        Integrator::VerletMethod.calculate(Some(&barostat), None::<&Thermostat<f64>>),
        Ok(vec![
            Phase::CalculateMyu,
            Phase::HalfKick,
            Phase::Drift,
            Phase::Wrap,
            Phase::UpdateForce,
            Phase::HalfKick,
            Phase::ScaleBox,
        ])
    );
    assert_eq!(
        Integrator::VerletMethod.calculate(None, Some(&nose_hoover)).unwrap().len(),
        7
    );
}

#[test]
fn step_that_cannot_be_taken() {
    let thermostat = berendsen_thermostat();
    let barostat = berendsen_barostat();
    let custom_thermostat: Thermostat<f64> =
        Thermostat::Custom { name: String::from("mine"), custom_data: vec![] };
    let custom_barostat: Barostat<f64> =
        Barostat::Custom { name: String::from("mine"), custom_data: vec![] };
    let custom = Integrator::Custom(String::from("mine"));
    assert_eq!(
        custom.calculate(Some(&custom_barostat), Some(&custom_thermostat)),
        Err(SolverError::IntegratorNotImplemented)
    );
    assert_eq!(custom.calculate::<f64>(None, None), Err(SolverError::IntegratorNotImplemented));
    assert_eq!(
        Integrator::VerletMethod.calculate(Some(&custom_barostat), Some(&custom_thermostat)),
        Err(SolverError::BarostatNotImplemented)
    );
    assert_eq!(
        Integrator::VerletMethod.calculate(Some(&custom_barostat), Some(&thermostat)),
        Err(SolverError::BarostatNotImplemented)
    );
    assert_eq!(
        Integrator::VerletMethod.calculate(Some(&barostat), Some(&custom_thermostat)),
        Err(SolverError::ThermostatNotImplemented)
    );
    assert_eq!(
        Integrator::VerletMethod.calculate(None, Some(&custom_thermostat)),
        Err(SolverError::ThermostatNotImplemented)
    );
}

#[test]
fn choices_of_the_user() {
    assert_eq!(unit_cell(CrystalCellType::U), UnitCell::U);
    assert_eq!(unit_cell(CrystalCellType::FCC), UnitCell::FCC);
    assert_eq!(choose_integrator(IntegratorChoose::VerletMethod), Ok(Integrator::VerletMethod));
    assert_eq!(
        choose_integrator(IntegratorChoose::Custom),
        Err(SolverError::IntegratorNotImplemented)
    );
    assert_eq!(lattice_population(CrystalCellType::U, &vec![10, 10, 10]), Some(1000));
    assert_eq!(lattice_population(CrystalCellType::FCC, &vec![10, 10, 10]), Some(4000));
    assert_eq!(lattice_population(CrystalCellType::FCC, &vec![2, 3, 5, 7]), Some(120));
    assert_eq!(lattice_population(CrystalCellType::U, &vec![10, 10]), None);
    assert_eq!(lattice_population(CrystalCellType::U, &vec![0, u32::MAX, u32::MAX]), Some(0));
    assert_eq!(
        lattice_population(CrystalCellType::U, &vec![u32::MAX, u32::MAX, 1]),
        Some(u32::MAX as usize * u32::MAX as usize)
    );
    assert_eq!(lattice_population(CrystalCellType::U, &vec![u32::MAX, u32::MAX, u32::MAX]), None);
    assert_eq!(lattice_population(CrystalCellType::FCC, &vec![u32::MAX, u32::MAX, 2]), None);
}

#[test]
fn thermostat_from_parameters() {
    let tau = vec![0.5, 9.0];
    assert_eq!(
        choose_thermostat(ThermostatChoose::Berendsen, Some(&tau), 0.0),
        Ok(Thermostat::Berendsen { tau: 0.5, lambda: 0.0 })
    );
    assert_eq!(
        choose_thermostat(ThermostatChoose::NoseHoover, Some(&tau), 0.0),
        Ok(Thermostat::NoseHoover { tau: 0.5, psi: 0.0, lambda: 0.0 })
    );
    assert_eq!(
        choose_thermostat(ThermostatChoose::Custom, Some(&tau), 0.0),
        Err(SolverError::ThermostatNotImplemented)
    );
    assert_eq!(
        choose_thermostat::<f64>(ThermostatChoose::Custom, None, 0.0),
        Err(SolverError::ThermostatNotImplemented)
    );
    assert_eq!(
        choose_thermostat::<f64>(ThermostatChoose::Berendsen, None, 0.0),
        Err(SolverError::MissingParameters)
    );
    assert_eq!(
        choose_thermostat::<f64>(ThermostatChoose::NoseHoover, Some(&vec![]), 0.0),
        Err(SolverError::MissingParameters)
    );
}

#[test]
fn barostat_from_parameters() {
    assert_eq!(
        choose_barostat(BarostatChoose::Berendsen, Some(&vec![1.0, 0.1]), 0.0),
        Ok(Barostat::Berendsen { beta: 1.0, tau: 0.1, myu: 0.0 })
    );
    assert_eq!(
        choose_barostat(BarostatChoose::Berendsen, Some(&vec![1.0]), 0.0),
        Err(SolverError::MissingParameters)
    );
    assert_eq!(
        choose_barostat::<f64>(BarostatChoose::Berendsen, None, 0.0),
        Err(SolverError::MissingParameters)
    );
    assert_eq!(
        choose_barostat(BarostatChoose::Custom, Some(&vec![1.0, 0.1]), 0.0),
        Err(SolverError::BarostatNotImplemented)
    );
}

#[test]
fn couplings_need_their_targets() {
    let tau = vec![0.5];
    let beta_tau = vec![1.0, 0.1];
    assert_eq!(
        configure_couplings::<f64>(None, None, None, None, None, None, 0.0),
        Ok(Couplings { barostat: None, thermostat: None })
    );
    assert_eq!(
        configure_couplings(None, Some(&tau), Some(273.15), None, Some(&beta_tau), None, 0.0),
        Ok(Couplings { barostat: None, thermostat: None })
    );
    assert_eq!(
        configure_couplings(
            Some(ThermostatChoose::Berendsen),
            Some(&tau),
            Some(273.15),
            Some(BarostatChoose::Berendsen),
            Some(&beta_tau),
            Some(0.101325),
            0.0
        ),
        Ok(Couplings {
            barostat: Some((Barostat::Berendsen { beta: 1.0, tau: 0.1, myu: 0.0 }, 0.101325)),
            thermostat: Some((Thermostat::Berendsen { tau: 0.5, lambda: 0.0 }, 273.15)),
        })
    );
    assert_eq!(
        configure_couplings(
            Some(ThermostatChoose::NoseHoover),
            Some(&tau),
            None,
            None,
            None,
            None,
            0.0
        ),
        Err(SolverError::PotentialUsedWithoutTemperature)
    );
    assert_eq!(
        configure_couplings(
            None,
            None,
            None,
            Some(BarostatChoose::Berendsen),
            Some(&beta_tau),
            None,
            0.0
        ),
        Err(SolverError::BarostatUsedWithoutPressure)
    );
    assert_eq!(
        configure_couplings(
            Some(ThermostatChoose::Berendsen),
            Some(&tau),
            None,
            Some(BarostatChoose::Berendsen),
            Some(&beta_tau),
            None,
            0.0
        ),
        Err(SolverError::BarostatUsedWithoutPressure)
    );
    assert_eq!(
        configure_couplings(
            Some(ThermostatChoose::Berendsen),
            None,
            None,
            Some(BarostatChoose::Custom),
            Some(&beta_tau),
            None,
            0.0
        ),
        Err(SolverError::MissingParameters)
    );
    assert_eq!(
        configure_couplings(
            Some(ThermostatChoose::Berendsen),
            Some(&tau),
            None,
            Some(BarostatChoose::Custom),
            Some(&beta_tau),
            None,
            0.0
        ),
        Err(SolverError::BarostatNotImplemented)
    );
    assert_eq!(
        configure_couplings(
            Some(ThermostatChoose::Custom),
            Some(&tau),
            Some(1.0),
            Some(BarostatChoose::Custom),
            Some(&beta_tau),
            Some(1.0),
            0.0
        ),
        Err(SolverError::ThermostatNotImplemented)
    );
}

#[test]
fn potential_from_parameters() {
    assert_eq!(
        choose_potential(&vec![3, 1, 7], PotentialChoose::LennardJones, &vec![0.3418, 1.712, 9.0]),
        Ok(PotentialRequest { id0: 3, id1: 1, sigma: 0.3418, eps: 1.712 })
    );
    assert_eq!(
        choose_potential(&vec![3], PotentialChoose::Custom, &vec![0.3418, 1.712]),
        Err(SolverError::MissingParameters)
    );
    assert_eq!(
        choose_potential(&vec![3, 1], PotentialChoose::Custom, &vec![0.3418]),
        Err(SolverError::PotentialNotImplemented)
    );
    assert_eq!(
        choose_potential(&vec![3, 1], PotentialChoose::LennardJones, &vec![0.3418]),
        Err(SolverError::MissingParameters)
    );
}

fn blank(frame: usize) -> MacroParameters<f64> {
    MacroParameters {
        iteration: frame,
        kinetic_energy: 0.0,
        potential_energy: 0.0,
        thermal_energy: 0.0,
        unit_kinetic_energy: 0.0,
        unit_potential_energy: 0.0,
        unit_thermal_energy: 0.0,
        temperature: 0.0,
        pressure: 0.0,
        custom: 0.0,
    }
}

#[test]
fn observables_are_written_into_their_frame() {
    let mut data: DataFileMacro<f64> = DataFileMacro::new();
    assert_eq!(data.start_frame, 0);
    assert_eq!(data.frame_count, 0);
    assert_eq!(data.get(3), None);
    data.add_macro_params(
        3,
        &[
            MacroParameterType::KineticEnergy(132.67, 66.335),
            MacroParameterType::Temperature(1.0),
            MacroParameterType::Temperature(1601.5),
        ],
        0.0,
    );
    assert_eq!(data.frame_count, 1);
    assert_eq!(
        data.get(3),
        Some(MacroParameters {
            kinetic_energy: 132.67,
            unit_kinetic_energy: 66.335,
            temperature: 1601.5,
            ..blank(3)
        })
    );
    data.add_macro_params(
        3,
        &[
            MacroParameterType::PotentialEnergy(-0.5, -0.25),
            MacroParameterType::ThermalEnergy(66.0, 33.0),
            MacroParameterType::Pressure(5.4),
        ],
        0.0,
    );
    assert_eq!(data.frame_count, 2);
    assert_eq!(
        data.get(3),
        Some(MacroParameters {
            iteration: 3,
            kinetic_energy: 132.67,
            potential_energy: -0.5,
            thermal_energy: 66.0,
            unit_kinetic_energy: 66.335,
            unit_potential_energy: -0.25,
            unit_thermal_energy: 33.0,
            temperature: 1601.5,
            pressure: 5.4,
            custom: 0.0,
        })
    );
    data.add_macro_params(4, &[], 0.0);
    assert_eq!(data.get(4), Some(blank(4)));
    data.reset_old();
    assert_eq!(data.start_frame, 3);
    assert_eq!(data.frame_count, 0);
    assert_eq!(data.get(3), None);
    assert_eq!(data.sorted_frames(), vec![]);
}

#[test]
fn frames_are_written_out_in_order() {
    let mut data: DataFileMacro<f64> = DataFileMacro::new();
    let mut expected = Vec::new();
    for i in 0..200usize {
        let frame = (i * 7919) % 1009;
        data.add_macro_params(frame, &[MacroParameterType::Pressure(frame as f64)], 0.0);
        expected.push((frame, MacroParameters { pressure: frame as f64, ..blank(frame) }));
    }
    expected.sort_by_key(|row| row.0);
    let rows = data.sorted_frames();
    assert_eq!(rows.len(), 200);
    assert_eq!(rows, expected);
}

#[test]
fn runs_are_joined() {
    let mut first: DataFileMacro<f64> = DataFileMacro::new();
    first.add_macro_params(1, &[MacroParameterType::Pressure(1.0)], 0.0);
    first.add_macro_params(2, &[MacroParameterType::Pressure(2.0)], 0.0);
    let mut second: DataFileMacro<f64> = DataFileMacro::new();
    second.add_macro_params(2, &[MacroParameterType::Temperature(20.0)], 0.0);
    second.add_macro_params(3, &[MacroParameterType::Temperature(30.0)], 0.0);
    first.append_data(&second);
    assert_eq!(first.start_frame, 0);
    assert_eq!(first.frame_count, 2);
    assert_eq!(
        first.sorted_frames(),
        vec![
            (1, MacroParameters { pressure: 1.0, ..blank(1) }),
            (2, MacroParameters { temperature: 20.0, ..blank(2) }),
            (3, MacroParameters { temperature: 30.0, ..blank(3) }),
        ]
    );
    assert_eq!(second.sorted_frames().len(), 2);
}

#[test]
fn run_from_rows() {
    assert!(DataFileMacro::<f64>::from_rows(&vec![]).is_none());
    let rows = vec![
        MacroParameters { pressure: 1.0, ..blank(12) },
        MacroParameters { pressure: 2.0, ..blank(10) },
        MacroParameters { pressure: 3.0, ..blank(15) },
        MacroParameters { pressure: 4.0, ..blank(10) },
    ];
    let data = DataFileMacro::from_rows(&rows).unwrap();
    assert_eq!(data.start_frame, 10);
    assert_eq!(data.frame_count, 5);
    assert_eq!(
        data.sorted_frames(),
        vec![
            (10, MacroParameters { pressure: 4.0, ..blank(10) }),
            (12, MacroParameters { pressure: 1.0, ..blank(12) }),
            (15, MacroParameters { pressure: 3.0, ..blank(15) }),
        ]
    );
    let single = DataFileMacro::from_rows(&rows[2..3].to_vec()).unwrap();
    assert_eq!(single.start_frame, 15);
    assert_eq!(single.frame_count, 0);
}

#[test]
fn frame_numbers_are_read_from_names() {
    assert_eq!(moldyn::parse_frame_number("0"), Some(0));
    assert_eq!(moldyn::parse_frame_number("17"), Some(17));
    assert_eq!(moldyn::parse_frame_number("+17"), Some(17));
    assert_eq!(moldyn::parse_frame_number("0017"), Some(17));
    assert_eq!(moldyn::parse_frame_number(""), None);
    assert_eq!(moldyn::parse_frame_number("+"), None);
    assert_eq!(moldyn::parse_frame_number("17a"), None);
    assert_eq!(moldyn::parse_frame_number("-17"), None);
    assert_eq!(moldyn::parse_frame_number("1.5"), None);
    for text in ["18446744073709551615", "18446744073709551616", "99999999999999999999999", "4294967296"] {
        assert_eq!(moldyn::parse_frame_number(text), text.parse::<usize>().ok(), "{}", text);
    }
}

#[test]
fn frame_names_are_decimal_numbers() {
    for frame in [0usize, 1, 9, 10, 99, 100, 12345, 4294967296, usize::MAX] {
        assert_eq!(moldyn::frame_name(frame), format!("{}", frame));
        assert_eq!(moldyn::parse_frame_number(&moldyn::frame_name(frame)), Some(frame));
    }
}

#[test]
fn last_frame_is_the_largest() {
    let names = |list: &[&str]| list.iter().map(|name| name.to_string()).collect::<Vec<String>>();
    assert_eq!(moldyn::last_frame(&names(&["0", "10", "9", "2"])), Some(10));
    assert_eq!(moldyn::last_frame(&names(&["0"])), Some(0));
    assert_eq!(moldyn::last_frame(&names(&["7", "3"])), Some(7));
    assert_eq!(moldyn::last_frame(&names(&[])), None);
    assert_eq!(moldyn::last_frame(&names(&["1", "bb", "3"])), None);
}

#[test]
fn boxes_are_filed_by_state_number() {
    let mut boxes: Vec<moldyn::Vector3<f64>> = Vec::new();
    moldyn::record_boundary_box(&mut boxes, 0, moldyn::Vector3::new(1.0, 1.0, 1.0));
    moldyn::record_boundary_box(&mut boxes, 1, moldyn::Vector3::new(2.0, 2.0, 2.0));
    moldyn::record_boundary_box(&mut boxes, 7, moldyn::Vector3::new(3.0, 3.0, 3.0));
    moldyn::record_boundary_box(&mut boxes, 1, moldyn::Vector3::new(4.0, 4.0, 4.0));
    assert_eq!(
        boxes,
        vec![
            moldyn::Vector3::new(1.0, 1.0, 1.0),
            moldyn::Vector3::new(4.0, 4.0, 4.0),
            moldyn::Vector3::new(3.0, 3.0, 3.0),
        ]
    );
}
