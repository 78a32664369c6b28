use moldyn::{
    format_key, generate_default_potentials, parse_key, Potential, PotentialRecord,
    PotentialsDatabase, SaveLoadError, SolverError,
};

fn argon() -> Potential<f64> {
    Potential::new_lennard_jones(0.3418, 1.712, 0.8545, -0.0279)
}

fn custom() -> Potential<f64> {
    Potential::Custom { name: String::from("mine"), custom_data: vec![1.0, 2.0] }
}

#[test]
fn key_text_is_two_decimal_ids() {
    assert_eq!(format_key(0, 0), "0,0");
    assert_eq!(format_key(1, 2), "1,2");
    assert_eq!(format_key(10, 9), "10,9");
    assert_eq!(format_key(65535, 100), "65535,100");
    assert_eq!(format_key(4096, 60000), "4096,60000");
}

#[test]
fn key_text_reads_back() {
    assert_eq!(parse_key("0,0"), Some((0, 0)));
    assert_eq!(parse_key("1,2"), Some((1, 2)));
    assert_eq!(parse_key("65535,100"), Some((65535, 100)));
    for pair in [(0u16, 0u16), (7, 3), (9, 10), (99, 100), (999, 1000), (12345, 65535), (65535, 0)] {
        assert_eq!(parse_key(&format_key(pair.0, pair.1)), Some(pair));
    }
}

#[test]
fn key_text_is_read_as_numbers_are() {
    assert_eq!(parse_key("+1,2"), Some((1, 2)));
    assert_eq!(parse_key("007,+08"), Some((7, 8)));
    assert_eq!(parse_key("000065535,1"), Some((65535, 1)));
    assert_eq!(parse_key("1,2,3"), Some((1, 2)));
    assert_eq!(parse_key(""), None);
    assert_eq!(parse_key("1"), None);
    assert_eq!(parse_key(","), None);
    assert_eq!(parse_key("1,"), None);
    assert_eq!(parse_key(",2"), None);
    assert_eq!(parse_key("1,2,"), None);
    assert_eq!(parse_key("1,2,x"), None);
    assert_eq!(parse_key("+,2"), None);
    assert_eq!(parse_key("++1,2"), None);
    assert_eq!(parse_key("-1,2"), None);
    assert_eq!(parse_key("1, 2"), None);
    assert_eq!(parse_key("1;2"), None);
    assert_eq!(parse_key("65536,1"), None);
    assert_eq!(parse_key("1,99999999999999999999999"), None);
    assert_eq!(parse_key("1,２"), None);
    assert_eq!(parse_key("a,b"), None);
}

#[test]
fn key_text_agrees_with_the_standard_library() {
    for text in ["0", "+0", "65535", "65536", "+", "", "00012", "1a", "-0", " 1", "４"] {
        let expected = text.parse::<u16>().ok();
        let key = format!("{},{}", text, 5);
        assert_eq!(parse_key(&key), expected.map(|id| (id, 5)), "{}", key);
    }
    for id in [0u16, 1, 9, 10, 11, 99, 100, 101, 999, 1000, 9999, 10000, 54321, 65535] {
        assert_eq!(format_key(id, id), format!("{},{}", id, id));
    }
}

#[test]
fn potential_is_found_in_either_order() {
    let mut db = PotentialsDatabase::new(argon());
    assert_eq!(db.get_potential(3, 5), &argon());
    db.set_potential(5, 3, Potential::new_lennard_jones(1.0, 2.0, 2.5, 0.25));
    assert_eq!(db.get_potential(3, 5), &Potential::new_lennard_jones(1.0, 2.0, 2.5, 0.25));
    assert_eq!(db.get_potential(5, 3), &Potential::new_lennard_jones(1.0, 2.0, 2.5, 0.25));
    assert_eq!(db.get_potential(3, 3), &argon());
    assert_eq!(db.get_potential(5, 5), &argon());
    assert_eq!(db.pairs(), vec![(3, 5)]);
    db.set_potential(3, 5, custom());
    assert_eq!(db.get_potential(5, 3), &custom());
    assert_eq!(db.pairs(), vec![(3, 5)]);
    db.set_potential(65535, 0, argon());
    let mut pairs = db.pairs();
    pairs.sort();
    assert_eq!(pairs, vec![(0, 65535), (3, 5)]);
}

#[test]
fn cut_off_radius_of_a_potential() {
    assert_eq!(argon().get_radius_cut(), Ok(0.8545));
    assert_eq!(custom().get_radius_cut(), Err(SolverError::PotentialNotImplemented));
    assert_eq!(custom().duplicate(), custom());
    assert_eq!(argon().duplicate(), argon());
}

#[test]
fn default_potentials() {
    let db = generate_default_potentials(argon());
    assert_eq!(db.pairs(), vec![(0, 0)]);
    assert_eq!(db.get_potential(0, 0), &argon());
    assert_eq!(db.get_potential(4, 2), &argon());
    let rows = db.save_potentials();
    assert_eq!(rows, vec![PotentialRecord { key: String::from("0,0"), potential: argon() }]);
}

#[test]
fn potentials_are_saved_and_loaded() {
    let mut db = PotentialsDatabase::new(argon());
    db.set_potential(2, 1, Potential::new_lennard_jones(1.0, 2.0, 2.5, 0.25));
    db.set_potential(0, 0, custom());
    db.set_potential(300, 70, Potential::new_lennard_jones(3.0, 4.0, 7.5, 0.5));
    let mut rows = db.save_potentials();
    rows.sort_by(|a, b| a.key.cmp(&b.key));
    let keys: Vec<&str> = rows.iter().map(|row| row.key.as_str()).collect();
    assert_eq!(keys, vec!["0,0", "1,2", "70,300"]);
    assert_eq!(rows[0].potential, custom());
    assert_eq!(rows[1].potential, Potential::new_lennard_jones(1.0, 2.0, 2.5, 0.25));
    let mut loaded = PotentialsDatabase::new(argon());
    assert_eq!(loaded.load_potentials(&rows), Ok(()));
    let mut pairs = loaded.pairs();
    pairs.sort();
    assert_eq!(pairs, vec![(0, 0), (1, 2), (70, 300)]);
    for (id0, id1) in [(0, 0), (1, 2), (2, 1), (70, 300), (300, 70), (1, 1), (9, 9)] {
        assert_eq!(loaded.get_potential(id0, id1), db.get_potential(id0, id1));
    }
}

#[test]
fn later_rows_count() {
    let mut db = PotentialsDatabase::new(argon());
    let rows = vec![
        PotentialRecord { key: String::from("2,1"), potential: custom() },
        PotentialRecord {
            key: String::from("1,2"),
            potential: Potential::new_lennard_jones(1.0, 2.0, 2.5, 0.25),
        },
    ];
    assert_eq!(db.load_potentials(&rows), Ok(()));
    assert_eq!(db.pairs(), vec![(1, 2)]);
    assert_eq!(db.get_potential(2, 1), &Potential::new_lennard_jones(1.0, 2.0, 2.5, 0.25));
}

#[test]
fn unreadable_key_loads_nothing() {
    let mut db = PotentialsDatabase::new(argon());
    db.set_potential(1, 1, custom());
    let rows = vec![
        PotentialRecord {
            key: String::from("1,2"),
            potential: Potential::new_lennard_jones(1.0, 2.0, 2.5, 0.25),
        },
        PotentialRecord { key: String::from("1-2"), potential: custom() },
    ];
    assert_eq!(db.load_potentials(&rows), Err(SaveLoadError::CantRead));
    assert_eq!(db.pairs(), vec![(1, 1)]);
    assert_eq!(db.get_potential(1, 2), &argon());
}
