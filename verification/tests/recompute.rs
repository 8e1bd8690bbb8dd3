use pier_stress::dataset::DEFAULT_LEVELS;
use pier_stress::model::FACTOR_ONE;
use pier_stress::{
    build_app_data, build_app_data_with_levels, calculate_with_params, compute_stress,
    generate_forces, generate_sections, AppData, Combo, Force, LoadFactors, Pier, Section,
    StressParams, StressResult,
};

fn params(gravity: u32, wind: u32, seismic: u32, lowest: u16, highest: u16) -> StressParams {
    StressParams {
        load_factors: LoadFactors { gravity, wind, seismic },
        level_range: (lowest, highest),
    }
}

fn row_of(rows: &[StressResult], level: u16, pier: Pier, combo: Combo) -> StressResult {
    rows.iter()
        .find(|r| r.level == level && r.pier == pier && r.combo == combo)
        .unwrap()
        .clone()
}

#[test]
fn default_dataset_has_a_hundred_levels() {
    let data = build_app_data();
    assert_eq!(DEFAULT_LEVELS, 100);
    assert_eq!(data.max_level, 100);
    assert_eq!(data.sections.len(), 500);
    assert_eq!(data.forces.len(), 1500);
    assert_eq!(data.stress.len(), 1500);
    assert_eq!(data, build_app_data_with_levels(100));
}

#[test]
fn dataset_holds_the_generated_tables_and_their_join() {
    for max_level in [1u16, 5, 64] {
        let data = build_app_data_with_levels(max_level);
        assert_eq!(data.max_level, max_level);
        assert_eq!(data.sections, generate_sections(max_level));
        assert_eq!(data.forces, generate_forces(max_level));
        assert_eq!(data.stress, compute_stress(&data.sections, &data.forces));
        assert_eq!(data.sections.len(), max_level as usize * 5);
        assert_eq!(data.forces.len(), max_level as usize * 15);
    }
}

#[test]
fn dataset_for_no_level_has_one_level() {
    let data = build_app_data_with_levels(0);
    assert_eq!(data.max_level, 1);
    assert_eq!(data, build_app_data_with_levels(1));
    assert_eq!(data.stress.len(), 15);
}

#[test]
fn recompute_keeps_only_the_levels_of_the_range() {
    let base = build_app_data();
    let rows = calculate_with_params(&base, &params(1_200_000, 900_000, 1_500_000, 1, 50));
    assert_eq!(rows.len(), 50 * 15);
    assert!(rows.iter().all(|r| 1 <= r.level && r.level <= 50));
    let row = row_of(&rows, 1, Pier::P1, Combo::Gravity);
    assert_eq!((row.area, row.force, row.stress), (720, 600000, 833333));
    let row = row_of(&rows, 50, Pier::P3, Combo::Wind);
    assert_eq!((row.area, row.force, row.stress), (200, 97050, 485181));
    let row = row_of(&rows, 50, Pier::P5, Combo::Seismic);
    assert_eq!((row.area, row.force, row.stress), (158, 315242, 1996185));
    assert_eq!(row.id, "P5_50");
}

#[test]
fn recompute_scales_every_row_by_the_factor_of_its_combination() {
    let base = build_app_data_with_levels(20);
    let rows = calculate_with_params(&base, &params(2_000_000, 500_000, 0, 1, 20));
    assert_eq!(rows.len(), base.stress.len());
    for (row, plain) in rows.iter().zip(base.stress.iter()) {
        assert_eq!((row.level, row.pier, row.combo), (plain.level, plain.pier, plain.combo));
        assert_eq!(row.area, plain.area);
        assert_eq!(row.id, plain.id);
        match row.combo {
            Combo::Gravity => assert_eq!(row.force, 2 * plain.force),
            Combo::Wind => assert_eq!(row.force, (plain.force + 1) / 2),
            Combo::Seismic => assert_eq!((row.force, row.stress), (0, 0)),
        }
    }
}

#[test]
fn recompute_inside_the_range_includes_both_ends() {
    let base = build_app_data_with_levels(30);
    let rows = calculate_with_params(&base, &params(FACTOR_ONE, FACTOR_ONE, FACTOR_ONE, 7, 9));
    assert_eq!(rows.len(), 3 * 15);
    assert_eq!(rows.first().unwrap().level, 7);
    assert_eq!(rows.last().unwrap().level, 9);
    let one = calculate_with_params(&base, &params(FACTOR_ONE, FACTOR_ONE, FACTOR_ONE, 30, 30));
    assert_eq!(one.len(), 15);
    assert!(one.iter().all(|r| r.level == 30));
}

#[test]
fn recompute_beyond_the_dataset_generates_the_taller_building() {
    let base = build_app_data();
    let before = base.clone();
    let rows = calculate_with_params(&base, &params(FACTOR_ONE, 2_500_000, FACTOR_ONE, 1, 150));
    assert_eq!(base, before);
    assert_eq!(rows.len(), 150 * 15);
    assert_eq!(rows.last().unwrap().level, 150);
    assert!(rows.iter().all(|r| 1 <= r.level && r.level <= 150));
    // the rows are those of a building of 150 levels, not of the base
    let row = row_of(&rows, 150, Pier::P1, Combo::Gravity);
    assert_eq!((row.area, row.force, row.stress), (115, 75000, 651042));
    let row = row_of(&rows, 120, Pier::P2, Combo::Wind);
    assert_eq!((row.area, row.force, row.stress), (135, 206140, 1521778));
    let row = row_of(&rows, 100, Pier::P1, Combo::Gravity);
    assert_ne!(row.force, 75000);
    let taller = build_app_data_with_levels(150);
    assert_eq!(
        rows,
        calculate_with_params(&taller, &params(FACTOR_ONE, 2_500_000, FACTOR_ONE, 1, 150))
    );
}

#[test]
fn recompute_beyond_the_dataset_cuts_to_the_range() {
    let base = build_app_data_with_levels(10);
    let rows = calculate_with_params(&base, &params(FACTOR_ONE, FACTOR_ONE, FACTOR_ONE, 11, 12));
    assert_eq!(rows.len(), 2 * 15);
    assert!(rows.iter().all(|r| r.level == 11 || r.level == 12));
    let taller = build_app_data_with_levels(12);
    assert_eq!(rows, taller.stress[150..].to_vec());
}

#[test]
fn recompute_goes_by_the_recorded_height_of_the_dataset() {
    // the tables hold three levels, the record says two
    let mut base = build_app_data_with_levels(3);
    base.max_level = 2;
    let rows = calculate_with_params(&base, &params(FACTOR_ONE, FACTOR_ONE, FACTOR_ONE, 1, 2));
    assert_eq!(rows, build_app_data_with_levels(3).stress[..30].to_vec());
    let rows = calculate_with_params(&base, &params(FACTOR_ONE, FACTOR_ONE, FACTOR_ONE, 1, 3));
    assert_eq!(rows, build_app_data_with_levels(3).stress);
    base.max_level = 9;
    let rows = calculate_with_params(&base, &params(FACTOR_ONE, FACTOR_ONE, FACTOR_ONE, 1, 9));
    assert_eq!(rows, build_app_data_with_levels(3).stress);
}

#[test]
fn inverted_range_gives_no_rows() {
    let base = build_app_data();
    assert!(calculate_with_params(&base, &params(FACTOR_ONE, FACTOR_ONE, FACTOR_ONE, 80, 10))
        .is_empty());
    assert!(calculate_with_params(&base, &params(FACTOR_ONE, FACTOR_ONE, FACTOR_ONE, 200, 150))
        .is_empty());
    assert!(calculate_with_params(&base, &params(FACTOR_ONE, FACTOR_ONE, FACTOR_ONE, 1, 0))
        .is_empty());
}

#[test]
fn range_below_the_first_level_gives_no_rows() {
    let base = build_app_data_with_levels(5);
    assert!(calculate_with_params(&base, &params(FACTOR_ONE, FACTOR_ONE, FACTOR_ONE, 0, 0))
        .is_empty());
}

#[test]
fn recompute_leaves_the_dataset_as_it_is() {
    let base = build_app_data_with_levels(40);
    let before = base.clone();
    let first = calculate_with_params(&base, &params(1_350_000, 1_500_000, FACTOR_ONE, 5, 25));
    assert_eq!(base, before);
    let second = calculate_with_params(&base, &params(333_333, 2_500_000, 100_000, 1, 60));
    assert_eq!(base, before);
    let fresh = build_app_data_with_levels(40);
    assert_eq!(
        second,
        calculate_with_params(&fresh, &params(333_333, 2_500_000, 100_000, 1, 60))
    );
    assert_eq!(
        first,
        calculate_with_params(&base, &params(1_350_000, 1_500_000, FACTOR_ONE, 5, 25))
    );
}

#[test]
fn recompute_does_not_read_the_stress_table() {
    let base = build_app_data_with_levels(8);
    let mut emptied = base.clone();
    emptied.stress.clear();
    let request = params(1_100_000, 900_000, 1_300_000, 2, 6);
    assert_eq!(calculate_with_params(&base, &request), calculate_with_params(&emptied, &request));
}

#[test]
fn unit_factors_over_all_levels_give_the_stress_table() {
    for max_level in [1u16, 9, 100] {
        let base = build_app_data_with_levels(max_level);
        let request = StressParams { load_factors: LoadFactors::default(), level_range: (1, max_level) };
        assert_eq!(calculate_with_params(&base, &request), base.stress);
    }
}

#[test]
fn recompute_joins_the_tables_it_is_given() {
    let base = AppData {
        sections: vec![
            Section { level: 2, pier: Pier::P1, w: 1000, d: 1000 },
            Section { level: 4, pier: Pier::P1, w: 1000, d: 1000 },
        ],
        forces: vec![
            Force { level: 4, pier: Pier::P1, combo: Combo::Wind, force: 400 },
            Force { level: 3, pier: Pier::P1, combo: Combo::Wind, force: 300 },
            Force { level: 2, pier: Pier::P1, combo: Combo::Wind, force: 200 },
        ],
        stress: Vec::new(),
        max_level: 4,
    };
    let rows = calculate_with_params(&base, &params(FACTOR_ONE, 1_500_000, FACTOR_ONE, 1, 4));
    assert_eq!(rows.iter().map(|r| (r.level, r.force)).collect::<Vec<_>>(), vec![(4, 600), (2, 300)]);
    let rows = calculate_with_params(&base, &params(FACTOR_ONE, 1_500_000, FACTOR_ONE, 1, 3));
    assert_eq!(rows.iter().map(|r| (r.level, r.force)).collect::<Vec<_>>(), vec![(2, 300)]);
}
