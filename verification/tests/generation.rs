use pier_stress::geometry::{base_dims, generate_sections, taper};
use pier_stress::loads::{base_force, force_at_level, generate_forces};
use pier_stress::model::{Combo, Force, Pier, Section};
use pier_stress::rounding::Ratio;

fn section_of(table: &[Section], level: u16, pier: Pier) -> Section {
    *table
        .iter()
        .find(|s| s.level == level && s.pier == pier)
        .unwrap()
}

fn force_of(table: &[Force], level: u16, pier: Pier, combo: Combo) -> Force {
    *table
        .iter()
        .find(|f| f.level == level && f.pier == pier && f.combo == combo)
        .unwrap()
}

#[test]
fn section_table_has_one_row_per_level_and_pier() {
    for max_level in [1u16, 2, 7, 100, 150, 1000] {
        assert_eq!(generate_sections(max_level).len(), max_level as usize * 5);
    }
}

#[test]
fn force_table_has_one_row_per_level_pier_and_combination() {
    for max_level in [1u16, 2, 7, 100, 150, 1000] {
        assert_eq!(generate_forces(max_level).len(), max_level as usize * 5 * 3);
    }
}

#[test]
fn tallest_building_fills_both_tables() {
    let sections = generate_sections(u16::MAX);
    let forces = generate_forces(u16::MAX);
    assert_eq!(sections.len(), 65535 * 5);
    assert_eq!(forces.len(), 65535 * 15);
    assert_eq!(sections[sections.len() - 5], Section { level: 65535, pier: Pier::P1, w: 480, d: 240 });
    assert_eq!(section_of(&sections[163835..163840], 32768, Pier::P5).w, 560);
    assert_eq!(
        forces[forces.len() - 3],
        Force { level: 65535, pier: Pier::P5, combo: Combo::Gravity, force: 51000 }
    );
}

#[test]
fn request_for_no_level_is_served_as_one_level() {
    assert_eq!(generate_sections(0), generate_sections(1));
    assert_eq!(generate_forces(0), generate_forces(1));
    assert_eq!(generate_sections(0).len(), 5);
    assert_eq!(generate_forces(0).len(), 15);
}

#[test]
fn single_level_keeps_base_values() {
    let sections = generate_sections(1);
    assert_eq!(
        sections,
        vec![
            Section { level: 1, pier: Pier::P1, w: 1200, d: 600 },
            Section { level: 1, pier: Pier::P2, w: 1000, d: 500 },
            Section { level: 1, pier: Pier::P3, w: 900, d: 450 },
            Section { level: 1, pier: Pier::P4, w: 1100, d: 550 },
            Section { level: 1, pier: Pier::P5, w: 800, d: 400 },
        ]
    );
    let forces = generate_forces(1);
    assert_eq!(force_of(&forces, 1, Pier::P3, Combo::Wind).force, 165000);
    assert_eq!(force_of(&forces, 1, Pier::P1, Combo::Gravity).force, 500000);
    assert_eq!(force_of(&forces, 1, Pier::P5, Combo::Seismic).force, 210800);
}

#[test]
fn tables_are_ordered_by_level_then_pier_then_combination() {
    let piers = [Pier::P1, Pier::P2, Pier::P3, Pier::P4, Pier::P5];
    let combos = [Combo::Gravity, Combo::Wind, Combo::Seismic];
    let sections = generate_sections(4);
    let forces = generate_forces(4);
    for (i, s) in sections.iter().enumerate() {
        assert_eq!(s.level as usize, i / 5 + 1);
        assert_eq!(s.pier, piers[i % 5]);
    }
    for (i, f) in forces.iter().enumerate() {
        assert_eq!(f.level as usize, i / 15 + 1);
        assert_eq!(f.pier, piers[(i / 3) % 5]);
        assert_eq!(f.combo, combos[i % 3]);
    }
}

#[test]
fn generated_keys_are_unique() {
    let sections = generate_sections(20);
    for (i, a) in sections.iter().enumerate() {
        for b in sections.iter().skip(i + 1) {
            assert!(a.level != b.level || a.pier != b.pier);
        }
    }
    let forces = generate_forces(20);
    for (i, a) in forces.iter().enumerate() {
        for b in forces.iter().skip(i + 1) {
            assert!(a.level != b.level || a.pier != b.pier || a.combo != b.combo);
        }
    }
}

#[test]
fn generating_twice_gives_equal_tables() {
    for max_level in [0u16, 1, 2, 9, 100, 333] {
        assert_eq!(generate_sections(max_level), generate_sections(max_level));
        assert_eq!(generate_forces(max_level), generate_forces(max_level));
    }
}

#[test]
fn taper_is_one_at_the_first_level() {
    for max_level in [2u16, 3, 100, 65535] {
        let t = taper(1, max_level);
        assert_eq!(t.num, t.den);
        assert!(t.den > 0);
    }
}

#[test]
fn taper_is_two_fifths_at_the_top() {
    for max_level in [2u16, 3, 100, 65535] {
        let t = taper(max_level, max_level);
        assert_eq!(5 * t.num, 2 * t.den);
        assert_eq!(t.num as f64 / t.den as f64, 0.4);
    }
}

#[test]
fn taper_is_one_in_a_building_of_one_level() {
    for level in [0u16, 1, 2, 77, 65535] {
        assert_eq!(taper(level, 1), Ratio { num: 1, den: 1 });
        assert_eq!(taper(level, 0), Ratio { num: 1, den: 1 });
    }
}

#[test]
fn taper_is_linear_in_between() {
    assert_eq!(taper(50, 100), Ratio { num: 5 * 99 - 3 * 49, den: 5 * 99 });
    assert_eq!(taper(2, 3), Ratio { num: 7, den: 10 });
    assert_eq!(taper(0, 3), Ratio { num: 13, den: 10 });
    assert_eq!(taper(6, 2), Ratio { num: -10, den: 5 });
}

#[test]
fn base_dims_follow_the_table() {
    assert_eq!(base_dims(Pier::P1), (1200, 600));
    assert_eq!(base_dims(Pier::P2), (1000, 500));
    assert_eq!(base_dims(Pier::P3), (900, 450));
    assert_eq!(base_dims(Pier::P4), (1100, 550));
    assert_eq!(base_dims(Pier::P5), (800, 400));
}

#[test]
fn base_force_is_pier_share_times_combination_load() {
    assert_eq!(base_force(Pier::P1, Combo::Gravity), 500000);
    assert_eq!(base_force(Pier::P2, Combo::Gravity), 425000);
    assert_eq!(base_force(Pier::P3, Combo::Wind), 165000);
    assert_eq!(base_force(Pier::P4, Combo::Wind), 202400);
    assert_eq!(base_force(Pier::P4, Combo::Seismic), 285200);
    assert_eq!(base_force(Pier::P5, Combo::Seismic), 210800);
}

#[test]
fn force_at_level_follows_each_curve() {
    // gravity: 1 - 0.85 h, with h = 1/4
    assert_eq!(
        force_at_level(1000, 2, 5, Combo::Gravity),
        Ratio { num: 1000 * (20 * 4 - 17), den: 20 * 4 }
    );
    // wind: 0.3 + 0.7 (1 - h), with h = 1/4
    assert_eq!(
        force_at_level(1000, 2, 5, Combo::Wind),
        Ratio { num: 1000 * (10 * 4 - 7), den: 10 * 4 }
    );
    // seismic: 1 - 0.6 |h - 1/2|, below and above mid-height
    assert_eq!(
        force_at_level(1000, 2, 5, Combo::Seismic),
        Ratio { num: 1000 * (10 * 4 - 3 * 2), den: 10 * 4 }
    );
    assert_eq!(
        force_at_level(1000, 5, 5, Combo::Seismic),
        Ratio { num: 1000 * (10 * 4 - 3 * 4), den: 10 * 4 }
    );
    assert_eq!(force_at_level(1000, 3, 5, Combo::Seismic), Ratio { num: 40000, den: 40 });
}

#[test]
fn force_at_level_keeps_the_base_in_a_building_of_one_level() {
    for combo in [Combo::Gravity, Combo::Wind, Combo::Seismic] {
        assert_eq!(force_at_level(4321, 1, 1, combo), Ratio { num: 4321, den: 1 });
        assert_eq!(force_at_level(4321, 9, 0, combo), Ratio { num: 4321, den: 1 });
    }
}

#[test]
fn force_at_level_holds_the_largest_base() {
    let f = force_at_level(u32::MAX, 0, 65535, Combo::Gravity);
    assert_eq!(f.num, u32::MAX as i64 * (20 * 65534 + 17));
    assert_eq!(f.den, 20 * 65534);
}

#[test]
fn sections_of_a_hundred_levels_taper_to_two_fifths() {
    let sections = generate_sections(100);
    let base = section_of(&sections, 1, Pier::P1);
    assert_eq!((base.w, base.d), (1200, 600));
    assert_eq!(base.w as f64 / 1000.0, 1.2);
    assert_eq!(base.d as f64 / 1000.0, 0.6);
    let top = section_of(&sections, 100, Pier::P1);
    assert_eq!((top.w, top.d), (480, 240));
    assert_eq!(top.w as f64 / 1000.0, 0.48);
    assert_eq!(top.d as f64 / 1000.0, 0.24);
    let mid = section_of(&sections, 50, Pier::P3);
    assert_eq!((mid.w, mid.d), (633, 316));
    let last = section_of(&sections, 100, Pier::P5);
    assert_eq!((last.w, last.d), (320, 160));
}

#[test]
fn sections_of_other_heights() {
    let s = section_of(&generate_sections(2), 2, Pier::P4);
    assert_eq!((s.w, s.d), (440, 220));
    let s = section_of(&generate_sections(150), 120, Pier::P2);
    assert_eq!((s.w, s.d), (521, 260));
    let s = section_of(&generate_sections(150), 150, Pier::P1);
    assert_eq!((s.w, s.d), (480, 240));
}

#[test]
fn gravity_force_keeps_fifteen_percent_at_the_roof() {
    let forces = generate_forces(100);
    let base = force_of(&forces, 1, Pier::P1, Combo::Gravity);
    assert_eq!(base.force, 500000);
    assert_eq!(base.force as f64 / 100.0, 5000.00);
    let roof = force_of(&forces, 100, Pier::P1, Combo::Gravity);
    assert_eq!(roof.force, 75000);
    assert_eq!(roof.force as f64 / 100.0, 750.00);
    assert_eq!(force_of(&generate_forces(150), 150, Pier::P4, Combo::Gravity).force, 69000);
}

#[test]
fn wind_force_keeps_thirty_percent_at_the_roof() {
    let forces = generate_forces(100);
    assert_eq!(force_of(&forces, 1, Pier::P2, Combo::Wind).force, 187000);
    assert_eq!(force_of(&forces, 100, Pier::P2, Combo::Wind).force, 56100);
    assert_eq!(force_of(&forces, 34, Pier::P3, Combo::Wind).force, 126500);
}

#[test]
fn seismic_force_peaks_at_mid_height() {
    let forces = generate_forces(100);
    assert_eq!(force_of(&forces, 1, Pier::P5, Combo::Seismic).force, 147560);
    assert_eq!(force_of(&forces, 50, Pier::P5, Combo::Seismic).force, 210161);
    assert_eq!(force_of(&forces, 51, Pier::P5, Combo::Seismic).force, 210161);
    assert_eq!(force_of(&forces, 100, Pier::P5, Combo::Seismic).force, 147560);
    assert_eq!(force_of(&generate_forces(150), 76, Pier::P1, Combo::Seismic).force, 309376);
    // an odd number of levels has a level exactly at mid-height
    assert_eq!(force_of(&generate_forces(5), 3, Pier::P1, Combo::Seismic).force, 310000);
}

#[test]
fn forces_never_exceed_their_base_and_dimensions_never_grow() {
    for max_level in [1u16, 2, 3, 10, 100] {
        for f in generate_forces(max_level) {
            assert!(f.force <= base_force(f.pier, f.combo));
            assert!(f.force > 0);
        }
        for s in generate_sections(max_level) {
            let (w, d) = base_dims(s.pier);
            assert!(s.w <= w && s.d <= d);
            assert!(5 * s.w + 2 >= 2 * w && 5 * s.d + 2 >= 2 * d);
        }
    }
}

#[test]
fn a_value_half_way_between_two_steps_goes_up() {
    // 1870.00 kN * (1 - 0.7 / 8) = 1706.375 kN
    let forces = generate_forces(9);
    assert_eq!(force_of(&forces, 2, Pier::P2, Combo::Wind).force, 170638);
    // 0.6 m * (1 - 0.6 * 13 / 16) = 0.3075 m
    let sections = generate_sections(17);
    let s = section_of(&sections, 14, Pier::P1);
    assert_eq!((s.w, s.d), (615, 308));
}
