//! The join of forces with sections on level and pier, and the stress that
//! follows for each matched pair.

use std::collections::HashMap;
use vstd::prelude::*;
use crate::ident::{composite_id, row_id};
use crate::model::{rows, Force, LoadFactors, Pier, Section, StressResult, StressRow, FACTOR_ONE};
use crate::rounding::{lemma_round_div_nearest, round_div, rounded_quotient};

verus! {

broadcast use vstd::std_specs::hash::group_hash_axioms;

/// The section that the join finds for a level and a pier: the last one in
/// the table with that key.
pub open spec fn find_section(sections: Seq<Section>, level: u16, pier: Pier) -> Option<Section>
    decreases sections.len(),
{
    if sections.len() == 0 {
        None
    } else if sections.last().level == level && sections.last().pier == pier {
        Some(sections.last())
    } else {
        find_section(sections.drop_last(), level, pier)
    }
}

/// The row for force `f` acting on section `sec`, the force scaled by
/// `factor` millionths.
///
/// The area is width times depth, rounded to 0.001 m². The scaled force is
/// rounded to 0.01 kN. The stress is the unrounded scaled force over the
/// unrounded area, rounded to 0.01 kN/m², and 0 where the area is 0.
pub open spec fn stress_row(sec: Section, f: Force, factor: u32) -> StressRow {
    let area = sec.w * sec.d;
    let load = f.force * factor;
    StressRow {
        level: f.level,
        pier: f.pier,
        combo: f.combo,
        area: round_div(area, 1000) as nat,
        force: round_div(load, 1_000_000) as nat,
        stress: if area > 0 {
            round_div(load, area) as nat
        } else {
            0
        },
        id: composite_id(f.pier, f.level),
    }
}

/// The join: one row for each force whose level and pier have a section, in
/// the order of the forces. A force without a section leaves no row.
pub open spec fn stress_rows(
    sections: Seq<Section>,
    forces: Seq<Force>,
    factors: LoadFactors,
) -> Seq<StressRow>
    decreases forces.len(),
{
    if forces.len() == 0 {
        Seq::empty()
    } else {
        let before = stress_rows(sections, forces.drop_last(), factors);
        let f = forces.last();
        match find_section(sections, f.level, f.pier) {
            Some(sec) => before.push(stress_row(sec, f, factors.of(f.combo))),
            None => before,
        }
    }
}

/// The number under which the lookup files a level and a pier.
pub open spec fn key_of(level: u16, pier: Pier) -> u32 {
    (level * 5 + pier.ordinal()) as u32
}

/// Whether `table` answers for `level` and `pier` as `find_section` does on
/// `sections`.
pub open spec fn answers(
    table: Map<u32, Section>,
    sections: Seq<Section>,
    level: u16,
    pier: Pier,
) -> bool {
    match find_section(sections, level, pier) {
        Some(sec) => table.contains_key(key_of(level, pier)) && table[key_of(level, pier)] == sec,
        None => !table.contains_key(key_of(level, pier)),
    }
}

/// A section found for a key carries that key.
pub proof fn lemma_found_has_key(sections: Seq<Section>, level: u16, pier: Pier)
    ensures
        find_section(sections, level, pier) matches Some(sec) ==> sec.level == level && sec.pier
            == pier && sections.contains(sec),
    decreases sections.len(),
{
    if sections.len() > 0 {
        if sections.last().level == level && sections.last().pier == pier {
            assert(sections[sections.len() - 1] == sections.last());
        } else {
            lemma_found_has_key(sections.drop_last(), level, pier);
            match find_section(sections.drop_last(), level, pier) {
                Some(sec) => {
                    let i = choose|i: int|
                        0 <= i < sections.drop_last().len() && sections.drop_last()[i] == sec;
                    assert(sections[i] == sec);
                },
                None => {},
            }
        }
    }
}

/// A key that occurs in the table is found.
pub proof fn lemma_present_is_found(sections: Seq<Section>, i: int)
    requires
        0 <= i < sections.len(),
    ensures
        find_section(sections, sections[i].level, sections[i].pier) is Some,
    decreases sections.len(),
{
    if i < sections.len() - 1 {
        let level = sections[i].level;
        let pier = sections[i].pier;
        if !(sections.last().level == level && sections.last().pier == pier) {
            lemma_present_is_found(sections.drop_last(), i);
        }
    }
}

/// The join has at most one row per force, and each row carries the key of a
/// section of the table.
pub proof fn lemma_join_within_forces(
    sections: Seq<Section>,
    forces: Seq<Force>,
    factors: LoadFactors,
)
    ensures
        stress_rows(sections, forces, factors).len() <= forces.len(),
        forall|i: int|
            #![trigger stress_rows(sections, forces, factors)[i]]
            0 <= i < stress_rows(sections, forces, factors).len() ==> find_section(
                sections,
                stress_rows(sections, forces, factors)[i].level,
                stress_rows(sections, forces, factors)[i].pier,
            ) is Some,
    decreases forces.len(),
{
    if forces.len() > 0 {
        lemma_join_within_forces(sections, forces.drop_last(), factors);
    }
}

/// Where every force has a section for its level and pier, the join has one
/// row per force, in the order of the forces.
pub proof fn lemma_join_of_matched(
    sections: Seq<Section>,
    forces: Seq<Force>,
    factors: LoadFactors,
)
    requires
        forall|j: int|
            0 <= j < forces.len() ==> find_section(
                sections,
                (#[trigger] forces[j]).level,
                forces[j].pier,
            ) is Some,
    ensures
        stress_rows(sections, forces, factors).len() == forces.len(),
        forall|i: int|
            #![trigger stress_rows(sections, forces, factors)[i]]
            0 <= i < forces.len() ==> stress_rows(sections, forces, factors)[i] == stress_row(
                find_section(sections, forces[i].level, forces[i].pier).unwrap(),
                forces[i],
                factors.of(forces[i].combo),
            ),
    decreases forces.len(),
{
    if forces.len() > 0 {
        let before = forces.drop_last();
        assert forall|j: int| 0 <= j < before.len() implies find_section(
            sections,
            (#[trigger] before[j]).level,
            before[j].pier,
        ) is Some by {
            assert(before[j] == forces[j]);
        }
        lemma_join_of_matched(sections, before, factors);
        assert(forces.last() == forces[forces.len() - 1]);
        assert forall|i: int|
            #![trigger stress_rows(sections, forces, factors)[i]]
            0 <= i < forces.len() implies stress_rows(sections, forces, factors)[i] == stress_row(
            find_section(sections, forces[i].level, forces[i].pier).unwrap(),
            forces[i],
            factors.of(forces[i].combo),
        ) by {
            if i < forces.len() - 1 {
                assert(before[i] == forces[i]);
                assert(stress_rows(sections, forces, factors)[i] == stress_rows(
                    sections,
                    before,
                    factors,
                )[i]);
            }
        }
    }
}

/// Every row of the join has the level of one of the forces: what holds of
/// the levels of all forces holds of the levels of all rows.
pub proof fn lemma_rows_keep_levels(
    sections: Seq<Section>,
    forces: Seq<Force>,
    factors: LoadFactors,
    holds: spec_fn(u16) -> bool,
)
    requires
        forall|j: int| 0 <= j < forces.len() ==> holds((#[trigger] forces[j]).level),
    ensures
        forall|i: int|
            #![trigger stress_rows(sections, forces, factors)[i]]
            0 <= i < stress_rows(sections, forces, factors).len() ==> holds(
                stress_rows(sections, forces, factors)[i].level,
            ),
    decreases forces.len(),
{
    if forces.len() > 0 {
        let before = forces.drop_last();
        assert forall|j: int| 0 <= j < before.len() implies holds(
            (#[trigger] before[j]).level,
        ) by {
            assert(before[j] == forces[j]);
        }
        lemma_rows_keep_levels(sections, before, factors, holds);
        assert(forces.last() == forces[forces.len() - 1]);
    }
}

/// A factor of one leaves the force of a row as it was.
pub proof fn lemma_unit_factor_keeps_force(sec: Section, f: Force)
    ensures
        stress_row(sec, f, FACTOR_ONE).force == f.force,
{
    let n: int = f.force * 1_000_000;
    lemma_round_div_nearest(n, 1_000_000);
}

/// The number under which the lookup files a level and a pier.
fn join_key(level: u16, pier: Pier) -> (key: u32)
    ensures
        key == key_of(level, pier),
{
    level as u32 * 5 + pier.index() as u32
}

/// Builds the lookup from level and pier to section. Where a key occurs more
/// than once in the table, the last section with it stays.
fn index_sections(sections: &Vec<Section>) -> (table: HashMap<u32, Section>)
    ensures
        forall|level: u16, pier: Pier| #[trigger] answers(table@, sections@, level, pier),
{
    let mut table: HashMap<u32, Section> = HashMap::new();
    let mut i: usize = 0;
    while i < sections.len()
        invariant
            i <= sections.len(),
            forall|level: u16, pier: Pier|
                #[trigger] answers(table@, sections@.take(i as int), level, pier),
        decreases sections.len() - i,
    {
        let sec = sections[i];
        let ghost before = table@;
        table.insert(join_key(sec.level, sec.pier), sec);
        proof {
            let seen = sections@.take(i as int);
            let now = sections@.take(i + 1);
            assert(now.drop_last() =~= seen);
            assert(now.last() == sec);
            assert forall|level: u16, pier: Pier| #[trigger]
                answers(table@, now, level, pier) by {
                assert(answers(before, seen, level, pier));
            }
        }
        i += 1;
    }
    proof {
        assert(sections@.take(sections.len() as int) =~= sections@);
    }
    table
}

/// Computes the row for a force and the section it acts on.
fn make_row(sec: &Section, f: &Force, factor: u32) -> (row: StressResult)
    ensures
        row@ == stress_row(*sec, *f, factor),
{
    assert(sec.w * sec.d <= 0xFFFF_FFFF * 0xFFFF_FFFF) by (nonlinear_arith)
        requires
            0 <= sec.w <= 0xFFFF_FFFF,
            0 <= sec.d <= 0xFFFF_FFFF,
    ;
    assert(f.force * factor <= 0xFFFF_FFFF * 0xFFFF_FFFF) by (nonlinear_arith)
        requires
            0 <= f.force <= 0xFFFF_FFFF,
            0 <= factor <= 0xFFFF_FFFF,
    ;
    let area: u64 = sec.w as u64 * sec.d as u64;
    let load: u64 = f.force as u64 * factor as u64;
    let stress: u64 = if area > 0 {
        rounded_quotient(load, area)
    } else {
        0
    };
    StressResult {
        level: f.level,
        pier: f.pier,
        combo: f.combo,
        area: rounded_quotient(area, 1000),
        force: rounded_quotient(load, 1_000_000),
        stress,
        id: row_id(f.pier, f.level),
    }
}

/// Joins `forces` with `sections` on level and pier, each force scaled by
/// the factor of its combination.
pub fn join_scaled(sections: &Vec<Section>, forces: &Vec<Force>, factors: &LoadFactors) -> (out:
    Vec<StressResult>)
    ensures
        rows(out@) == stress_rows(sections@, forces@, *factors),
{
    let table = index_sections(sections);
    let mut out: Vec<StressResult> = Vec::with_capacity(forces.len());
    let mut j: usize = 0;
    while j < forces.len()
        invariant
            j <= forces.len(),
            forall|level: u16, pier: Pier| #[trigger] answers(table@, sections@, level, pier),
            rows(out@) == stress_rows(sections@, forces@.take(j as int), *factors),
        decreases forces.len() - j,
    {
        let f = forces[j];
        let key = join_key(f.level, f.pier);
        let ghost before = out@;
        proof {
            assert(forces@.take(j + 1).drop_last() =~= forces@.take(j as int));
            assert(forces@.take(j + 1).last() == f);
            assert(answers(table@, sections@, f.level, f.pier));
        }
        match table.get(&key) {
            Some(sec) => {
                let row = make_row(sec, &f, factors.factor_for(f.combo));
                out.push(row);
                proof {
                    assert(rows(out@) =~= rows(before).push(row@));
                }
            },
            None => {},
        }
        j += 1;
    }
    proof {
        assert(forces@.take(forces.len() as int) =~= forces@);
    }
    out
}

/// Joins `forces` with `sections` on level and pier and computes the stress
/// of every matched pair. The result follows the order of `forces`; a force
/// whose level and pier have no section is left out, so the result may be
/// shorter than `forces`. Where several sections share a key, the last wins.
pub fn compute_stress(sections: &Vec<Section>, forces: &Vec<Force>) -> (out: Vec<StressResult>)
    ensures
        rows(out@) == stress_rows(sections@, forces@, LoadFactors::unit()),
        out@.len() <= forces@.len(),
        forall|i: int|
            0 <= i < out@.len() ==> find_section(sections@, out@[i].level, out@[i].pier) is Some,
{
    let unit = LoadFactors { gravity: FACTOR_ONE, wind: FACTOR_ONE, seismic: FACTOR_ONE };
    let out = join_scaled(sections, forces, &unit);
    proof {
        let joined = stress_rows(sections@, forces@, LoadFactors::unit());
        lemma_join_within_forces(sections@, forces@, LoadFactors::unit());
        assert(rows(out@).len() == out@.len());
        assert forall|i: int| 0 <= i < out@.len() implies find_section(
            sections@,
            out@[i].level,
            out@[i].pier,
        ) is Some by {
            assert(rows(out@)[i] == out@[i]@);
            assert(joined[i].level == out@[i].level);
        }
    }
    out
}

} // verus!
