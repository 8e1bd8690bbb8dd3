//! The generated dataset, and the recomputation of its stresses under load
//! factors and a range of levels.

use vstd::prelude::*;
use crate::geometry::{
    generate_sections, lemma_section_at_position, level_count, section_at, section_position,
    sections_for,
};
use crate::join::{
    compute_stress, find_section, join_scaled, lemma_found_has_key, lemma_join_of_matched,
    lemma_present_is_found, lemma_rows_keep_levels, stress_row, stress_rows,
};
use crate::loads::{forces_for, generate_forces};
use crate::model::{
    rows, Force, LoadFactors, Pier, Section, StressResult, StressRow, COMBO_COUNT, PIER_COUNT,
};

verus! {

/// The height of the dataset that is built when none is asked for.
pub const DEFAULT_LEVELS: u16 = 100;

/// A request to recompute stresses: load factors and an inclusive range of
/// levels `(lowest, highest)`.
#[derive(Clone, Copy, Debug, PartialEq, Eq)]
pub struct StressParams {
    pub load_factors: LoadFactors,
    pub level_range: (u16, u16),
}

/// The tables generated for one building height.
#[derive(Clone, Debug, PartialEq, Eq)]
pub struct AppData {
    pub sections: Vec<Section>,
    pub forces: Vec<Force>,
    pub stress: Vec<StressResult>,
    /// The number of levels the tables were generated for.
    pub max_level: u16,
}

impl AppData {
    /// Whether the tables are those of a building of `max_level` levels, the
    /// stress table being the join of the other two with every factor 1.
    pub open spec fn built_for(self, max_level: u16) -> bool {
        &&& self.max_level == level_count(max_level)
        &&& self.sections@ == sections_for(max_level)
        &&& self.forces@ == forces_for(max_level)
        &&& rows(self.stress@) == stress_rows(self.sections@, self.forces@, LoadFactors::unit())
    }
}

/// Whether `level` lies in `range`, both ends included.
pub open spec fn within(level: u16, range: (u16, u16)) -> bool {
    range.0 <= level <= range.1
}

/// The sections of a table whose level lies in `range`, in their order.
pub open spec fn sections_within(sections: Seq<Section>, range: (u16, u16)) -> Seq<Section> {
    sections.filter(|s: Section| within(s.level, range))
}

/// The forces of a table whose level lies in `range`, in their order.
pub open spec fn forces_within(forces: Seq<Force>, range: (u16, u16)) -> Seq<Force> {
    forces.filter(|f: Force| within(f.level, range))
}

/// The rows of a recomputation. Where the range ends above the height that
/// the tables were generated for, tables generated for the end of the range
/// take their place. The tables are cut to the range and joined, each force
/// scaled by the factor of its combination.
pub open spec fn recomputed(
    sections: Seq<Section>,
    forces: Seq<Force>,
    generated: u16,
    params: StressParams,
) -> Seq<StressRow> {
    let range = params.level_range;
    if range.1 > generated {
        stress_rows(
            sections_within(sections_for(range.1), range),
            forces_within(forces_for(range.1), range),
            params.load_factors,
        )
    } else {
        stress_rows(
            sections_within(sections, range),
            forces_within(forces, range),
            params.load_factors,
        )
    }
}

/// Cutting a table with one more section.
pub proof fn lemma_sections_within_push(sections: Seq<Section>, sec: Section, range: (u16, u16))
    ensures
        sections_within(sections.push(sec), range) == if within(sec.level, range) {
            sections_within(sections, range).push(sec)
        } else {
            sections_within(sections, range)
        },
{
    reveal(Seq::filter);
    assert(sections.push(sec).drop_last() =~= sections);
}

/// Cutting a table with one more force.
pub proof fn lemma_forces_within_push(forces: Seq<Force>, f: Force, range: (u16, u16))
    ensures
        forces_within(forces.push(f), range) == if within(f.level, range) {
            forces_within(forces, range).push(f)
        } else {
            forces_within(forces, range)
        },
{
    reveal(Seq::filter);
    assert(forces.push(f).drop_last() =~= forces);
}

/// A table whose levels all lie in the range is left whole by the cut.
pub proof fn lemma_sections_within_all(sections: Seq<Section>, range: (u16, u16))
    requires
        forall|i: int| 0 <= i < sections.len() ==> within((#[trigger] sections[i]).level, range),
    ensures
        sections_within(sections, range) == sections,
    decreases sections.len(),
{
    reveal(Seq::filter);
    if sections.len() > 0 {
        let before = sections.drop_last();
        assert forall|i: int| 0 <= i < before.len() implies within(
            (#[trigger] before[i]).level,
            range,
        ) by {
            assert(before[i] == sections[i]);
        }
        lemma_sections_within_all(before, range);
        assert(sections.last() == sections[sections.len() - 1]);
        assert(before.push(sections.last()) =~= sections);
    } else {
        assert(sections_within(sections, range) =~= sections);
    }
}

/// A table whose levels all lie in the range is left whole by the cut.
pub proof fn lemma_forces_within_all(forces: Seq<Force>, range: (u16, u16))
    requires
        forall|i: int| 0 <= i < forces.len() ==> within((#[trigger] forces[i]).level, range),
    ensures
        forces_within(forces, range) == forces,
    decreases forces.len(),
{
    reveal(Seq::filter);
    if forces.len() > 0 {
        let before = forces.drop_last();
        assert forall|i: int| 0 <= i < before.len() implies within(
            (#[trigger] before[i]).level,
            range,
        ) by {
            assert(before[i] == forces[i]);
        }
        lemma_forces_within_all(before, range);
        assert(forces.last() == forces[forces.len() - 1]);
        assert(before.push(forces.last()) =~= forces);
    } else {
        assert(forces_within(forces, range) =~= forces);
    }
}

/// Every row of a recomputation has its level in the requested range.
pub proof fn lemma_recomputed_within_range(
    sections: Seq<Section>,
    forces: Seq<Force>,
    generated: u16,
    params: StressParams,
)
    ensures
        forall|i: int|
            #![trigger recomputed(sections, forces, generated, params)[i]]
            0 <= i < recomputed(sections, forces, generated, params).len() ==> within(
                recomputed(sections, forces, generated, params)[i].level,
                params.level_range,
            ),
{
    let range = params.level_range;
    let used_sections = if range.1 > generated {
        sections_for(range.1)
    } else {
        sections
    };
    let used_forces = if range.1 > generated {
        forces_for(range.1)
    } else {
        forces
    };
    let keep = |f: Force| within(f.level, range);
    let kept = forces_within(used_forces, range);
    assert forall|j: int| 0 <= j < kept.len() implies within((#[trigger] kept[j]).level, range) by {
        used_forces.lemma_filter_pred(keep, j);
    }
    lemma_rows_keep_levels(
        sections_within(used_sections, range),
        kept,
        params.load_factors,
        |level: u16| within(level, range),
    );
}

/// A range whose lowest level is above its highest gives no rows.
pub proof fn lemma_inverted_range_is_empty(
    sections: Seq<Section>,
    forces: Seq<Force>,
    generated: u16,
    params: StressParams,
)
    requires
        params.level_range.0 > params.level_range.1,
    ensures
        recomputed(sections, forces, generated, params) == Seq::<StressRow>::empty(),
{
    lemma_recomputed_within_range(sections, forces, generated, params);
    let out = recomputed(sections, forces, generated, params);
    if out.len() > 0 {
        assert(within(out[0].level, params.level_range));
    }
    assert(out =~= Seq::<StressRow>::empty());
}

/// A recomputation reads the section table, the force table and the height
/// they were generated for, and nothing else of a dataset: datasets that
/// agree in these give the same rows for the same request, whatever their
/// stress tables hold.
pub proof fn lemma_recompute_reads_tables_only(
    first: AppData,
    second: AppData,
    params: StressParams,
)
    requires
        first.sections@ == second.sections@,
        first.forces@ == second.forces@,
        first.max_level == second.max_level,
    ensures
        recomputed(first.sections@, first.forces@, first.max_level, params) == recomputed(
            second.sections@,
            second.forces@,
            second.max_level,
            params,
        ),
{
}

/// In the generated tables the join finds for every level of the building
/// and every pier the section generated for them.
pub proof fn lemma_generated_section_found(max_level: u16, level: u16, pier: Pier)
    requires
        1 <= level <= level_count(max_level),
    ensures
        find_section(sections_for(max_level), level, pier) == Some(
            section_at(level, pier, level_count(max_level)),
        ),
{
    let table = sections_for(max_level);
    lemma_section_at_position(max_level, level, pier);
    lemma_present_is_found(table, section_position(level, pier));
    lemma_found_has_key(table, level, pier);
    let found = find_section(table, level, pier).unwrap();
    let j = choose|j: int| 0 <= j < table.len() && table[j] == found;
    assert(found == table[j]);
    assert(j / 5 + 1 == level);
    assert(Pier::at(j) == pier);
}

/// The join of the generated tables is complete: it has one row for every
/// force, computed from the section generated for the force's level and
/// pier.
pub proof fn lemma_generated_join_complete(max_level: u16, factors: LoadFactors)
    ensures
        stress_rows(sections_for(max_level), forces_for(max_level), factors).len() == forces_for(
            max_level,
        ).len(),
        forall|i: int|
            #![trigger stress_rows(sections_for(max_level), forces_for(max_level), factors)[i]]
            0 <= i < forces_for(max_level).len() ==> stress_rows(
                sections_for(max_level),
                forces_for(max_level),
                factors,
            )[i] == stress_row(
                section_at(
                    forces_for(max_level)[i].level,
                    forces_for(max_level)[i].pier,
                    level_count(max_level),
                ),
                forces_for(max_level)[i],
                factors.of(forces_for(max_level)[i].combo),
            ),
{
    let sections = sections_for(max_level);
    let forces = forces_for(max_level);
    assert forall|j: int| 0 <= j < forces.len() implies find_section(
        sections,
        (#[trigger] forces[j]).level,
        forces[j].pier,
    ) == Some(section_at(forces[j].level, forces[j].pier, level_count(max_level))) by {
        lemma_generated_section_found(max_level, forces[j].level, forces[j].pier);
    }
    lemma_join_of_matched(sections, forces, factors);
}

/// With every factor 1 and the range of all its levels, the recomputation of
/// a generated dataset gives its stress table.
pub proof fn lemma_unit_recompute_is_base(max_level: u16)
    ensures
        recomputed(
            sections_for(max_level),
            forces_for(max_level),
            level_count(max_level),
            (StressParams {
                load_factors: LoadFactors::unit(),
                level_range: (1, level_count(max_level)),
            }),
        ) == stress_rows(sections_for(max_level), forces_for(max_level), LoadFactors::unit()),
{
    let range = (1u16, level_count(max_level));
    lemma_sections_within_all(sections_for(max_level), range);
    lemma_forces_within_all(forces_for(max_level), range);
}

/// Copies the sections whose level lies between `lowest` and `highest`.
fn select_sections(sections: &Vec<Section>, lowest: u16, highest: u16) -> (kept: Vec<Section>)
    ensures
        kept@ == sections_within(sections@, (lowest, highest)),
{
    let mut kept: Vec<Section> = Vec::new();
    let mut i: usize = 0;
    proof {
        reveal(Seq::filter);
        assert(sections@.take(0) =~= Seq::<Section>::empty());
    }
    while i < sections.len()
        invariant
            i <= sections.len(),
            kept@ == sections_within(sections@.take(i as int), (lowest, highest)),
        decreases sections.len() - i,
    {
        let sec = sections[i];
        proof {
            lemma_sections_within_push(sections@.take(i as int), sec, (lowest, highest));
            assert(sections@.take(i as int).push(sec) =~= sections@.take(i + 1));
        }
        if sec.level >= lowest && sec.level <= highest {
            kept.push(sec);
        }
        i += 1;
    }
    proof {
        assert(sections@.take(sections.len() as int) =~= sections@);
    }
    kept
}

/// Copies the forces whose level lies between `lowest` and `highest`.
fn select_forces(forces: &Vec<Force>, lowest: u16, highest: u16) -> (kept: Vec<Force>)
    ensures
        kept@ == forces_within(forces@, (lowest, highest)),
{
    let mut kept: Vec<Force> = Vec::new();
    let mut i: usize = 0;
    proof {
        reveal(Seq::filter);
        assert(forces@.take(0) =~= Seq::<Force>::empty());
    }
    while i < forces.len()
        invariant
            i <= forces.len(),
            kept@ == forces_within(forces@.take(i as int), (lowest, highest)),
        decreases forces.len() - i,
    {
        let f = forces[i];
        proof {
            lemma_forces_within_push(forces@.take(i as int), f, (lowest, highest));
            assert(forces@.take(i as int).push(f) =~= forces@.take(i + 1));
        }
        if f.level >= lowest && f.level <= highest {
            kept.push(f);
        }
        i += 1;
    }
    proof {
        assert(forces@.take(forces.len() as int) =~= forces@);
    }
    kept
}

/// Cuts both tables to a range of levels and joins what is left.
fn join_range(
    sections: &Vec<Section>,
    forces: &Vec<Force>,
    lowest: u16,
    highest: u16,
    factors: &LoadFactors,
) -> (out: Vec<StressResult>)
    ensures
        rows(out@) == stress_rows(
            sections_within(sections@, (lowest, highest)),
            forces_within(forces@, (lowest, highest)),
            *factors,
        ),
{
    let kept_sections = select_sections(sections, lowest, highest);
    let kept_forces = select_forces(forces, lowest, highest);
    join_scaled(&kept_sections, &kept_forces, factors)
}

/// Builds the three tables for a building of `max_level` levels; a request
/// for no level is served as a request for one. The stress table has one row
/// for every force.
pub fn build_app_data_with_levels(max_level: u16) -> (data: AppData)
    ensures
        data.built_for(max_level),
        data.sections@.len() == data.max_level * PIER_COUNT,
        data.forces@.len() == data.max_level * PIER_COUNT * COMBO_COUNT,
        data.stress@.len() == data.forces@.len(),
{
    let top: u16 = if max_level < 1 { 1 } else { max_level };
    let sections = generate_sections(top);
    let forces = generate_forces(top);
    let stress = compute_stress(&sections, &forces);
    proof {
        lemma_generated_join_complete(max_level, LoadFactors::unit());
        assert(rows(stress@).len() == stress@.len());
    }
    AppData { sections, forces, stress, max_level: top }
}

/// Builds the tables for the default height of 100 levels.
pub fn build_app_data() -> (data: AppData)
    ensures
        data.built_for(DEFAULT_LEVELS),
        data.max_level == DEFAULT_LEVELS,
        data.sections@.len() == DEFAULT_LEVELS * PIER_COUNT,
        data.forces@.len() == DEFAULT_LEVELS * PIER_COUNT * COMBO_COUNT,
        data.stress@.len() == data.forces@.len(),
{
    build_app_data_with_levels(DEFAULT_LEVELS)
}

/// Recomputes the stresses of `base` for the levels and load factors of
/// `params`, and leaves `base` as it is.
///
/// Where the range ends above `base.max_level`, tables for that many levels
/// are generated for this call and used in place of those of `base`. Every
/// row has its level in the range, so a range whose lowest level is above its
/// highest gives no rows.
pub fn calculate_with_params(base: &AppData, params: &StressParams) -> (results: Vec<
    StressResult,
>)
    ensures
        rows(results@) == recomputed(base.sections@, base.forces@, base.max_level, *params),
        forall|i: int|
            0 <= i < results@.len() ==> within(
                (#[trigger] results@[i]).level,
                params.level_range,
            ),
        params.level_range.0 > params.level_range.1 ==> results@.len() == 0,
{
    let (lowest, highest) = params.level_range;
    let results = if highest > base.max_level {
        let sections = generate_sections(highest);
        let forces = generate_forces(highest);
        join_range(&sections, &forces, lowest, highest, &params.load_factors)
    } else {
        join_range(&base.sections, &base.forces, lowest, highest, &params.load_factors)
    };
    proof {
        let out = recomputed(base.sections@, base.forces@, base.max_level, *params);
        lemma_recomputed_within_range(base.sections@, base.forces@, base.max_level, *params);
        assert(rows(results@).len() == results@.len());
        assert forall|i: int| 0 <= i < results@.len() implies within(
            (#[trigger] results@[i]).level,
            params.level_range,
        ) by {
            assert(rows(results@)[i] == results@[i]@);
            assert(out[i].level == results@[i].level);
        }
        if lowest > highest {
            lemma_inverted_range_is_empty(
                base.sections@,
                base.forces@,
                base.max_level,
                *params,
            );
        }
    }
    results
}

} // verus!
