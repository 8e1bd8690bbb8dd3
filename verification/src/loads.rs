//! Forces on the piers: a base magnitude per pier and combination, spread
//! over the height of the building by a curve that depends on the combination.

use vstd::prelude::*;
use crate::model::{Combo, Force, Pier, COMBO_COUNT, PIER_COUNT};
use crate::geometry::level_count;
use crate::rounding::{lemma_round_div_of_part, round_div, Ratio};

verus! {

/// The share of a combination's load that a pier carries, in hundredths.
pub open spec fn pier_share(pier: Pier) -> int {
    match pier {
        Pier::P1 => 100,
        Pier::P2 => 85,
        Pier::P3 => 75,
        Pier::P4 => 92,
        Pier::P5 => 68,
    }
}

/// The load of a combination in kilonewtons.
pub open spec fn combo_load(combo: Combo) -> int {
    match combo {
        Combo::Gravity => 5000,
        Combo::Wind => 2200,
        Combo::Seismic => 3100,
    }
}

/// The base magnitude for a pier under a combination, in hundredths of a
/// kilonewton.
pub open spec fn base_load(pier: Pier, combo: Combo) -> int {
    pier_share(pier) * combo_load(combo)
}

/// Numerator of the height curve of `combo` at `level`, over the denominator
/// `curve_den(combo, max_level)`. With `h = (level - 1) / (max_level - 1)`:
///
/// * gravity: `1 - 0.85 * h`;
/// * wind: `0.3 + 0.7 * (1 - h)`;
/// * seismic: `1 - 0.6 * |h - 0.5|`.
///
/// A building of one level or none carries the base magnitude.
pub open spec fn curve_num(combo: Combo, level: int, max_level: int) -> int {
    let span = max_level - 1;
    let rise = level - 1;
    if max_level <= 1 {
        1
    } else {
        match combo {
            Combo::Gravity => 20 * span - 17 * rise,
            Combo::Wind => 10 * span - 7 * rise,
            Combo::Seismic => if 2 * rise >= span {
                10 * span - 3 * (2 * rise - span)
            } else {
                10 * span - 3 * (span - 2 * rise)
            },
        }
    }
}

/// Denominator of the height curve of `combo`.
pub open spec fn curve_den(combo: Combo, max_level: int) -> int {
    if max_level <= 1 {
        1
    } else {
        match combo {
            Combo::Gravity => 20 * (max_level - 1),
            Combo::Wind => 10 * (max_level - 1),
            Combo::Seismic => 10 * (max_level - 1),
        }
    }
}

/// The magnitude `base` spread to `level` and rounded to the hundredth of a
/// kilonewton.
pub open spec fn spread(base: int, combo: Combo, level: int, max_level: int) -> int {
    round_div(base * curve_num(combo, level, max_level), curve_den(combo, max_level))
}

/// The force on `pier` at `level` under `combo` in a building of `top`
/// levels.
pub open spec fn force_entry(level: u16, pier: Pier, combo: Combo, top: u16) -> Force {
    Force {
        level,
        pier,
        combo,
        force: spread(base_load(pier, combo), combo, level as int, top as int) as u32,
    }
}

/// The force table of a building: levels from 1 upward, on each level the
/// piers in their order, and for each pier the combinations in theirs.
pub open spec fn forces_for(max_level: u16) -> Seq<Force> {
    let top = level_count(max_level);
    Seq::new(
        (top * 15) as nat,
        |i: int| force_entry((i / 15 + 1) as u16, Pier::at(i / 3), Combo::at(i), top),
    )
}

/// Within the building every height curve lies between 0 and 1.
pub proof fn lemma_curve_in_range(combo: Combo, level: int, max_level: int)
    requires
        max_level <= 1 || 1 <= level <= max_level,
    ensures
        curve_den(combo, max_level) > 0,
        0 < curve_num(combo, level, max_level) <= curve_den(combo, max_level),
{
}

/// A force in the building is never larger than its base magnitude.
pub proof fn lemma_spread_bounded(base: int, combo: Combo, level: int, max_level: int)
    requires
        base >= 0,
        max_level <= 1 || 1 <= level <= max_level,
    ensures
        0 <= spread(base, combo, level, max_level) <= base,
{
    lemma_curve_in_range(combo, level, max_level);
    lemma_round_div_of_part(
        base,
        curve_num(combo, level, max_level),
        curve_den(combo, max_level),
    );
}

/// The force table holds one force for every level, pier and combination.
pub proof fn lemma_forces_len(max_level: u16)
    ensures
        forces_for(max_level).len() == level_count(max_level) * 5 * 3,
{
}

/// No two forces of the table share level, pier and combination.
pub proof fn lemma_one_force_per_key(max_level: u16, i: int, j: int)
    requires
        0 <= i < j < forces_for(max_level).len(),
    ensures
        forces_for(max_level)[i].level != forces_for(max_level)[j].level || forces_for(
            max_level,
        )[i].pier != forces_for(max_level)[j].pier || forces_for(max_level)[i].combo
            != forces_for(max_level)[j].combo,
{
}

/// Two force tables generated for one height are equal.
pub proof fn lemma_generate_forces_repeatable(
    max_level: u16,
    first: Seq<Force>,
    second: Seq<Force>,
)
    requires
        first == forces_for(max_level),
        second == forces_for(max_level),
    ensures
        first == second,
{
}

/// The base magnitude for a pier under a combination, in hundredths of a
/// kilonewton.
pub fn base_force(pier: Pier, combo: Combo) -> (base: u32)
    ensures
        base == base_load(pier, combo),
        base <= 500_000,
{
    let pier_factor: u32 = match pier {
        Pier::P1 => 100,
        Pier::P2 => 85,
        Pier::P3 => 75,
        Pier::P4 => 92,
        Pier::P5 => 68,
    };
    let combo_factor: u32 = match combo {
        Combo::Gravity => 5000,
        Combo::Wind => 2200,
        Combo::Seismic => 3100,
    };
    assert(pier_factor * combo_factor <= 500_000) by (nonlinear_arith)
        requires
            pier_factor <= 100,
            combo_factor <= 5000,
    ;
    pier_factor * combo_factor
}

/// The force at `level`, before rounding: `base` times the height curve of
/// `combo`.
pub fn force_at_level(base: u32, level: u16, max_level: u16, combo: Combo) -> (f: Ratio)
    ensures
        f.num == base * curve_num(combo, level as int, max_level as int),
        f.den == curve_den(combo, max_level as int),
        f.wf(),
{
    if max_level <= 1 {
        return Ratio { num: base as i64, den: 1 };
    }
    let span: i64 = max_level as i64 - 1;
    let rise: i64 = level as i64 - 1;
    let curve = match combo {
        Combo::Gravity => Ratio { num: 20 * span - 17 * rise, den: 20 * span },
        Combo::Wind => Ratio { num: 10 * span - 7 * rise, den: 10 * span },
        Combo::Seismic => {
            let dist: i64 = if 2 * rise >= span {
                2 * rise - span
            } else {
                span - 2 * rise
            };
            Ratio { num: 10 * span - 3 * dist, den: 10 * span }
        },
    };
    proof {
        assert(-3_000_000 * 0x1_0000_0000 <= curve.num * base <= 3_000_000 * 0x1_0000_0000)
            by (nonlinear_arith)
            requires
                -3_000_000 <= curve.num <= 3_000_000,
                0 <= base < 0x1_0000_0000,
        ;
        assert(curve.num * base == base * curve.num) by (nonlinear_arith);
    }
    curve.times(base)
}

/// Generates the force on every pier at every level from 1 to `max_level`
/// under every combination; a request for no level is served as a request
/// for one.
pub fn generate_forces(max_level: u16) -> (forces: Vec<Force>)
    ensures
        forces@ == forces_for(max_level),
        forces@.len() == level_count(max_level) * PIER_COUNT * COMBO_COUNT,
{
    let top: u16 = if max_level < 1 { 1 } else { max_level };
    let mut forces: Vec<Force> = Vec::with_capacity(top as usize * PIER_COUNT * COMBO_COUNT);
    let mut done: u32 = 0;
    while done < top as u32
        invariant
            top == level_count(max_level),
            done <= top,
            forces@.len() == done * 15,
            forall|i: int|
                0 <= i < forces@.len() ==> forces@[i] == force_entry(
                    (i / 15 + 1) as u16,
                    Pier::at(i / 3),
                    Combo::at(i),
                    top,
                ),
        decreases top - done,
    {
        let level: u16 = (done + 1) as u16;
        let mut p: usize = 0;
        while p < PIER_COUNT
            invariant
                p <= 5,
                done < top,
                level == done + 1,
                forces@.len() == done * 15 + p * 3,
                forall|i: int|
                    0 <= i < forces@.len() ==> forces@[i] == force_entry(
                        (i / 15 + 1) as u16,
                        Pier::at(i / 3),
                        Combo::at(i),
                        top,
                    ),
            decreases 5 - p,
        {
            let pier = Pier::from_index(p);
            let mut c: usize = 0;
            while c < COMBO_COUNT
                invariant
                    c <= 3,
                    p < 5,
                    done < top,
                    level == done + 1,
                    pier == Pier::at(p as int),
                    forces@.len() == done * 15 + p * 3 + c,
                    forall|i: int|
                        0 <= i < forces@.len() ==> forces@[i] == force_entry(
                            (i / 15 + 1) as u16,
                            Pier::at(i / 3),
                            Combo::at(i),
                            top,
                        ),
                decreases 3 - c,
            {
                let combo = Combo::from_index(c);
                let base = base_force(pier, combo);
                let f = force_at_level(base, level, top, combo);
                proof {
                    lemma_curve_in_range(combo, level as int, top as int);
                    lemma_spread_bounded(base as int, combo, level as int, top as int);
                    assert(base * curve_num(combo, level as int, top as int) >= 0)
                        by (nonlinear_arith)
                        requires
                            base >= 0,
                            curve_num(combo, level as int, top as int) > 0,
                    ;
                    let i = forces@.len() as int;
                    assert(i / 15 == done);
                    assert((i / 3) % 5 == p);
                    assert(i % 3 == c);
                }
                let magnitude: u64 = f.round();
                forces.push(Force { level, pier, combo, force: magnitude as u32 });
                c += 1;
            }
            p += 1;
        }
        done += 1;
    }
    proof {
        assert(forces@ =~= forces_for(max_level));
    }
    forces
}

} // verus!
