//! Pier cross-sections: base dimensions that taper linearly with height.

use vstd::prelude::*;
use crate::model::{Pier, Section, PIER_COUNT};
use crate::rounding::{lemma_round_div_of_part, round_div, Ratio};

verus! {

/// Width of a pier at the base of the building, in millimetres.
pub open spec fn base_width(pier: Pier) -> int {
    match pier {
        Pier::P1 => 1200,
        Pier::P2 => 1000,
        Pier::P3 => 900,
        Pier::P4 => 1100,
        Pier::P5 => 800,
    }
}

/// Depth of a pier at the base of the building, in millimetres.
pub open spec fn base_depth(pier: Pier) -> int {
    match pier {
        Pier::P1 => 600,
        Pier::P2 => 500,
        Pier::P3 => 450,
        Pier::P4 => 550,
        Pier::P5 => 400,
    }
}

/// Numerator of the taper factor `1 - 0.6 * (level - 1) / (max_level - 1)`
/// over the denominator `taper_den(max_level)`. A building of one level or
/// none does not taper.
pub open spec fn taper_num(level: int, max_level: int) -> int {
    if max_level <= 1 {
        1
    } else {
        5 * (max_level - 1) - 3 * (level - 1)
    }
}

/// Denominator of the taper factor.
pub open spec fn taper_den(max_level: int) -> int {
    if max_level <= 1 {
        1
    } else {
        5 * (max_level - 1)
    }
}

/// A base dimension in millimetres, tapered for `level` and rounded to the
/// millimetre.
pub open spec fn tapered(base: int, level: int, max_level: int) -> int {
    round_div(base * taper_num(level, max_level), taper_den(max_level))
}

/// The number of levels generated for a requested height: at least one.
pub open spec fn level_count(max_level: u16) -> u16 {
    if max_level < 1 {
        1
    } else {
        max_level
    }
}

/// The section of `pier` at `level` in a building of `top` levels.
pub open spec fn section_at(level: u16, pier: Pier, top: u16) -> Section {
    Section {
        level,
        pier,
        w: tapered(base_width(pier), level as int, top as int) as u32,
        d: tapered(base_depth(pier), level as int, top as int) as u32,
    }
}

/// The section table of a building: levels from 1 upward, and on each level
/// the piers in their order.
pub open spec fn sections_for(max_level: u16) -> Seq<Section> {
    let top = level_count(max_level);
    Seq::new(
        (top * 5) as nat,
        |i: int| section_at((i / 5 + 1) as u16, Pier::at(i), top),
    )
}

/// The taper factor is 1 at the first level and 0.4 at the top of a building
/// of more than one level, and 1 at every level of a building of one level or
/// none.
pub proof fn lemma_taper_ends(level: int, max_level: int)
    ensures
        max_level > 1 ==> taper_num(1, max_level) == taper_den(max_level),
        max_level > 1 ==> 5 * taper_num(max_level, max_level) == 2 * taper_den(max_level),
        max_level <= 1 ==> taper_num(level, max_level) == taper_den(max_level),
        taper_den(max_level) > 0,
{
}

/// Within the building the taper factor lies between 0.4 and 1.
pub proof fn lemma_taper_in_range(level: int, max_level: int)
    requires
        max_level <= 1 || 1 <= level <= max_level,
    ensures
        taper_den(max_level) > 0,
        2 * taper_den(max_level) <= 5 * taper_num(level, max_level),
        taper_num(level, max_level) <= taper_den(max_level),
{
}

/// A tapered dimension is never larger than the base dimension.
pub proof fn lemma_tapered_bounded(base: int, level: int, max_level: int)
    requires
        base >= 0,
        max_level <= 1 || 1 <= level <= max_level,
    ensures
        0 <= tapered(base, level, max_level) <= base,
{
    lemma_taper_in_range(level, max_level);
    lemma_round_div_of_part(base, taper_num(level, max_level), taper_den(max_level));
}

/// The section table holds one section for every level and pier.
pub proof fn lemma_sections_len(max_level: u16)
    ensures
        sections_for(max_level).len() == level_count(max_level) * 5,
{
}

/// Where the section of `pier` at `level` stands in the table.
pub open spec fn section_position(level: u16, pier: Pier) -> int {
    (level - 1) * 5 + pier.ordinal()
}

/// The section of a pier at a level of the building stands at its position.
pub proof fn lemma_section_at_position(max_level: u16, level: u16, pier: Pier)
    requires
        1 <= level <= level_count(max_level),
    ensures
        0 <= section_position(level, pier) < sections_for(max_level).len(),
        sections_for(max_level)[section_position(level, pier)] == section_at(
            level,
            pier,
            level_count(max_level),
        ),
{
}

/// No two sections of the table share level and pier.
pub proof fn lemma_one_section_per_key(max_level: u16, i: int, j: int)
    requires
        0 <= i < j < sections_for(max_level).len(),
    ensures
        sections_for(max_level)[i].level != sections_for(max_level)[j].level || sections_for(
            max_level,
        )[i].pier != sections_for(max_level)[j].pier,
{
}

/// Two section tables generated for one height are equal.
pub proof fn lemma_generate_sections_repeatable(
    max_level: u16,
    first: Seq<Section>,
    second: Seq<Section>,
)
    requires
        first == sections_for(max_level),
        second == sections_for(max_level),
    ensures
        first == second,
{
}

/// Base width and depth of a pier, in millimetres.
pub fn base_dims(pier: Pier) -> (dims: (u32, u32))
    ensures
        dims.0 == base_width(pier),
        dims.1 == base_depth(pier),
{
    match pier {
        Pier::P1 => (1200, 600),
        Pier::P2 => (1000, 500),
        Pier::P3 => (900, 450),
        Pier::P4 => (1100, 550),
        Pier::P5 => (800, 400),
    }
}

/// The factor by which dimensions shrink at `level`: 1 at the first level,
/// 0.4 at the top, linear in between, and 1 throughout a building of one
/// level or none.
pub fn taper(level: u16, max_level: u16) -> (t: Ratio)
    ensures
        t.num == taper_num(level as int, max_level as int),
        t.den == taper_den(max_level as int),
        t.wf(),
        level == 1 || max_level <= 1 ==> t.num == t.den,
        level == max_level && max_level > 1 ==> 5 * t.num == 2 * t.den,
{
    if max_level <= 1 {
        return Ratio { num: 1, den: 1 };
    }
    let span: i64 = max_level as i64 - 1;
    let rise: i64 = level as i64 - 1;
    Ratio { num: 5 * span - 3 * rise, den: 5 * span }
}

/// Generates the cross-section of every pier at every level from 1 to
/// `max_level`; a request for no level is served as a request for one.
pub fn generate_sections(max_level: u16) -> (sections: Vec<Section>)
    ensures
        sections@ == sections_for(max_level),
        sections@.len() == level_count(max_level) * PIER_COUNT,
{
    let top: u16 = if max_level < 1 { 1 } else { max_level };
    let mut sections: Vec<Section> = Vec::with_capacity(top as usize * PIER_COUNT);
    let mut done: u32 = 0;
    while done < top as u32
        invariant
            top == level_count(max_level),
            done <= top,
            sections@.len() == done * 5,
            forall|i: int|
                0 <= i < sections@.len() ==> sections@[i] == section_at(
                    (i / 5 + 1) as u16,
                    Pier::at(i),
                    top,
                ),
        decreases top - done,
    {
        let level: u16 = (done + 1) as u16;
        let t = taper(level, top);
        let mut p: usize = 0;
        while p < PIER_COUNT
            invariant
                p <= 5,
                done < top,
                level == done + 1,
                t.num == taper_num(level as int, top as int),
                t.den == taper_den(top as int),
                sections@.len() == done * 5 + p,
                forall|i: int|
                    0 <= i < sections@.len() ==> sections@[i] == section_at(
                        (i / 5 + 1) as u16,
                        Pier::at(i),
                        top,
                    ),
            decreases 5 - p,
        {
            let pier = Pier::from_index(p);
            let (w, d) = base_dims(pier);
            proof {
                lemma_taper_in_range(level as int, top as int);
                lemma_tapered_bounded(w as int, level as int, top as int);
                lemma_tapered_bounded(d as int, level as int, top as int);
                assert(0 <= t.num * w <= 5 * 65535 * 1200) by (nonlinear_arith)
                    requires
                        0 <= t.num <= 5 * 65535,
                        0 <= w <= 1200,
                ;
                assert(0 <= t.num * d <= 5 * 65535 * 1200) by (nonlinear_arith)
                    requires
                        0 <= t.num <= 5 * 65535,
                        0 <= d <= 1200,
                ;
                assert(t.num * w == w * t.num) by (nonlinear_arith);
                assert(t.num * d == d * t.num) by (nonlinear_arith);
            }
            let width: u64 = t.times(w).round();
            let depth: u64 = t.times(d).round();
            sections.push(Section { level, pier, w: width as u32, d: depth as u32 });
            p += 1;
        }
        done += 1;
    }
    proof {
        assert(sections@ =~= sections_for(max_level));
    }
    sections
}

} // verus!
