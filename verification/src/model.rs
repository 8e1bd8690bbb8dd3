//! The tables of the engine and the units they are held in.
//!
//! | quantity            | unit of the integer                 |
//! |---------------------|-------------------------------------|
//! | width, depth        | millimetre (0.001 m)                |
//! | area                | 0.001 m²                            |
//! | force               | 0.01 kN                             |
//! | stress              | 0.01 kN/m²                          |
//! | load factor         | one millionth                       |

use vstd::prelude::*;

verus! {

/// One millionth is the unit of a load factor: this is the factor 1.0.
pub const FACTOR_ONE: u32 = 1_000_000;

/// How many piers stand on every level.
pub const PIER_COUNT: usize = 5;

/// How many load combinations act on every pier.
pub const COMBO_COUNT: usize = 3;

/// A structural column, present at every level.
#[derive(Clone, Copy, Debug, PartialEq, Eq, Hash, Structural)]
pub enum Pier {
    P1,
    P2,
    P3,
    P4,
    P5,
}

/// A named load case. Forces of different combinations are never summed.
#[derive(Clone, Copy, Debug, PartialEq, Eq, Hash, Structural)]
pub enum Combo {
    Gravity,
    Wind,
    Seismic,
}

impl Pier {
    /// Position of the pier on a level, from 0.
    pub open spec fn ordinal(self) -> int {
        match self {
            Pier::P1 => 0,
            Pier::P2 => 1,
            Pier::P3 => 2,
            Pier::P4 => 3,
            Pier::P5 => 4,
        }
    }

    /// The pier at position `i`; positions wrap around after the last pier.
    pub open spec fn at(i: int) -> Pier {
        let k = i % 5;
        if k == 0 {
            Pier::P1
        } else if k == 1 {
            Pier::P2
        } else if k == 2 {
            Pier::P3
        } else if k == 3 {
            Pier::P4
        } else {
            Pier::P5
        }
    }

    /// Position of the pier on a level, from 0.
    pub fn index(self) -> (i: usize)
        ensures
            i == self.ordinal(),
            i < PIER_COUNT,
            Pier::at(i as int) == self,
    {
        match self {
            Pier::P1 => 0,
            Pier::P2 => 1,
            Pier::P3 => 2,
            Pier::P4 => 3,
            Pier::P5 => 4,
        }
    }

    /// The pier at position `i`.
    pub fn from_index(i: usize) -> (p: Pier)
        requires
            i < PIER_COUNT,
        ensures
            p == Pier::at(i as int),
            p.ordinal() == i,
    {
        if i == 0 {
            Pier::P1
        } else if i == 1 {
            Pier::P2
        } else if i == 2 {
            Pier::P3
        } else if i == 3 {
            Pier::P4
        } else {
            Pier::P5
        }
    }
}

impl Combo {
    /// Position of the combination under a pier, from 0.
    pub open spec fn ordinal(self) -> int {
        match self {
            Combo::Gravity => 0,
            Combo::Wind => 1,
            Combo::Seismic => 2,
        }
    }

    /// The combination at position `i`; positions wrap around after the last.
    pub open spec fn at(i: int) -> Combo {
        let k = i % 3;
        if k == 0 {
            Combo::Gravity
        } else if k == 1 {
            Combo::Wind
        } else {
            Combo::Seismic
        }
    }

    /// Position of the combination under a pier, from 0.
    pub fn index(self) -> (i: usize)
        ensures
            i == self.ordinal(),
            i < COMBO_COUNT,
            Combo::at(i as int) == self,
    {
        match self {
            Combo::Gravity => 0,
            Combo::Wind => 1,
            Combo::Seismic => 2,
        }
    }

    /// The combination at position `i`.
    pub fn from_index(i: usize) -> (c: Combo)
        requires
            i < COMBO_COUNT,
        ensures
            c == Combo::at(i as int),
            c.ordinal() == i,
    {
        if i == 0 {
            Combo::Gravity
        } else if i == 1 {
            Combo::Wind
        } else {
            Combo::Seismic
        }
    }
}

/// The cross-section of one pier at one level.
#[derive(Clone, Copy, Debug, PartialEq, Eq, Structural)]
pub struct Section {
    pub level: u16,
    pub pier: Pier,
    /// Width in millimetres.
    pub w: u32,
    /// Depth in millimetres.
    pub d: u32,
}

/// The load on one pier at one level under one combination.
#[derive(Clone, Copy, Debug, PartialEq, Eq, Structural)]
pub struct Force {
    pub level: u16,
    pub pier: Pier,
    pub combo: Combo,
    /// Magnitude in hundredths of a kilonewton.
    pub force: u32,
}

/// One row of the join of a force with the section it acts on.
#[derive(Clone, Debug, PartialEq, Eq)]
pub struct StressResult {
    pub level: u16,
    pub pier: Pier,
    pub combo: Combo,
    /// Cross-sectional area in thousandths of a square metre.
    pub area: u64,
    /// The force, after scaling, in hundredths of a kilonewton.
    pub force: u64,
    /// Force over area in hundredths of a kilonewton per square metre.
    pub stress: u64,
    /// Pier and level, as in `P3_17`. Rows that differ only in their
    /// combination share one identifier.
    pub id: String,
}

/// What a `StressResult` holds, as mathematical values.
pub struct StressRow {
    pub level: u16,
    pub pier: Pier,
    pub combo: Combo,
    pub area: nat,
    pub force: nat,
    pub stress: nat,
    pub id: Seq<char>,
}

impl View for StressResult {
    type V = StressRow;

    open spec fn view(&self) -> StressRow {
        StressRow {
            level: self.level,
            pier: self.pier,
            combo: self.combo,
            area: self.area as nat,
            force: self.force as nat,
            stress: self.stress as nat,
            id: self.id@,
        }
    }
}

/// The rows that a vector of results holds.
pub open spec fn rows(results: Seq<StressResult>) -> Seq<StressRow> {
    results.map_values(|r: StressResult| r@)
}

/// One multiplier per load combination, in millionths.
#[derive(Clone, Copy, Debug, PartialEq, Eq, Structural)]
pub struct LoadFactors {
    pub gravity: u32,
    pub wind: u32,
    pub seismic: u32,
}

impl LoadFactors {
    /// The factor that scales forces of combination `combo`.
    pub open spec fn of(self, combo: Combo) -> u32 {
        match combo {
            Combo::Gravity => self.gravity,
            Combo::Wind => self.wind,
            Combo::Seismic => self.seismic,
        }
    }

    /// Factors that leave every force as it is.
    pub open spec fn unit() -> LoadFactors {
        LoadFactors { gravity: FACTOR_ONE, wind: FACTOR_ONE, seismic: FACTOR_ONE }
    }

    /// The factor that scales forces of combination `combo`.
    pub fn factor_for(&self, combo: Combo) -> (f: u32)
        ensures
            f == self.of(combo),
    {
        match combo {
            Combo::Gravity => self.gravity,
            Combo::Wind => self.wind,
            Combo::Seismic => self.seismic,
        }
    }
}

impl Default for LoadFactors {
    fn default() -> (f: LoadFactors)
        ensures
            f == LoadFactors::unit(),
    {
        LoadFactors { gravity: FACTOR_ONE, wind: FACTOR_ONE, seismic: FACTOR_ONE }
    }
}

} // verus!
