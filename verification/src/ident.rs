//! Names of piers and combinations, and the identifier of a result row.

use vstd::prelude::*;
use crate::model::{Combo, Pier};

verus! {

/// The name of a pier.
pub open spec fn pier_name(pier: Pier) -> Seq<char> {
    match pier {
        Pier::P1 => seq!['P', '1'],
        Pier::P2 => seq!['P', '2'],
        Pier::P3 => seq!['P', '3'],
        Pier::P4 => seq!['P', '4'],
        Pier::P5 => seq!['P', '5'],
    }
}

/// The name of a load combination.
pub open spec fn combo_name(combo: Combo) -> Seq<char> {
    match combo {
        Combo::Gravity => seq!['G', 'r', 'a', 'v', 'i', 't', 'y'],
        Combo::Wind => seq!['W', 'i', 'n', 'd'],
        Combo::Seismic => seq!['S', 'e', 'i', 's', 'm', 'i', 'c'],
    }
}

/// The character of a decimal digit.
pub open spec fn digit(d: int) -> char {
    if d == 0 {
        '0'
    } else if d == 1 {
        '1'
    } else if d == 2 {
        '2'
    } else if d == 3 {
        '3'
    } else if d == 4 {
        '4'
    } else if d == 5 {
        '5'
    } else if d == 6 {
        '6'
    } else if d == 7 {
        '7'
    } else if d == 8 {
        '8'
    } else {
        '9'
    }
}

/// A number written in base ten, without leading zeros.
pub open spec fn decimal(n: nat) -> Seq<char>
    decreases n,
{
    if n < 10 {
        seq![digit(n as int)]
    } else {
        decimal(n / 10).push(digit((n % 10) as int))
    }
}

/// The identifier of the rows of one pier at one level: the pier's name, an
/// underscore, and the level in base ten.
pub open spec fn composite_id(pier: Pier, level: u16) -> Seq<char> {
    pier_name(pier) + seq!['_'] + decimal(level as nat)
}

/// Whether two texts hold the same characters.
fn same_text(a: &str, b: &str) -> (same: bool)
    ensures
        same == (a@ == b@),
{
    let n: usize = a.unicode_len();
    if n != b.unicode_len() {
        return false;
    }
    let mut i: usize = 0;
    while i < n
        invariant
            i <= n,
            n == a@.len(),
            n == b@.len(),
            forall|k: int| 0 <= k < i ==> a@[k] == b@[k],
        decreases n - i,
    {
        if a.get_char(i) != b.get_char(i) {
            return false;
        }
        i += 1;
    }
    assert(a@ =~= b@);
    true
}

impl Pier {
    /// The pier of that name, if there is one.
    pub fn from_name(name: &str) -> (found: Option<Pier>)
        ensures
            match found {
                Some(pier) => name@ == pier_name(pier),
                None => forall|pier: Pier| name@ != pier_name(pier),
            },
    {
        proof {
            reveal_strlit("P1");
            reveal_strlit("P2");
            reveal_strlit("P3");
            reveal_strlit("P4");
            reveal_strlit("P5");
            assert("P1"@ =~= pier_name(Pier::P1));
            assert("P2"@ =~= pier_name(Pier::P2));
            assert("P3"@ =~= pier_name(Pier::P3));
            assert("P4"@ =~= pier_name(Pier::P4));
            assert("P5"@ =~= pier_name(Pier::P5));
        }
        if same_text(name, "P1") {
            Some(Pier::P1)
        } else if same_text(name, "P2") {
            Some(Pier::P2)
        } else if same_text(name, "P3") {
            Some(Pier::P3)
        } else if same_text(name, "P4") {
            Some(Pier::P4)
        } else if same_text(name, "P5") {
            Some(Pier::P5)
        } else {
            None
        }
    }

    /// The name of the pier: `P1` to `P5`.
    pub fn name(self) -> (s: String)
        ensures
            s@ == pier_name(self),
    {
        proof {
            reveal_strlit("P1");
            reveal_strlit("P2");
            reveal_strlit("P3");
            reveal_strlit("P4");
            reveal_strlit("P5");
        }
        let text = match self {
            Pier::P1 => "P1",
            Pier::P2 => "P2",
            Pier::P3 => "P3",
            Pier::P4 => "P4",
            Pier::P5 => "P5",
        };
        assert(text@ =~= pier_name(self));
        String::from_str(text)
    }
}

impl Combo {
    /// The combination of that name, if there is one.
    pub fn from_name(name: &str) -> (found: Option<Combo>)
        ensures
            match found {
                Some(combo) => name@ == combo_name(combo),
                None => forall|combo: Combo| name@ != combo_name(combo),
            },
    {
        proof {
            reveal_strlit("Gravity");
            reveal_strlit("Wind");
            reveal_strlit("Seismic");
            assert("Gravity"@ =~= combo_name(Combo::Gravity));
            assert("Wind"@ =~= combo_name(Combo::Wind));
            assert("Seismic"@ =~= combo_name(Combo::Seismic));
        }
        if same_text(name, "Gravity") {
            Some(Combo::Gravity)
        } else if same_text(name, "Wind") {
            Some(Combo::Wind)
        } else if same_text(name, "Seismic") {
            Some(Combo::Seismic)
        } else {
            None
        }
    }

    /// The name of the combination: `Gravity`, `Wind` or `Seismic`.
    pub fn name(self) -> (s: String)
        ensures
            s@ == combo_name(self),
    {
        proof {
            reveal_strlit("Gravity");
            reveal_strlit("Wind");
            reveal_strlit("Seismic");
        }
        let text = match self {
            Combo::Gravity => "Gravity",
            Combo::Wind => "Wind",
            Combo::Seismic => "Seismic",
        };
        assert(text@ =~= combo_name(self));
        String::from_str(text)
    }
}

/// The one-character text of a decimal digit.
fn digit_text(d: u16) -> (s: &'static str)
    requires
        d < 10,
    ensures
        s@ == seq![digit(d as int)],
{
    proof {
        reveal_strlit("0");
        reveal_strlit("1");
        reveal_strlit("2");
        reveal_strlit("3");
        reveal_strlit("4");
        reveal_strlit("5");
        reveal_strlit("6");
        reveal_strlit("7");
        reveal_strlit("8");
        reveal_strlit("9");
    }
    let text = if d == 0 {
        "0"
    } else if d == 1 {
        "1"
    } else if d == 2 {
        "2"
    } else if d == 3 {
        "3"
    } else if d == 4 {
        "4"
    } else if d == 5 {
        "5"
    } else if d == 6 {
        "6"
    } else if d == 7 {
        "7"
    } else if d == 8 {
        "8"
    } else {
        "9"
    };
    assert(text@ =~= seq![digit(d as int)]);
    text
}

/// Writes a level in base ten.
pub fn level_text(level: u16) -> (s: String)
    ensures
        s@ == decimal(level as nat),
    decreases level,
{
    if level < 10 {
        String::from_str(digit_text(level))
    } else {
        let head = level_text(level / 10);
        let last = digit_text(level % 10);
        assert(head@ + last@ =~= decimal(level as nat));
        head.concat(last)
    }
}

/// Builds the identifier shared by the rows of `pier` at `level`.
pub fn row_id(pier: Pier, level: u16) -> (id: String)
    ensures
        id@ == composite_id(pier, level),
{
    proof {
        reveal_strlit("_");
    }
    let sep = "_";
    assert(sep@ =~= seq!['_']);
    let digits = level_text(level);
    pier.name().concat(sep).concat(digits.as_str())
}

} // verus!
