//! Component categories, and the rule that finds the category of a component
//! from its reference designator.

use crate::text::chars_of;
use vstd::prelude::*;

verus! {

/// Engineering category of a component. The order of the variants is the order
/// in which reports list the categories.
#[derive(Debug, Clone, Copy, PartialEq, Eq, Structural, PartialOrd, Ord)]
pub enum Category {
    Connectors,
    Mechanicals,
    Fuses,
    Resistors,
    Capacitors,
    Diode,
    Inductors,
    Transistor,
    Transformer,
    Crystal,
    IC,
    Unknown,
}

/// How many categories there are.
pub const CATEGORY_COUNT: u8 = 12;

impl Category {
    /// Position of the category in the order of the categories.
    pub open spec fn rank(self) -> int {
        match self {
            Category::Connectors => 0,
            Category::Mechanicals => 1,
            Category::Fuses => 2,
            Category::Resistors => 3,
            Category::Capacitors => 4,
            Category::Diode => 5,
            Category::Inductors => 6,
            Category::Transistor => 7,
            Category::Transformer => 8,
            Category::Crystal => 9,
            Category::IC => 10,
            Category::Unknown => 11,
        }
    }

    /// The category at position `rank`; `Unknown` past the last position.
    pub open spec fn at(rank: int) -> Category {
        if rank == 0 {
            Category::Connectors
        } else if rank == 1 {
            Category::Mechanicals
        } else if rank == 2 {
            Category::Fuses
        } else if rank == 3 {
            Category::Resistors
        } else if rank == 4 {
            Category::Capacitors
        } else if rank == 5 {
            Category::Diode
        } else if rank == 6 {
            Category::Inductors
        } else if rank == 7 {
            Category::Transistor
        } else if rank == 8 {
            Category::Transformer
        } else if rank == 9 {
            Category::Crystal
        } else if rank == 10 {
            Category::IC
        } else {
            Category::Unknown
        }
    }

    /// The name of the category as reports print it.
    pub open spec fn name_text(self) -> Seq<char> {
        match self {
            Category::Connectors => "Connectors"@,
            Category::Mechanicals => "Mechanicals"@,
            Category::Fuses => "Fuses"@,
            Category::Resistors => "Resistors"@,
            Category::Capacitors => "Capacitors"@,
            Category::Diode => "Diode"@,
            Category::Inductors => "Inductors"@,
            Category::Transistor => "Transistor"@,
            Category::Transformer => "Transformer"@,
            Category::Crystal => "Crystal"@,
            Category::IC => "IC"@,
            Category::Unknown => "Unknown"@,
        }
    }

    /// The name of the category as reports print it.
    pub fn name(self) -> (r: &'static str)
        ensures
            r@ == self.name_text(),
    {
        match self {
            Category::Connectors => "Connectors",
            Category::Mechanicals => "Mechanicals",
            Category::Fuses => "Fuses",
            Category::Resistors => "Resistors",
            Category::Capacitors => "Capacitors",
            Category::Diode => "Diode",
            Category::Inductors => "Inductors",
            Category::Transistor => "Transistor",
            Category::Transformer => "Transformer",
            Category::Crystal => "Crystal",
            Category::IC => "IC",
            Category::Unknown => "Unknown",
        }
    }

    /// Position of the category in the order of the categories.
    pub fn index(self) -> (r: u8)
        ensures
            r == self.rank(),
            r < CATEGORY_COUNT,
            Category::at(r as int) == self,
    {
        match self {
            Category::Connectors => 0,
            Category::Mechanicals => 1,
            Category::Fuses => 2,
            Category::Resistors => 3,
            Category::Capacitors => 4,
            Category::Diode => 5,
            Category::Inductors => 6,
            Category::Transistor => 7,
            Category::Transformer => 8,
            Category::Crystal => 9,
            Category::IC => 10,
            Category::Unknown => 11,
        }
    }

    /// The category at position `rank`; `Unknown` past the last position.
    pub fn from_index(rank: u8) -> (r: Category)
        ensures
            r == Category::at(rank as int),
            rank < CATEGORY_COUNT ==> r.rank() == rank,
    {
        match rank {
            0 => Category::Connectors,
            1 => Category::Mechanicals,
            2 => Category::Fuses,
            3 => Category::Resistors,
            4 => Category::Capacitors,
            5 => Category::Diode,
            6 => Category::Inductors,
            7 => Category::Transistor,
            8 => Category::Transformer,
            9 => Category::Crystal,
            10 => Category::IC,
            _ => Category::Unknown,
        }
    }
}

/// Whether `c` is one of the letters `A` to `Z` or `a` to `z`.
pub open spec fn is_letter(c: char) -> bool {
    ('a' <= c && c <= 'z') || ('A' <= c && c <= 'Z')
}

/// The capital of the letter `c`; any other character is left as it is.
pub open spec fn capital(c: char) -> char {
    if 'a' <= c && c <= 'z' {
        ((c as u8) - 32) as char
    } else {
        c
    }
}

/// How many of its leading letters classify a designator: all of them, but
/// three at most.
pub open spec fn prefix_len(designator: Seq<char>) -> int {
    if designator.len() < 1 || !is_letter(designator[0]) {
        0
    } else if designator.len() < 2 || !is_letter(designator[1]) {
        1
    } else if designator.len() < 3 || !is_letter(designator[2]) {
        2
    } else {
        3
    }
}

/// The prefix by which a designator is classified: its leading letters, three
/// at most, as capitals.
pub open spec fn designator_prefix(designator: Seq<char>) -> Seq<char> {
    Seq::new(prefix_len(designator) as nat, |i: int| capital(designator[i]))
}

/// The category of the prefix of the one letter `a`.
pub open spec fn letter_category(a: char) -> Category {
    if a == 'J' || a == 'X' || a == 'P' {
        Category::Connectors
    } else if a == 'S' || a == 'B' || a == 'K' {
        Category::Mechanicals
    } else if a == 'F' {
        Category::Fuses
    } else if a == 'R' {
        Category::Resistors
    } else if a == 'C' {
        Category::Capacitors
    } else if a == 'D' {
        Category::Diode
    } else if a == 'L' {
        Category::Inductors
    } else if a == 'Q' {
        Category::Transistor
    } else if a == 'Y' {
        Category::Crystal
    } else if a == 'U' {
        Category::IC
    } else {
        Category::Unknown
    }
}

/// The category of the prefix of the two characters `a` and `b`.
pub open spec fn pair_category(a: char, b: char) -> Category {
    if (a == 'B' && b == 'T') || (a == 'S' && b == 'W') || (a == 'M' && b == 'P') {
        Category::Mechanicals
    } else if a == 'F' && b == 'U' {
        Category::Fuses
    } else if a == 'R' && b == 'N' {
        Category::Resistors
    } else if a == 'D' && b == 'Z' {
        Category::Diode
    } else if a == 'T' && b == 'R' {
        Category::Transformer
    } else {
        Category::Unknown
    }
}

/// The category of the prefix of the three characters `a`, `b` and `c`.
pub open spec fn triple_category(a: char, b: char, c: char) -> Category {
    if a == 'S' && b == 'I' && c == 'M' {
        Category::Connectors
    } else if (a == 'S' && b == 'C' && c == 'R') || (a == 'S' && b == 'P' && c == 'A') || (a == 'B'
        && b == 'A' && c == 'T') || (a == 'B' && b == 'U' && c == 'Z') {
        Category::Mechanicals
    } else if a == 'R' && b == '_' && c == 'G' {
        Category::Resistors
    } else if a == 'C' && b == 'A' && c == 'P' {
        Category::Capacitors
    } else {
        Category::Unknown
    }
}

/// The table of designator prefixes: `J`, `X`, `P`, `SIM` for connectors;
/// `S`, `SCR`, `SPA`, `BAT`, `BUZ`, `BT`, `B`, `SW`, `MP`, `K` for
/// mechanicals; `F`, `FU` for fuses; `R`, `RN`, `R_G` for resistors; `C`,
/// `CAP` for capacitors; `D`, `DZ` for diodes; `L` for inductors; `Q` for
/// transistors; `TR` for transformers; `Y` for crystals; `U` for integrated
/// circuits. A prefix that the table does not hold belongs to `Unknown`.
pub open spec fn prefix_category(p: Seq<char>) -> Category {
    if p.len() == 1 {
        letter_category(p[0])
    } else if p.len() == 2 {
        pair_category(p[0], p[1])
    } else if p.len() == 3 {
        triple_category(p[0], p[1], p[2])
    } else {
        Category::Unknown
    }
}

/// The category of a component with the given reference designator.
pub open spec fn category_of(designator: Seq<char>) -> Category {
    prefix_category(designator_prefix(designator))
}

/// Whether `c` is one of the letters `A` to `Z` or `a` to `z`.
pub fn letter(c: char) -> (r: bool)
    ensures
        r == is_letter(c),
{
    ('a' <= c && c <= 'z') || ('A' <= c && c <= 'Z')
}

/// The capital of the letter `c`; any other character is left as it is.
pub fn to_capital(c: char) -> (r: char)
    ensures
        r == capital(c),
{
    if 'a' <= c && c <= 'z' {
        ((c as u8) - 32) as char
    } else {
        c
    }
}

/// Looks a prefix up in the table of designator prefixes.
pub fn lookup_prefix(p: &Vec<char>) -> (r: Category)
    ensures
        r == prefix_category(p@),
{
    if p.len() == 1 {
        let a = p[0];
        match a {
            'J' | 'X' | 'P' => Category::Connectors,
            'S' | 'B' | 'K' => Category::Mechanicals,
            'F' => Category::Fuses,
            'R' => Category::Resistors,
            'C' => Category::Capacitors,
            'D' => Category::Diode,
            'L' => Category::Inductors,
            'Q' => Category::Transistor,
            'Y' => Category::Crystal,
            'U' => Category::IC,
            _ => Category::Unknown,
        }
    } else if p.len() == 2 {
        let a = p[0];
        let b = p[1];
        match (a, b) {
            ('B', 'T') | ('S', 'W') | ('M', 'P') => Category::Mechanicals,
            ('F', 'U') => Category::Fuses,
            ('R', 'N') => Category::Resistors,
            ('D', 'Z') => Category::Diode,
            ('T', 'R') => Category::Transformer,
            _ => Category::Unknown,
        }
    } else if p.len() == 3 {
        let a = p[0];
        let b = p[1];
        let c = p[2];
        match (a, b, c) {
            ('S', 'I', 'M') => Category::Connectors,
            ('S', 'C', 'R') | ('S', 'P', 'A') | ('B', 'A', 'T') | ('B', 'U', 'Z') =>
                Category::Mechanicals,
            ('R', '_', 'G') => Category::Resistors,
            ('C', 'A', 'P') => Category::Capacitors,
            _ => Category::Unknown,
        }
    } else {
        Category::Unknown
    }
}

/// Classifies a component by its reference designator: the leading letters of
/// the designator, three at most and whatever their case, are looked up in the
/// table of prefixes. A designator that begins with no letter, or with letters
/// that the table does not hold, is `Unknown`.
pub fn guess_category(designator: &str) -> (r: Category)
    ensures
        r == category_of(designator@),
{
    let cs = chars_of(designator);
    let mut p: Vec<char> = Vec::new();
    let mut i: usize = 0;
    while i < cs.len() && i < 3 && letter(cs[i])
        invariant
            cs@ == designator@,
            i <= cs@.len(),
            i <= 3,
            p@.len() == i,
            forall|j: int| 0 <= j < i ==> is_letter(#[trigger] cs@[j]),
            forall|j: int| 0 <= j < i ==> #[trigger] p@[j] == capital(cs@[j]),
        decreases cs@.len() - i,
    {
        p.push(to_capital(cs[i]));
        i += 1;
    }
    assert(p@ =~= designator_prefix(cs@));
    lookup_prefix(&p)
}

} // verus!
