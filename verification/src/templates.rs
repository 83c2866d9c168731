//! Level templates: the character-to-cell mapping and the built-in levels.

use vstd::prelude::*;

use crate::game::Cell;

verus! {

/// What one template character stands for: a landscape cell, the player's
/// starting position, or nothing this library recognizes.
#[derive(Clone, Copy, Debug, PartialEq, Eq, Structural)]
pub enum LandscapeFromChar {
    Land { cell: Cell },
    Bomber,
    Unknown,
}

/// The documented template alphabet.
pub open spec fn spec_cell_from_char(c: char) -> LandscapeFromChar {
    match c {
        ' ' => LandscapeFromChar::Land { cell: Cell::Empty },
        'X' => LandscapeFromChar::Land { cell: Cell::Wall },
        'B' => LandscapeFromChar::Land { cell: Cell::Brick },
        'O' => LandscapeFromChar::Land { cell: Cell::OpenGate },
        'H' => LandscapeFromChar::Land { cell: Cell::HiddenGate },
        'M' => LandscapeFromChar::Bomber,
        'G' => LandscapeFromChar::Land { cell: Cell::Ghoul },
        _ => LandscapeFromChar::Unknown,
    }
}

/// The cell a recognized template character produces in the grid; the
/// player marker resolves to an empty cell once consumed.
pub open spec fn cell_of_char(c: char) -> Cell {
    match spec_cell_from_char(c) {
        LandscapeFromChar::Land { cell } => cell,
        LandscapeFromChar::Bomber => Cell::Empty,
        LandscapeFromChar::Unknown => Cell::Empty,
    }
}

/// What `str::to_lowercase` returns for a string with these characters.
pub uninterp spec fn lower_of(s: Seq<char>) -> Seq<char>;

/// Relies on `str::to_lowercase`: the result is a function of the
/// characters alone.
#[verifier::external_body]
fn lowercase(s: &str) -> (r: String)
    ensures
        r@ == lower_of(s@),
{
    s.to_lowercase()
}

/// Relies on `rand::random` for a machine-random draw; nothing is promised
/// of the value.
pub assume_specification<T>[ rand::random::<T> ]() -> (r: T)
    where
        rand::distributions::Standard: rand::distributions::Distribution<T>,
;

/// Character-by-character string comparison.
fn str_eq(a: &str, b: &str) -> (r: bool)
    ensures
        r == (a@ == b@),
{
    let n = a.unicode_len();
    if n != b.unicode_len() {
        return false;
    }
    let mut i: usize = 0;
    while i < n
        invariant
            0 <= i <= n,
            n == a@.len(),
            n == b@.len(),
            forall|j: int| 0 <= j < i ==> a@[j] == b@[j],
        decreases n - i,
    {
        if a.get_char(i) != b.get_char(i) {
            return false;
        }
        i = i + 1;
    }
    proof {
        assert(a@ =~= b@);
    }
    true
}

/// The rows of the built-in small level, as character sequences.
pub open spec fn small_1_rows() -> Seq<Seq<char>> {
    seq![
        "XXXXXXXXXXXXXXX"@,
        "XM    BBBBBBBBX"@,
        "XBXBX X X X X X"@,
        "X   B B   B  GX"@,
        "X X X X X XBXBX"@,
        "X   B   B     X"@,
        "X X XBXBX XBXBX"@,
        "X         B B X"@,
        "XBXBX XBXBXBXBX"@,
        "X     BG      X"@,
        "XBXBX XBXBXBX X"@,
        "X     B       X"@,
        "X XBXBXBXBXBXBX"@,
        "X            OX"@,
        "XXXXXXXXXXXXXXX"@,
    ]
}

/// The rows of the built-in wide level, as character sequences.
pub open spec fn wide_1_rows() -> Seq<Seq<char>> {
    seq![
        "XXXXXXXXXXXXXXXXXXXXXXXXXXXXXXXXXXXXXXXXXXXXXXXXXXXXXXXXXXXX"@,
        "XM    BBBBBBBBX                                           OX"@,
        "XBXBX X X X X X                                            X"@,
        "X   B B       X                                            X"@,
        "X X X X X XBXBX                                            X"@,
        "X   B   B     X                                            X"@,
        "X X XBXBX XBXBX          BBBBBBBBBBBBBB                    X"@,
        "X         B B X          B      G     B                    X"@,
        "XBXBX XBXBXBXBX          BBBBBBBBBBBBBB                    X"@,
        "X             X                                            X"@,
        "XBXBXBXBXBXBX X                                            X"@,
        "X             X                                            X"@,
        "X XBXBXBXBXBXBX                                            X"@,
        "X                                                          X"@,
        "XXXXXXXXXXXXXXXXXXXXXXXXXXXXXXXXXXXXXXXXXXXXXXXXXXXXXXXXXXXX"@,
    ]
}

/// The built-in small level: fifteen rows of fifteen characters.
pub fn small_1() -> (r: Vec<&'static str>)
    ensures
        r@.map_values(|s: &str| s@) == small_1_rows(),
{
    let r: Vec<&'static str> = vec![
        "XXXXXXXXXXXXXXX",
        "XM    BBBBBBBBX",
        "XBXBX X X X X X",
        "X   B B   B  GX",
        "X X X X X XBXBX",
        "X   B   B     X",
        "X X XBXBX XBXBX",
        "X         B B X",
        "XBXBX XBXBXBXBX",
        "X     BG      X",
        "XBXBX XBXBXBX X",
        "X     B       X",
        "X XBXBXBXBXBXBX",
        "X            OX",
        "XXXXXXXXXXXXXXX",
    ];
    proof {
        assert(r@.map_values(|s: &str| s@) =~= small_1_rows());
    }
    r
}

/// The built-in wide level: fifteen rows of sixty characters.
pub fn wide_1() -> (r: Vec<&'static str>)
    ensures
        r@.map_values(|s: &str| s@) == wide_1_rows(),
{
    let r: Vec<&'static str> = vec![
        "XXXXXXXXXXXXXXXXXXXXXXXXXXXXXXXXXXXXXXXXXXXXXXXXXXXXXXXXXXXX",
        "XM    BBBBBBBBX                                           OX",
        "XBXBX X X X X X                                            X",
        "X   B B       X                                            X",
        "X X X X X XBXBX                                            X",
        "X   B   B     X                                            X",
        "X X XBXBX XBXBX          BBBBBBBBBBBBBB                    X",
        "X         B B X          B      G     B                    X",
        "XBXBX XBXBXBXBX          BBBBBBBBBBBBBB                    X",
        "X             X                                            X",
        "XBXBXBXBXBXBX X                                            X",
        "X             X                                            X",
        "X XBXBXBXBXBXBX                                            X",
        "X                                                          X",
        "XXXXXXXXXXXXXXXXXXXXXXXXXXXXXXXXXXXXXXXXXXXXXXXXXXXXXXXXXXXX",
    ];
    proof {
        assert(r@.map_values(|s: &str| s@) =~= wide_1_rows());
    }
    r
}

/// Look a level up by its name, compared after case folding.
pub fn by_name(name: &str) -> (r: Option<Vec<&'static str>>)
    ensures
        match r {
            Some(t) => (lower_of(name@) == "small_1"@ && t@.map_values(|s: &str| s@)
                == small_1_rows()) || (lower_of(name@) == "wide_1"@ && t@.map_values(
                |s: &str| s@,
            ) == wide_1_rows()),
            None => lower_of(name@) != "small_1"@ && lower_of(name@) != "wide_1"@,
        },
{
    let lowered = lowercase(name);
    if str_eq(lowered.as_str(), "small_1") {
        Some(small_1())
    } else if str_eq(lowered.as_str(), "wide_1") {
        Some(wide_1())
    } else {
        None
    }
}

/// Pick one of the built-in levels at random.
pub fn random() -> (r: Vec<&'static str>)
    ensures
        r@.map_values(|s: &str| s@) == small_1_rows() || r@.map_values(|s: &str| s@)
            == wide_1_rows(),
{
    let x: u64 = rand::random::<u64>();
    if x % 2 == 0 {
        small_1()
    } else {
        wide_1()
    }
}

/// Classify one template character.
pub fn cell_from_char(c: char) -> (r: LandscapeFromChar)
    ensures
        r == spec_cell_from_char(c),
{
    match c {
        ' ' => LandscapeFromChar::Land { cell: Cell::Empty },
        'X' => LandscapeFromChar::Land { cell: Cell::Wall },
        'B' => LandscapeFromChar::Land { cell: Cell::Brick },
        'O' => LandscapeFromChar::Land { cell: Cell::OpenGate },
        'H' => LandscapeFromChar::Land { cell: Cell::HiddenGate },
        'M' => LandscapeFromChar::Bomber,
        'G' => LandscapeFromChar::Land { cell: Cell::Ghoul },
        _ => LandscapeFromChar::Unknown,
    }
}

} // verus!
