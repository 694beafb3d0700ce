//! The periodic table: the symbols of the 118 elements.

use crate::text::str_eq;
use vstd::prelude::*;

verus! {

/// The highest atomic number.
pub const MAX_ATOMIC_NUMBER: u32 = 118;

/// The symbol of the element with atomic number `z`, in title case.
pub open spec fn element_name(z: u32) -> Seq<char>
    recommends
        1 <= z <= 118,
{
    match z {
        1 => "H"@,
        2 => "He"@,
        3 => "Li"@,
        4 => "Be"@,
        5 => "B"@,
        6 => "C"@,
        7 => "N"@,
        8 => "O"@,
        9 => "F"@,
        10 => "Ne"@,
        11 => "Na"@,
        12 => "Mg"@,
        13 => "Al"@,
        14 => "Si"@,
        15 => "P"@,
        16 => "S"@,
        17 => "Cl"@,
        18 => "Ar"@,
        19 => "K"@,
        20 => "Ca"@,
        21 => "Sc"@,
        22 => "Ti"@,
        23 => "V"@,
        24 => "Cr"@,
        25 => "Mn"@,
        26 => "Fe"@,
        27 => "Co"@,
        28 => "Ni"@,
        29 => "Cu"@,
        30 => "Zn"@,
        31 => "Ga"@,
        32 => "Ge"@,
        33 => "As"@,
        34 => "Se"@,
        35 => "Br"@,
        36 => "Kr"@,
        37 => "Rb"@,
        38 => "Sr"@,
        39 => "Y"@,
        40 => "Zr"@,
        41 => "Nb"@,
        42 => "Mo"@,
        43 => "Tc"@,
        44 => "Ru"@,
        45 => "Rh"@,
        46 => "Pd"@,
        47 => "Ag"@,
        48 => "Cd"@,
        49 => "In"@,
        50 => "Sn"@,
        51 => "Sb"@,
        52 => "Te"@,
        53 => "I"@,
        54 => "Xe"@,
        55 => "Cs"@,
        56 => "Ba"@,
        57 => "La"@,
        58 => "Ce"@,
        59 => "Pr"@,
        60 => "Nd"@,
        61 => "Pm"@,
        62 => "Sm"@,
        63 => "Eu"@,
        64 => "Gd"@,
        65 => "Tb"@,
        66 => "Dy"@,
        67 => "Ho"@,
        68 => "Er"@,
        69 => "Tm"@,
        70 => "Yb"@,
        71 => "Lu"@,
        72 => "Hf"@,
        73 => "Ta"@,
        74 => "W"@,
        75 => "Re"@,
        76 => "Os"@,
        77 => "Ir"@,
        78 => "Pt"@,
        79 => "Au"@,
        80 => "Hg"@,
        81 => "Tl"@,
        82 => "Pb"@,
        83 => "Bi"@,
        84 => "Po"@,
        85 => "At"@,
        86 => "Rn"@,
        87 => "Fr"@,
        88 => "Ra"@,
        89 => "Ac"@,
        90 => "Th"@,
        91 => "Pa"@,
        92 => "U"@,
        93 => "Np"@,
        94 => "Pu"@,
        95 => "Am"@,
        96 => "Cm"@,
        97 => "Bk"@,
        98 => "Cf"@,
        99 => "Es"@,
        100 => "Fm"@,
        101 => "Md"@,
        102 => "No"@,
        103 => "Lr"@,
        104 => "Rf"@,
        105 => "Db"@,
        106 => "Sg"@,
        107 => "Bh"@,
        108 => "Hs"@,
        109 => "Mt"@,
        110 => "Ds"@,
        111 => "Rg"@,
        112 => "Cn"@,
        113 => "Nh"@,
        114 => "Fl"@,
        115 => "Mc"@,
        116 => "Lv"@,
        117 => "Ts"@,
        118 => "Og"@,
        _ => Seq::empty(),
    }
}

/// `symbol` is the symbol of an element, in title case.
pub open spec fn is_element_name(symbol: Seq<char>) -> bool {
    exists|z: u32| 1 <= z <= 118 && #[trigger] element_name(z) == symbol
}

/// The symbol of the element with atomic number `z`.
pub fn element_symbol(z: u32) -> (symbol: &'static str)
    requires
        1 <= z <= MAX_ATOMIC_NUMBER,
    ensures
        symbol@ == element_name(z),
{
    match z {
        1 => "H",
        2 => "He",
        3 => "Li",
        4 => "Be",
        5 => "B",
        6 => "C",
        7 => "N",
        8 => "O",
        9 => "F",
        10 => "Ne",
        11 => "Na",
        12 => "Mg",
        13 => "Al",
        14 => "Si",
        15 => "P",
        16 => "S",
        17 => "Cl",
        18 => "Ar",
        19 => "K",
        20 => "Ca",
        21 => "Sc",
        22 => "Ti",
        23 => "V",
        24 => "Cr",
        25 => "Mn",
        26 => "Fe",
        27 => "Co",
        28 => "Ni",
        29 => "Cu",
        30 => "Zn",
        31 => "Ga",
        32 => "Ge",
        33 => "As",
        34 => "Se",
        35 => "Br",
        36 => "Kr",
        37 => "Rb",
        38 => "Sr",
        39 => "Y",
        40 => "Zr",
        41 => "Nb",
        42 => "Mo",
        43 => "Tc",
        44 => "Ru",
        45 => "Rh",
        46 => "Pd",
        47 => "Ag",
        48 => "Cd",
        49 => "In",
        50 => "Sn",
        51 => "Sb",
        52 => "Te",
        53 => "I",
        54 => "Xe",
        55 => "Cs",
        56 => "Ba",
        57 => "La",
        58 => "Ce",
        59 => "Pr",
        60 => "Nd",
        61 => "Pm",
        62 => "Sm",
        63 => "Eu",
        64 => "Gd",
        65 => "Tb",
        66 => "Dy",
        67 => "Ho",
        68 => "Er",
        69 => "Tm",
        70 => "Yb",
        71 => "Lu",
        72 => "Hf",
        73 => "Ta",
        74 => "W",
        75 => "Re",
        76 => "Os",
        77 => "Ir",
        78 => "Pt",
        79 => "Au",
        80 => "Hg",
        81 => "Tl",
        82 => "Pb",
        83 => "Bi",
        84 => "Po",
        85 => "At",
        86 => "Rn",
        87 => "Fr",
        88 => "Ra",
        89 => "Ac",
        90 => "Th",
        91 => "Pa",
        92 => "U",
        93 => "Np",
        94 => "Pu",
        95 => "Am",
        96 => "Cm",
        97 => "Bk",
        98 => "Cf",
        99 => "Es",
        100 => "Fm",
        101 => "Md",
        102 => "No",
        103 => "Lr",
        104 => "Rf",
        105 => "Db",
        106 => "Sg",
        107 => "Bh",
        108 => "Hs",
        109 => "Mt",
        110 => "Ds",
        111 => "Rg",
        112 => "Cn",
        113 => "Nh",
        114 => "Fl",
        115 => "Mc",
        116 => "Lv",
        117 => "Ts",
        118 => "Og",
        _ => "",
    }
}

/// Whether `symbol` is the symbol of an element, in title case.
pub fn is_element(symbol: &str) -> (known: bool)
    ensures
        known == is_element_name(symbol@),
{
    let mut z: u32 = 1;
    while z <= MAX_ATOMIC_NUMBER
        invariant
            1 <= z <= MAX_ATOMIC_NUMBER + 1,
            forall|y: u32| 1 <= y < z ==> #[trigger] element_name(y) != symbol@,
        decreases MAX_ATOMIC_NUMBER + 1 - z,
    {
        if str_eq(element_symbol(z), symbol) {
            return true;
        }
        z = z + 1;
    }
    false
}

} // verus!
