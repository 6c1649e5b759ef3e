use vstd::prelude::*;

verus! {

/// The identity of a chemical element. One variant per element of the
/// periodic table, in order of atomic number.
#[derive(Clone, Copy, PartialEq, Eq, Structural, Debug)]
pub enum Element {
    H, He, Li, Be, B, C, N, O, F, Ne,
    Na, Mg, Al, Si, P, S, Cl, Ar, K, Ca,
    Sc, Ti, V, Cr, Mn, Fe, Co, Ni, Cu, Zn,
    Ga, Ge, As, Se, Br, Kr, Rb, Sr, Y, Zr,
    Nb, Mo, Tc, Ru, Rh, Pd, Ag, Cd, In, Sn,
    Sb, Te, I, Xe, Cs, Ba, La, Ce, Pr, Nd,
    Pm, Sm, Eu, Gd, Tb, Dy, Ho, Er, Tm, Yb,
    Lu, Hf, Ta, W, Re, Os, Ir, Pt, Au, Hg,
    Tl, Pb, Bi, Po, At, Rn, Fr, Ra, Ac, Th,
    Pa, U, Np, Pu, Am, Cm, Bk, Cf, Es, Fm,
    Md, No, Lr, Rf, Db, Sg, Bh, Hs, Mt, Ds,
    Rg, Cn, Nh, Fl, Mc, Lv, Ts, Og,
}

/// The atomic number of an element: its position in the periodic table.
pub open spec fn spec_atomic_number(e: Element) -> u32 {
    match e {
        Element::H => 1,
        Element::He => 2,
        Element::Li => 3,
        Element::Be => 4,
        Element::B => 5,
        Element::C => 6,
        Element::N => 7,
        Element::O => 8,
        Element::F => 9,
        Element::Ne => 10,
        Element::Na => 11,
        Element::Mg => 12,
        Element::Al => 13,
        Element::Si => 14,
        Element::P => 15,
        Element::S => 16,
        Element::Cl => 17,
        Element::Ar => 18,
        Element::K => 19,
        Element::Ca => 20,
        Element::Sc => 21,
        Element::Ti => 22,
        Element::V => 23,
        Element::Cr => 24,
        Element::Mn => 25,
        Element::Fe => 26,
        Element::Co => 27,
        Element::Ni => 28,
        Element::Cu => 29,
        Element::Zn => 30,
        Element::Ga => 31,
        Element::Ge => 32,
        Element::As => 33,
        Element::Se => 34,
        Element::Br => 35,
        Element::Kr => 36,
        Element::Rb => 37,
        Element::Sr => 38,
        Element::Y => 39,
        Element::Zr => 40,
        Element::Nb => 41,
        Element::Mo => 42,
        Element::Tc => 43,
        Element::Ru => 44,
        Element::Rh => 45,
        Element::Pd => 46,
        Element::Ag => 47,
        Element::Cd => 48,
        Element::In => 49,
        Element::Sn => 50,
        Element::Sb => 51,
        Element::Te => 52,
        Element::I => 53,
        Element::Xe => 54,
        Element::Cs => 55,
        Element::Ba => 56,
        Element::La => 57,
        Element::Ce => 58,
        Element::Pr => 59,
        Element::Nd => 60,
        Element::Pm => 61,
        Element::Sm => 62,
        Element::Eu => 63,
        Element::Gd => 64,
        Element::Tb => 65,
        Element::Dy => 66,
        Element::Ho => 67,
        Element::Er => 68,
        Element::Tm => 69,
        Element::Yb => 70,
        Element::Lu => 71,
        Element::Hf => 72,
        Element::Ta => 73,
        Element::W => 74,
        Element::Re => 75,
        Element::Os => 76,
        Element::Ir => 77,
        Element::Pt => 78,
        Element::Au => 79,
        Element::Hg => 80,
        Element::Tl => 81,
        Element::Pb => 82,
        Element::Bi => 83,
        Element::Po => 84,
        Element::At => 85,
        Element::Rn => 86,
        Element::Fr => 87,
        Element::Ra => 88,
        Element::Ac => 89,
        Element::Th => 90,
        Element::Pa => 91,
        Element::U => 92,
        Element::Np => 93,
        Element::Pu => 94,
        Element::Am => 95,
        Element::Cm => 96,
        Element::Bk => 97,
        Element::Cf => 98,
        Element::Es => 99,
        Element::Fm => 100,
        Element::Md => 101,
        Element::No => 102,
        Element::Lr => 103,
        Element::Rf => 104,
        Element::Db => 105,
        Element::Sg => 106,
        Element::Bh => 107,
        Element::Hs => 108,
        Element::Mt => 109,
        Element::Ds => 110,
        Element::Rg => 111,
        Element::Cn => 112,
        Element::Nh => 113,
        Element::Fl => 114,
        Element::Mc => 115,
        Element::Lv => 116,
        Element::Ts => 117,
        Element::Og => 118,
    }
}

impl Element {
    /// The atomic number of this element.
    pub fn atomic_number(&self) -> (r: u32)
        ensures
            r == spec_atomic_number(*self),
    {
        match self {
            Element::H => 1,
            Element::He => 2,
            Element::Li => 3,
            Element::Be => 4,
            Element::B => 5,
            Element::C => 6,
            Element::N => 7,
            Element::O => 8,
            Element::F => 9,
            Element::Ne => 10,
            Element::Na => 11,
            Element::Mg => 12,
            Element::Al => 13,
            Element::Si => 14,
            Element::P => 15,
            Element::S => 16,
            Element::Cl => 17,
            Element::Ar => 18,
            Element::K => 19,
            Element::Ca => 20,
            Element::Sc => 21,
            Element::Ti => 22,
            Element::V => 23,
            Element::Cr => 24,
            Element::Mn => 25,
            Element::Fe => 26,
            Element::Co => 27,
            Element::Ni => 28,
            Element::Cu => 29,
            Element::Zn => 30,
            Element::Ga => 31,
            Element::Ge => 32,
            Element::As => 33,
            Element::Se => 34,
            Element::Br => 35,
            Element::Kr => 36,
            Element::Rb => 37,
            Element::Sr => 38,
            Element::Y => 39,
            Element::Zr => 40,
            Element::Nb => 41,
            Element::Mo => 42,
            Element::Tc => 43,
            Element::Ru => 44,
            Element::Rh => 45,
            Element::Pd => 46,
            Element::Ag => 47,
            Element::Cd => 48,
            Element::In => 49,
            Element::Sn => 50,
            Element::Sb => 51,
            Element::Te => 52,
            Element::I => 53,
            Element::Xe => 54,
            Element::Cs => 55,
            Element::Ba => 56,
            Element::La => 57,
            Element::Ce => 58,
            Element::Pr => 59,
            Element::Nd => 60,
            Element::Pm => 61,
            Element::Sm => 62,
            Element::Eu => 63,
            Element::Gd => 64,
            Element::Tb => 65,
            Element::Dy => 66,
            Element::Ho => 67,
            Element::Er => 68,
            Element::Tm => 69,
            Element::Yb => 70,
            Element::Lu => 71,
            Element::Hf => 72,
            Element::Ta => 73,
            Element::W => 74,
            Element::Re => 75,
            Element::Os => 76,
            Element::Ir => 77,
            Element::Pt => 78,
            Element::Au => 79,
            Element::Hg => 80,
            Element::Tl => 81,
            Element::Pb => 82,
            Element::Bi => 83,
            Element::Po => 84,
            Element::At => 85,
            Element::Rn => 86,
            Element::Fr => 87,
            Element::Ra => 88,
            Element::Ac => 89,
            Element::Th => 90,
            Element::Pa => 91,
            Element::U => 92,
            Element::Np => 93,
            Element::Pu => 94,
            Element::Am => 95,
            Element::Cm => 96,
            Element::Bk => 97,
            Element::Cf => 98,
            Element::Es => 99,
            Element::Fm => 100,
            Element::Md => 101,
            Element::No => 102,
            Element::Lr => 103,
            Element::Rf => 104,
            Element::Db => 105,
            Element::Sg => 106,
            Element::Bh => 107,
            Element::Hs => 108,
            Element::Mt => 109,
            Element::Ds => 110,
            Element::Rg => 111,
            Element::Cn => 112,
            Element::Nh => 113,
            Element::Fl => 114,
            Element::Mc => 115,
            Element::Lv => 116,
            Element::Ts => 117,
            Element::Og => 118,
        }
    }
}

/// The element whose symbol is the single letter `b0`, if any.
pub open spec fn spec_element_from1(b0: u8) -> Option<Element> {
    match b0 {
        72u8 => Some(Element::H),  // H
        66u8 => Some(Element::B),  // B
        67u8 => Some(Element::C),  // C
        78u8 => Some(Element::N),  // N
        79u8 => Some(Element::O),  // O
        70u8 => Some(Element::F),  // F
        80u8 => Some(Element::P),  // P
        83u8 => Some(Element::S),  // S
        75u8 => Some(Element::K),  // K
        86u8 => Some(Element::V),  // V
        89u8 => Some(Element::Y),  // Y
        73u8 => Some(Element::I),  // I
        87u8 => Some(Element::W),  // W
        85u8 => Some(Element::U),  // U
        _ => None,
    }
}

/// The element whose symbol is the two letters `b0`, `b1`, if any.
pub open spec fn spec_element_from2(b0: u8, b1: u8) -> Option<Element> {
    match (b0, b1) {
        (72u8, 101u8) => Some(Element::He),  // He
        (76u8, 105u8) => Some(Element::Li),  // Li
        (66u8, 101u8) => Some(Element::Be),  // Be
        (78u8, 101u8) => Some(Element::Ne),  // Ne
        (78u8, 97u8) => Some(Element::Na),  // Na
        (77u8, 103u8) => Some(Element::Mg),  // Mg
        (65u8, 108u8) => Some(Element::Al),  // Al
        (83u8, 105u8) => Some(Element::Si),  // Si
        (67u8, 108u8) => Some(Element::Cl),  // Cl
        (65u8, 114u8) => Some(Element::Ar),  // Ar
        (67u8, 97u8) => Some(Element::Ca),  // Ca
        (83u8, 99u8) => Some(Element::Sc),  // Sc
        (84u8, 105u8) => Some(Element::Ti),  // Ti
        (67u8, 114u8) => Some(Element::Cr),  // Cr
        (77u8, 110u8) => Some(Element::Mn),  // Mn
        (70u8, 101u8) => Some(Element::Fe),  // Fe
        (67u8, 111u8) => Some(Element::Co),  // Co
        (78u8, 105u8) => Some(Element::Ni),  // Ni
        (67u8, 117u8) => Some(Element::Cu),  // Cu
        (90u8, 110u8) => Some(Element::Zn),  // Zn
        (71u8, 97u8) => Some(Element::Ga),  // Ga
        (71u8, 101u8) => Some(Element::Ge),  // Ge
        (65u8, 115u8) => Some(Element::As),  // As
        (83u8, 101u8) => Some(Element::Se),  // Se
        (66u8, 114u8) => Some(Element::Br),  // Br
        (75u8, 114u8) => Some(Element::Kr),  // Kr
        (82u8, 98u8) => Some(Element::Rb),  // Rb
        (83u8, 114u8) => Some(Element::Sr),  // Sr
        (90u8, 114u8) => Some(Element::Zr),  // Zr
        (78u8, 98u8) => Some(Element::Nb),  // Nb
        (77u8, 111u8) => Some(Element::Mo),  // Mo
        (84u8, 99u8) => Some(Element::Tc),  // Tc
        (82u8, 117u8) => Some(Element::Ru),  // Ru
        (82u8, 104u8) => Some(Element::Rh),  // Rh
        (80u8, 100u8) => Some(Element::Pd),  // Pd
        (65u8, 103u8) => Some(Element::Ag),  // Ag
        (67u8, 100u8) => Some(Element::Cd),  // Cd
        (73u8, 110u8) => Some(Element::In),  // In
        (83u8, 110u8) => Some(Element::Sn),  // Sn
        (83u8, 98u8) => Some(Element::Sb),  // Sb
        (84u8, 101u8) => Some(Element::Te),  // Te
        (88u8, 101u8) => Some(Element::Xe),  // Xe
        (67u8, 115u8) => Some(Element::Cs),  // Cs
        (66u8, 97u8) => Some(Element::Ba),  // Ba
        (76u8, 97u8) => Some(Element::La),  // La
        (67u8, 101u8) => Some(Element::Ce),  // Ce
        (80u8, 114u8) => Some(Element::Pr),  // Pr
        (78u8, 100u8) => Some(Element::Nd),  // Nd
        (80u8, 109u8) => Some(Element::Pm),  // Pm
        (83u8, 109u8) => Some(Element::Sm),  // Sm
        (69u8, 117u8) => Some(Element::Eu),  // Eu
        (71u8, 100u8) => Some(Element::Gd),  // Gd
        (84u8, 98u8) => Some(Element::Tb),  // Tb
        (68u8, 121u8) => Some(Element::Dy),  // Dy
        (72u8, 111u8) => Some(Element::Ho),  // Ho
        (69u8, 114u8) => Some(Element::Er),  // Er
        (84u8, 109u8) => Some(Element::Tm),  // Tm
        (89u8, 98u8) => Some(Element::Yb),  // Yb
        (76u8, 117u8) => Some(Element::Lu),  // Lu
        (72u8, 102u8) => Some(Element::Hf),  // Hf
        (84u8, 97u8) => Some(Element::Ta),  // Ta
        (82u8, 101u8) => Some(Element::Re),  // Re
        (79u8, 115u8) => Some(Element::Os),  // Os
        (73u8, 114u8) => Some(Element::Ir),  // Ir
        (80u8, 116u8) => Some(Element::Pt),  // Pt
        (65u8, 117u8) => Some(Element::Au),  // Au
        (72u8, 103u8) => Some(Element::Hg),  // Hg
        (84u8, 108u8) => Some(Element::Tl),  // Tl
        (80u8, 98u8) => Some(Element::Pb),  // Pb
        (66u8, 105u8) => Some(Element::Bi),  // Bi
        (80u8, 111u8) => Some(Element::Po),  // Po
        (65u8, 116u8) => Some(Element::At),  // At
        (82u8, 110u8) => Some(Element::Rn),  // Rn
        (70u8, 114u8) => Some(Element::Fr),  // Fr
        (82u8, 97u8) => Some(Element::Ra),  // Ra
        (65u8, 99u8) => Some(Element::Ac),  // Ac
        (84u8, 104u8) => Some(Element::Th),  // Th
        (80u8, 97u8) => Some(Element::Pa),  // Pa
        (78u8, 112u8) => Some(Element::Np),  // Np
        (80u8, 117u8) => Some(Element::Pu),  // Pu
        (65u8, 109u8) => Some(Element::Am),  // Am
        (67u8, 109u8) => Some(Element::Cm),  // Cm
        (66u8, 107u8) => Some(Element::Bk),  // Bk
        (67u8, 102u8) => Some(Element::Cf),  // Cf
        (69u8, 115u8) => Some(Element::Es),  // Es
        (70u8, 109u8) => Some(Element::Fm),  // Fm
        (77u8, 100u8) => Some(Element::Md),  // Md
        (78u8, 111u8) => Some(Element::No),  // No
        (76u8, 114u8) => Some(Element::Lr),  // Lr
        (82u8, 102u8) => Some(Element::Rf),  // Rf
        (68u8, 98u8) => Some(Element::Db),  // Db
        (83u8, 103u8) => Some(Element::Sg),  // Sg
        (66u8, 104u8) => Some(Element::Bh),  // Bh
        (72u8, 115u8) => Some(Element::Hs),  // Hs
        (77u8, 116u8) => Some(Element::Mt),  // Mt
        (68u8, 115u8) => Some(Element::Ds),  // Ds
        (82u8, 103u8) => Some(Element::Rg),  // Rg
        (67u8, 110u8) => Some(Element::Cn),  // Cn
        (78u8, 104u8) => Some(Element::Nh),  // Nh
        (70u8, 108u8) => Some(Element::Fl),  // Fl
        (77u8, 99u8) => Some(Element::Mc),  // Mc
        (76u8, 118u8) => Some(Element::Lv),  // Lv
        (84u8, 115u8) => Some(Element::Ts),  // Ts
        (79u8, 103u8) => Some(Element::Og),  // Og
        _ => None,
    }
}

/// The element whose symbol is the one byte `b0` (when `b1` is `None`) or
/// the two bytes `b0`, `b1` (when `b1` is `Some`), if any.
pub open spec fn spec_element_from(b0: u8, b1: Option<u8>) -> Option<Element> {
    match b1 {
        None => spec_element_from1(b0),
        Some(b) => spec_element_from2(b0, b),
    }
}

/// Looks a symbol up in the element table: one letter when `b1` is `None`,
/// two letters otherwise.
pub fn element_from_bytes(b0: u8, b1: Option<u8>) -> (r: Option<Element>)
    ensures
        r == spec_element_from(b0, b1),
{
    match b1 {
        None => {
            match b0 {
                72u8 => Some(Element::H),  // H
                66u8 => Some(Element::B),  // B
                67u8 => Some(Element::C),  // C
                78u8 => Some(Element::N),  // N
                79u8 => Some(Element::O),  // O
                70u8 => Some(Element::F),  // F
                80u8 => Some(Element::P),  // P
                83u8 => Some(Element::S),  // S
                75u8 => Some(Element::K),  // K
                86u8 => Some(Element::V),  // V
                89u8 => Some(Element::Y),  // Y
                73u8 => Some(Element::I),  // I
                87u8 => Some(Element::W),  // W
                85u8 => Some(Element::U),  // U
                _ => None,
            }
        },
        Some(b) => {
            match (b0, b) {
                (72u8, 101u8) => Some(Element::He),  // He
                (76u8, 105u8) => Some(Element::Li),  // Li
                (66u8, 101u8) => Some(Element::Be),  // Be
                (78u8, 101u8) => Some(Element::Ne),  // Ne
                (78u8, 97u8) => Some(Element::Na),  // Na
                (77u8, 103u8) => Some(Element::Mg),  // Mg
                (65u8, 108u8) => Some(Element::Al),  // Al
                (83u8, 105u8) => Some(Element::Si),  // Si
                (67u8, 108u8) => Some(Element::Cl),  // Cl
                (65u8, 114u8) => Some(Element::Ar),  // Ar
                (67u8, 97u8) => Some(Element::Ca),  // Ca
                (83u8, 99u8) => Some(Element::Sc),  // Sc
                (84u8, 105u8) => Some(Element::Ti),  // Ti
                (67u8, 114u8) => Some(Element::Cr),  // Cr
                (77u8, 110u8) => Some(Element::Mn),  // Mn
                (70u8, 101u8) => Some(Element::Fe),  // Fe
                (67u8, 111u8) => Some(Element::Co),  // Co
                (78u8, 105u8) => Some(Element::Ni),  // Ni
                (67u8, 117u8) => Some(Element::Cu),  // Cu
                (90u8, 110u8) => Some(Element::Zn),  // Zn
                (71u8, 97u8) => Some(Element::Ga),  // Ga
                (71u8, 101u8) => Some(Element::Ge),  // Ge
                (65u8, 115u8) => Some(Element::As),  // As
                (83u8, 101u8) => Some(Element::Se),  // Se
                (66u8, 114u8) => Some(Element::Br),  // Br
                (75u8, 114u8) => Some(Element::Kr),  // Kr
                (82u8, 98u8) => Some(Element::Rb),  // Rb
                (83u8, 114u8) => Some(Element::Sr),  // Sr
                (90u8, 114u8) => Some(Element::Zr),  // Zr
                (78u8, 98u8) => Some(Element::Nb),  // Nb
                (77u8, 111u8) => Some(Element::Mo),  // Mo
                (84u8, 99u8) => Some(Element::Tc),  // Tc
                (82u8, 117u8) => Some(Element::Ru),  // Ru
                (82u8, 104u8) => Some(Element::Rh),  // Rh
                (80u8, 100u8) => Some(Element::Pd),  // Pd
                (65u8, 103u8) => Some(Element::Ag),  // Ag
                (67u8, 100u8) => Some(Element::Cd),  // Cd
                (73u8, 110u8) => Some(Element::In),  // In
                (83u8, 110u8) => Some(Element::Sn),  // Sn
                (83u8, 98u8) => Some(Element::Sb),  // Sb
                (84u8, 101u8) => Some(Element::Te),  // Te
                (88u8, 101u8) => Some(Element::Xe),  // Xe
                (67u8, 115u8) => Some(Element::Cs),  // Cs
                (66u8, 97u8) => Some(Element::Ba),  // Ba
                (76u8, 97u8) => Some(Element::La),  // La
                (67u8, 101u8) => Some(Element::Ce),  // Ce
                (80u8, 114u8) => Some(Element::Pr),  // Pr
                (78u8, 100u8) => Some(Element::Nd),  // Nd
                (80u8, 109u8) => Some(Element::Pm),  // Pm
                (83u8, 109u8) => Some(Element::Sm),  // Sm
                (69u8, 117u8) => Some(Element::Eu),  // Eu
                (71u8, 100u8) => Some(Element::Gd),  // Gd
                (84u8, 98u8) => Some(Element::Tb),  // Tb
                (68u8, 121u8) => Some(Element::Dy),  // Dy
                (72u8, 111u8) => Some(Element::Ho),  // Ho
                (69u8, 114u8) => Some(Element::Er),  // Er
                (84u8, 109u8) => Some(Element::Tm),  // Tm
                (89u8, 98u8) => Some(Element::Yb),  // Yb
                (76u8, 117u8) => Some(Element::Lu),  // Lu
                (72u8, 102u8) => Some(Element::Hf),  // Hf
                (84u8, 97u8) => Some(Element::Ta),  // Ta
                (82u8, 101u8) => Some(Element::Re),  // Re
                (79u8, 115u8) => Some(Element::Os),  // Os
                (73u8, 114u8) => Some(Element::Ir),  // Ir
                (80u8, 116u8) => Some(Element::Pt),  // Pt
                (65u8, 117u8) => Some(Element::Au),  // Au
                (72u8, 103u8) => Some(Element::Hg),  // Hg
                (84u8, 108u8) => Some(Element::Tl),  // Tl
                (80u8, 98u8) => Some(Element::Pb),  // Pb
                (66u8, 105u8) => Some(Element::Bi),  // Bi
                (80u8, 111u8) => Some(Element::Po),  // Po
                (65u8, 116u8) => Some(Element::At),  // At
                (82u8, 110u8) => Some(Element::Rn),  // Rn
                (70u8, 114u8) => Some(Element::Fr),  // Fr
                (82u8, 97u8) => Some(Element::Ra),  // Ra
                (65u8, 99u8) => Some(Element::Ac),  // Ac
                (84u8, 104u8) => Some(Element::Th),  // Th
                (80u8, 97u8) => Some(Element::Pa),  // Pa
                (78u8, 112u8) => Some(Element::Np),  // Np
                (80u8, 117u8) => Some(Element::Pu),  // Pu
                (65u8, 109u8) => Some(Element::Am),  // Am
                (67u8, 109u8) => Some(Element::Cm),  // Cm
                (66u8, 107u8) => Some(Element::Bk),  // Bk
                (67u8, 102u8) => Some(Element::Cf),  // Cf
                (69u8, 115u8) => Some(Element::Es),  // Es
                (70u8, 109u8) => Some(Element::Fm),  // Fm
                (77u8, 100u8) => Some(Element::Md),  // Md
                (78u8, 111u8) => Some(Element::No),  // No
                (76u8, 114u8) => Some(Element::Lr),  // Lr
                (82u8, 102u8) => Some(Element::Rf),  // Rf
                (68u8, 98u8) => Some(Element::Db),  // Db
                (83u8, 103u8) => Some(Element::Sg),  // Sg
                (66u8, 104u8) => Some(Element::Bh),  // Bh
                (72u8, 115u8) => Some(Element::Hs),  // Hs
                (77u8, 116u8) => Some(Element::Mt),  // Mt
                (68u8, 115u8) => Some(Element::Ds),  // Ds
                (82u8, 103u8) => Some(Element::Rg),  // Rg
                (67u8, 110u8) => Some(Element::Cn),  // Cn
                (78u8, 104u8) => Some(Element::Nh),  // Nh
                (70u8, 108u8) => Some(Element::Fl),  // Fl
                (77u8, 99u8) => Some(Element::Mc),  // Mc
                (76u8, 118u8) => Some(Element::Lv),  // Lv
                (84u8, 115u8) => Some(Element::Ts),  // Ts
                (79u8, 103u8) => Some(Element::Og),  // Og
                _ => None,
            }
        },
    }
}

} // verus!
