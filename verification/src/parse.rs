use vstd::prelude::*;

use crate::ast::Atom;
use crate::ast::Branch;
use crate::ast::BranchedAtom;
use crate::ast::Chain;
use crate::ast::ChainBond;
use crate::ast::RingBond;
use crate::ast::SpecBranch;
use crate::ast::SpecBranchedAtom;
use crate::ast::SpecChain;
use crate::ast::SpecChainBond;
use crate::ast::Symbol;
use crate::ast::view_branch;
use crate::ast::view_branches;
use crate::element::Element;
use crate::element::element_from_bytes;
use crate::element::spec_element_from;
use crate::molecule::Bond;

verus! {

// The notation's punctuation, as ASCII byte values.
pub const B_LBRACK: u8 = 91;  // '['
pub const B_RBRACK: u8 = 93;  // ']'
pub const B_LPAREN: u8 = 40;  // '('
pub const B_RPAREN: u8 = 41;  // ')'
pub const B_PLUS: u8 = 43;  // '+'
pub const B_MINUS: u8 = 45;  // '-'
pub const B_EQUALS: u8 = 61;  // '='
pub const B_HASH: u8 = 35;  // '#'
pub const B_COLON: u8 = 58;  // ':'
pub const B_PERCENT: u8 = 37;  // '%'
pub const B_STAR: u8 = 42;  // '*'
pub const B_UPPER_H: u8 = 72;  // 'H'

/// Whether `c` is an ASCII decimal digit.
pub open spec fn is_digit(c: u8) -> bool {
    48 <= c <= 57
}

/// The numeric value of a digit byte.
pub open spec fn digit_val(c: u8) -> int {
    c - 48
}

/// Whether `c` is an ASCII upper-case letter.
pub open spec fn is_upper(c: u8) -> bool {
    65 <= c <= 90
}

/// Whether `c` is an ASCII lower-case letter.
pub open spec fn is_lower(c: u8) -> bool {
    97 <= c <= 122
}

/// The position just after the longest run of digits that starts at `i` and
/// holds at most `max` digits.
pub open spec fn digit_run_end(s: Seq<u8>, i: int, max: int) -> int
    decreases max,
{
    if max <= 0 || i < 0 || i >= s.len() || !is_digit(s[i]) {
        i
    } else {
        digit_run_end(s, i + 1, max - 1)
    }
}

/// The position just after the longest run of digits that starts at `i`.
pub open spec fn digit_run_end_unb(s: Seq<u8>, i: int) -> int
    decreases s.len() - i,
{
    if i < 0 || i >= s.len() || !is_digit(s[i]) {
        i
    } else {
        digit_run_end_unb(s, i + 1)
    }
}

/// The number that the digits at positions `i` up to `j` spell out.
pub open spec fn digits_val(s: Seq<u8>, i: int, j: int) -> int
    decreases j - i,
{
    if j <= i {
        0
    } else {
        digits_val(s, i, j - 1) * 10 + digit_val(s[j - 1])
    }
}

pub proof fn lemma_digit_run_end(s: Seq<u8>, i: int, max: int)
    requires
        0 <= i <= s.len(),
        0 <= max,
    ensures
        i <= digit_run_end(s, i, max) <= s.len(),
        digit_run_end(s, i, max) <= i + max,
        forall|k: int| i <= k < digit_run_end(s, i, max) ==> is_digit(#[trigger] s[k]),
    decreases max,
{
    if !(max <= 0 || i >= s.len() || !is_digit(s[i])) {
        lemma_digit_run_end(s, i + 1, max - 1);
    }
}

pub proof fn lemma_digit_run_end_unb(s: Seq<u8>, i: int)
    requires
        0 <= i <= s.len(),
    ensures
        i <= digit_run_end_unb(s, i) <= s.len(),
        forall|k: int| i <= k < digit_run_end_unb(s, i) ==> is_digit(#[trigger] s[k]),
    decreases s.len() - i,
{
    if !(i >= s.len() || !is_digit(s[i])) {
        lemma_digit_run_end_unb(s, i + 1);
    }
}

/// Ten to the power `n`.
pub open spec fn pow10(n: int) -> int
    decreases n,
{
    if n <= 0 {
        1
    } else {
        10 * pow10(n - 1)
    }
}

pub proof fn lemma_digits_val_bounds(s: Seq<u8>, i: int, j: int)
    requires
        0 <= i <= j <= s.len(),
        forall|k: int| i <= k < j ==> is_digit(#[trigger] s[k]),
    ensures
        0 <= digits_val(s, i, j) < pow10(j - i),
    decreases j - i,
{
    if j > i {
        lemma_digits_val_bounds(s, i, j - 1);
    }
}

pub proof fn lemma_digits_val_monotone(s: Seq<u8>, i: int, k: int, j: int)
    requires
        0 <= i <= k <= j <= s.len(),
        forall|t: int| i <= t < j ==> is_digit(#[trigger] s[t]),
    ensures
        digits_val(s, i, k) <= digits_val(s, i, j),
    decreases j - k,
{
    if k < j {
        lemma_digits_val_bounds(s, i, j - 1);
        lemma_digits_val_monotone(s, i, k, j - 1);
    }
}

/// Whether the exec outcome `r` of a parsing rule agrees with the spec
/// outcome `sp`: both fail, or both succeed with the same end position and
/// the same value.
pub open spec fn result_matches<T>(r: Option<(usize, T)>, sp: Option<(int, T)>) -> bool {
    match (r, sp) {
        (Some(re), Some(se)) => re.0 as int == se.0 && re.1 == se.1,
        (None, None) => true,
        _ => false,
    }
}

/// The end of a run of at least `m` and at most `n` digits starting at `i`,
/// or nothing when fewer than `m` digits stand there. A longer run is cut
/// off after `n` digits, which are not an error.
pub open spec fn spec_digit_m_n(s: Seq<u8>, i: int, m: int, n: int) -> Option<int> {
    let j = digit_run_end(s, i, n);
    if j - i >= m {
        Some(j)
    } else {
        None
    }
}

/// Recognizes at least `m` and at most `n` digits greedily; returns the
/// position just after them. Fails, consuming nothing, on fewer than `m`
/// digits.
pub fn digit_m_n(s: &[u8], i: usize, m: usize, n: usize) -> (r: Option<usize>)
    ensures
        match (r, spec_digit_m_n(s@, i as int, m as int, n as int)) {
            (Some(re), Some(se)) => re as int == se,
            (None, None) => true,
            _ => false,
        },
{
    if i > s.len() {
        // Past the end no digits stand; succeed only when none are asked for.
        if m == 0 {
            return Some(i);
        }
        return None;
    }
    let mut j = i;
    while j < s.len() && j - i < n && s[j] >= 48 && s[j] <= 57
        invariant
            i <= j <= s.len(),
            j - i <= n,
            digit_run_end(s@, i as int, n as int) == digit_run_end(s@, j as int, n - (j - i)),
        decreases s@.len() - j,
    {
        j = j + 1;
    }
    if j - i >= m {
        Some(j)
    } else {
        None
    }
}

/// The bond symbol at `i`: `-`, `=`, `#` or `:`.
pub open spec fn spec_bond(s: Seq<u8>, i: int) -> Option<(int, Bond)> {
    if 0 <= i < s.len() {
        if s[i] == B_MINUS {
            Some((i + 1, Bond::Single))
        } else if s[i] == B_EQUALS {
            Some((i + 1, Bond::Double))
        } else if s[i] == B_HASH {
            Some((i + 1, Bond::Triple))
        } else if s[i] == B_COLON {
            Some((i + 1, Bond::Aromatic))
        } else {
            None
        }
    } else {
        None
    }
}

/// Recognizes one bond symbol.
pub fn bond(s: &[u8], i: usize) -> (r: Option<(usize, Bond)>)
    ensures
        result_matches(r, spec_bond(s@, i as int)),
{
    if i < s.len() {
        let c = s[i];
        if c == B_MINUS {
            Some((i + 1, Bond::Single))
        } else if c == B_EQUALS {
            Some((i + 1, Bond::Double))
        } else if c == B_HASH {
            Some((i + 1, Bond::Triple))
        } else if c == B_COLON {
            Some((i + 1, Bond::Aromatic))
        } else {
            None
        }
    } else {
        None
    }
}

/// The hydrogen count written at `i`: the letter `H` followed by at most
/// one digit, which defaults to 1 when left out.
pub open spec fn spec_hydrogens(s: Seq<u8>, i: int) -> Option<(int, u8)> {
    if 0 <= i < s.len() && s[i] == B_UPPER_H {
        if i + 1 < s.len() && is_digit(s[i + 1]) {
            Some((i + 2, digit_val(s[i + 1]) as u8))
        } else {
            Some((i + 1, 1u8))
        }
    } else {
        None
    }
}

/// Recognizes a hydrogen count.
pub fn hydrogens(s: &[u8], i: usize) -> (r: Option<(usize, u8)>)
    ensures
        result_matches(r, spec_hydrogens(s@, i as int)),
{
    if i < s.len() && s[i] == B_UPPER_H {
        if i + 1 < s.len() && s[i + 1] >= 48 && s[i + 1] <= 57 {
            Some((i + 2, s[i + 1] - 48))
        } else {
            Some((i + 1, 1))
        }
    } else {
        None
    }
}

/// The charge written at `i`: a sign followed by at most two digits, which
/// default to 1 when left out. A magnitude above 15 is an error, not a
/// value to clamp.
pub open spec fn spec_charge(s: Seq<u8>, i: int) -> Option<(int, i8)> {
    if 0 <= i < s.len() && (s[i] == B_PLUS || s[i] == B_MINUS) {
        let j = digit_run_end(s, i + 1, 2);
        if j == i + 1 {
            Some((i + 1, if s[i] == B_PLUS { 1i8 } else { -1i8 }))
        } else {
            let v = digits_val(s, i + 1, j);
            if v <= 15 {
                Some((j, (if s[i] == B_PLUS { v } else { -v }) as i8))
            } else {
                None
            }
        }
    } else {
        None
    }
}

/// Recognizes a charge.
pub fn charge(s: &[u8], i: usize) -> (r: Option<(usize, i8)>)
    ensures
        result_matches(r, spec_charge(s@, i as int)),
{
    proof {
        reveal_with_fuel(digit_run_end, 4);
        reveal_with_fuel(digits_val, 4);
    }
    if i < s.len() && (s[i] == B_PLUS || s[i] == B_MINUS) {
        let positive = s[i] == B_PLUS;
        if i + 1 < s.len() && s[i + 1] >= 48 && s[i + 1] <= 57 {
            let d1 = s[i + 1] - 48;
            if i + 2 < s.len() && s[i + 2] >= 48 && s[i + 2] <= 57 {
                let v = d1 as u32 * 10 + (s[i + 2] - 48) as u32;
                if v <= 15 {
                    Some((i + 3, if positive { v as i8 } else { -(v as i8) }))
                } else {
                    None
                }
            } else {
                Some((i + 2, if positive { d1 as i8 } else { -(d1 as i8) }))
            }
        } else {
            Some((i + 1, if positive { 1 } else { -1 }))
        }
    } else {
        None
    }
}

/// The isotope number at `i`: one to three digits. A longer digit run is a
/// partial match, not an error: the rule takes three digits and leaves the
/// rest for what follows.
pub open spec fn spec_isotope(s: Seq<u8>, i: int) -> Option<(int, u16)> {
    if 0 <= i <= s.len() {
        let j = digit_run_end(s, i, 3);
        if j == i {
            None
        } else {
            Some((j, digits_val(s, i, j) as u16))
        }
    } else {
        None
    }
}

/// Recognizes an isotope number.
pub fn isotope(s: &[u8], i: usize) -> (r: Option<(usize, u16)>)
    ensures
        result_matches(r, spec_isotope(s@, i as int)),
{
    if i > s.len() {
        return None;
    }
    proof {
        lemma_digit_run_end(s@, i as int, 3);
        reveal_with_fuel(pow10, 4);
    }
    let ghost end = digit_run_end(s@, i as int, 3);
    let mut j = i;
    let mut v: u32 = 0;
    while j < s.len() && j - i < 3 && s[j] >= 48 && s[j] <= 57
        invariant
            i <= j <= s@.len(),
            j - i <= 3,
            j <= end <= s@.len(),
            end == digit_run_end(s@, i as int, 3),
            end == digit_run_end(s@, j as int, 3 - (j - i)),
            v == digits_val(s@, i as int, j as int),
            v <= 999,
            forall|k: int| i <= k < end ==> is_digit(#[trigger] s@[k]),
        decreases s@.len() - j,
    {
        proof {
            lemma_digits_val_bounds(s@, i as int, j as int);
            reveal_with_fuel(pow10, 4);
            assert(pow10(0) == 1 && pow10(1) == 10 && pow10(2) == 100);
            assert(digit_run_end(s@, j as int, 3 - (j - i)) == digit_run_end(
                s@,
                j + 1,
                2 - (j - i),
            ));
            lemma_digit_run_end(s@, j + 1, 2 - (j - i));
        }
        let d = (s[j] - 48) as u32;
        v = v * 10 + d;
        j = j + 1;
    }
    if j == i {
        None
    } else {
        proof {
            lemma_digits_val_bounds(s@, i as int, j as int);
        }
        Some((j, v as u16))
    }
}

/// The atom class at `i`: a colon followed by one or more digits whose
/// value fits the class field; a larger value is an error.
pub open spec fn spec_atom_class(s: Seq<u8>, i: int) -> Option<(int, usize)> {
    if 0 <= i < s.len() && s[i] == B_COLON {
        let j = digit_run_end_unb(s, i + 1);
        if j == i + 1 {
            None
        } else {
            let v = digits_val(s, i + 1, j);
            if v <= usize::MAX {
                Some((j, v as usize))
            } else {
                None
            }
        }
    } else {
        None
    }
}

/// Recognizes an atom class.
pub fn atom_class(s: &[u8], i: usize) -> (r: Option<(usize, usize)>)
    ensures
        result_matches(r, spec_atom_class(s@, i as int)),
{
    if !(i < s.len() && s[i] == B_COLON) {
        return None;
    }
    proof {
        lemma_digit_run_end_unb(s@, i + 1);
    }
    let ghost end = digit_run_end_unb(s@, i + 1);
    let mut j = i + 1;
    let mut v: u128 = 0;
    while j < s.len() && s[j] >= 48 && s[j] <= 57
        invariant
            i + 1 <= j <= s@.len(),
            j <= end <= s@.len(),
            end == digit_run_end_unb(s@, i + 1),
            end == digit_run_end_unb(s@, j as int),
            v == digits_val(s@, i + 1, j as int),
            v <= usize::MAX,
            forall|k: int| i + 1 <= k < end ==> is_digit(#[trigger] s@[k]),
        decreases s@.len() - j,
    {
        let d = (s[j] - 48) as u128;
        let v2 = v * 10 + d;
        if v2 > usize::MAX as u128 {
            proof {
                assert(digit_run_end_unb(s@, j as int) == digit_run_end_unb(s@, j + 1));
                lemma_digit_run_end_unb(s@, j + 1);
                assert(digits_val(s@, i + 1, j + 1) == v2);
                lemma_digits_val_monotone(s@, i + 1, j + 1, end);
            }
            return None;
        }
        proof {
            assert(digit_run_end_unb(s@, j as int) == digit_run_end_unb(s@, j + 1));
            lemma_digit_run_end_unb(s@, j + 1);
        }
        v = v2;
        j = j + 1;
    }
    if j == i + 1 {
        None
    } else {
        Some((j, v as usize))
    }
}


/// The organic-subset symbol at `i`: one of the elements that may be
/// written without brackets, an aromatic lower-case form, or the wildcard.
/// Two-letter symbols are matched before one-letter ones.
pub open spec fn spec_organic_symbol(s: Seq<u8>, i: int) -> Option<(int, Symbol)> {
    if !(0 <= i < s.len()) {
        None
    } else {
        let c = s[i];
        if c == 67 && i + 1 < s.len() && s[i + 1] == 108 {  // Cl
            Some((i + 2, Symbol::Element(Element::Cl)))
        } else if c == 66 && i + 1 < s.len() && s[i + 1] == 114 {  // Br
            Some((i + 2, Symbol::Element(Element::Br)))
        } else if c == 66 {  // B
            Some((i + 1, Symbol::Element(Element::B)))
        } else if c == 67 {  // C
            Some((i + 1, Symbol::Element(Element::C)))
        } else if c == 78 {  // N
            Some((i + 1, Symbol::Element(Element::N)))
        } else if c == 79 {  // O
            Some((i + 1, Symbol::Element(Element::O)))
        } else if c == 83 {  // S
            Some((i + 1, Symbol::Element(Element::S)))
        } else if c == 80 {  // P
            Some((i + 1, Symbol::Element(Element::P)))
        } else if c == 70 {  // F
            Some((i + 1, Symbol::Element(Element::F)))
        } else if c == 73 {  // I
            Some((i + 1, Symbol::Element(Element::I)))
        } else if c == 98 {  // b
            Some((i + 1, Symbol::Aromatic(Element::B)))
        } else if c == 99 {  // c
            Some((i + 1, Symbol::Aromatic(Element::C)))
        } else if c == 110 {  // n
            Some((i + 1, Symbol::Aromatic(Element::N)))
        } else if c == 111 {  // o
            Some((i + 1, Symbol::Aromatic(Element::O)))
        } else if c == 115 {  // s
            Some((i + 1, Symbol::Aromatic(Element::S)))
        } else if c == 112 {  // p
            Some((i + 1, Symbol::Aromatic(Element::P)))
        } else if c == B_STAR {
            Some((i + 1, Symbol::Wildcard))
        } else {
            None
        }
    }
}

/// Recognizes an organic-subset symbol.
pub fn organic_symbol(s: &[u8], i: usize) -> (r: Option<(usize, Symbol)>)
    ensures
        result_matches(r, spec_organic_symbol(s@, i as int)),
{
    if i >= s.len() {
        return None;
    }
    let c = s[i];
    if c == 67 && i + 1 < s.len() && s[i + 1] == 108 {
        Some((i + 2, Symbol::Element(Element::Cl)))
    } else if c == 66 && i + 1 < s.len() && s[i + 1] == 114 {
        Some((i + 2, Symbol::Element(Element::Br)))
    } else if c == 66 {
        Some((i + 1, Symbol::Element(Element::B)))
    } else if c == 67 {
        Some((i + 1, Symbol::Element(Element::C)))
    } else if c == 78 {
        Some((i + 1, Symbol::Element(Element::N)))
    } else if c == 79 {
        Some((i + 1, Symbol::Element(Element::O)))
    } else if c == 83 {
        Some((i + 1, Symbol::Element(Element::S)))
    } else if c == 80 {
        Some((i + 1, Symbol::Element(Element::P)))
    } else if c == 70 {
        Some((i + 1, Symbol::Element(Element::F)))
    } else if c == 73 {
        Some((i + 1, Symbol::Element(Element::I)))
    } else if c == 98 {
        Some((i + 1, Symbol::Aromatic(Element::B)))
    } else if c == 99 {
        Some((i + 1, Symbol::Aromatic(Element::C)))
    } else if c == 110 {
        Some((i + 1, Symbol::Aromatic(Element::N)))
    } else if c == 111 {
        Some((i + 1, Symbol::Aromatic(Element::O)))
    } else if c == 115 {
        Some((i + 1, Symbol::Aromatic(Element::S)))
    } else if c == 112 {
        Some((i + 1, Symbol::Aromatic(Element::P)))
    } else if c == B_STAR {
        Some((i + 1, Symbol::Wildcard))
    } else {
        None
    }
}

/// The symbol at `i` inside brackets: an upper-case letter with an optional
/// lower-case letter looked up in the element table (the two-letter reading
/// is preferred and is not retried as one letter when the lookup fails), an
/// aromatic symbol, or the wildcard.
pub open spec fn spec_symbol(s: Seq<u8>, i: int) -> Option<(int, Symbol)> {
    if !(0 <= i < s.len()) {
        None
    } else {
        let c = s[i];
        if is_upper(c) {
            if i + 1 < s.len() && is_lower(s[i + 1]) {
                match spec_element_from(c, Some(s[i + 1])) {
                    Some(e) => Some((i + 2, Symbol::Element(e))),
                    None => None,
                }
            } else {
                match spec_element_from(c, None) {
                    Some(e) => Some((i + 1, Symbol::Element(e))),
                    None => None,
                }
            }
        } else if c == 115 && i + 1 < s.len() && s[i + 1] == 101 {  // se
            Some((i + 2, Symbol::Aromatic(Element::Se)))
        } else if c == 97 && i + 1 < s.len() && s[i + 1] == 115 {  // as
            Some((i + 2, Symbol::Aromatic(Element::As)))
        } else if c == 98 {  // b
            Some((i + 1, Symbol::Aromatic(Element::B)))
        } else if c == 99 {  // c
            Some((i + 1, Symbol::Aromatic(Element::C)))
        } else if c == 110 {  // n
            Some((i + 1, Symbol::Aromatic(Element::N)))
        } else if c == 111 {  // o
            Some((i + 1, Symbol::Aromatic(Element::O)))
        } else if c == 115 {  // s
            Some((i + 1, Symbol::Aromatic(Element::S)))
        } else if c == 112 {  // p
            Some((i + 1, Symbol::Aromatic(Element::P)))
        } else if c == B_STAR {
            Some((i + 1, Symbol::Wildcard))
        } else {
            None
        }
    }
}

/// Recognizes a bracket-form symbol.
pub fn symbol(s: &[u8], i: usize) -> (r: Option<(usize, Symbol)>)
    ensures
        result_matches(r, spec_symbol(s@, i as int)),
{
    if i >= s.len() {
        return None;
    }
    let c = s[i];
    if c >= 65 && c <= 90 {
        if i + 1 < s.len() && s[i + 1] >= 97 && s[i + 1] <= 122 {
            match element_from_bytes(c, Some(s[i + 1])) {
                Some(e) => Some((i + 2, Symbol::Element(e))),
                None => None,
            }
        } else {
            match element_from_bytes(c, None) {
                Some(e) => Some((i + 1, Symbol::Element(e))),
                None => None,
            }
        }
    } else if c == 115 && i + 1 < s.len() && s[i + 1] == 101 {
        Some((i + 2, Symbol::Aromatic(Element::Se)))
    } else if c == 97 && i + 1 < s.len() && s[i + 1] == 115 {
        Some((i + 2, Symbol::Aromatic(Element::As)))
    } else if c == 98 {
        Some((i + 1, Symbol::Aromatic(Element::B)))
    } else if c == 99 {
        Some((i + 1, Symbol::Aromatic(Element::C)))
    } else if c == 110 {
        Some((i + 1, Symbol::Aromatic(Element::N)))
    } else if c == 111 {
        Some((i + 1, Symbol::Aromatic(Element::O)))
    } else if c == 115 {
        Some((i + 1, Symbol::Aromatic(Element::S)))
    } else if c == 112 {
        Some((i + 1, Symbol::Aromatic(Element::P)))
    } else if c == B_STAR {
        Some((i + 1, Symbol::Wildcard))
    } else {
        None
    }
}

/// The ring-bond marker at `i`: an optional bond symbol, then one digit or
/// a percent sign with exactly two digits, naming the ring number.
pub open spec fn spec_ring_bond(s: Seq<u8>, i: int) -> Option<(int, RingBond)> {
    let j = match spec_bond(s, i) {
        Some((j, _)) => j,
        None => i,
    };
    let bopt = match spec_bond(s, i) {
        Some((_, b)) => Some(b),
        None => None,
    };
    if 0 <= j < s.len() && is_digit(s[j]) {
        Some((j + 1, RingBond { bond: bopt, ring_number: digit_val(s[j]) as usize }))
    } else if 0 <= j && j < s.len() && s[j] == B_PERCENT && j + 2 < s.len() && is_digit(s[j + 1])
        && is_digit(s[j + 2]) {
        Some(
            (
                j + 3,
                RingBond {
                    bond: bopt,
                    ring_number: (digit_val(s[j + 1]) * 10 + digit_val(s[j + 2])) as usize,
                },
            ),
        )
    } else {
        None
    }
}

/// Recognizes a ring-bond marker.
pub fn ring_bond(s: &[u8], i: usize) -> (r: Option<(usize, RingBond)>)
    ensures
        result_matches(r, spec_ring_bond(s@, i as int)),
{
    let (j, bopt) = match bond(s, i) {
        Some((j, b)) => (j, Some(b)),
        None => (i, None),
    };
    if j < s.len() && s[j] >= 48 && s[j] <= 57 {
        Some((j + 1, RingBond { bond: bopt, ring_number: (s[j] - 48) as usize }))
    } else if j < s.len() && s[j] == B_PERCENT && j + 1 < s.len() && j + 2 < s.len() && s[j + 1]
        >= 48 && s[j + 1] <= 57 && s[j + 2] >= 48 && s[j + 2] <= 57 {
        Some(
            (
                j + 3,
                RingBond {
                    bond: bopt,
                    ring_number: (s[j + 1] - 48) as usize * 10 + (s[j + 2] - 48) as usize,
                },
            ),
        )
    } else {
        None
    }
}

/// The bracketed atom at `i`: `[`, an optional isotope, a symbol, optional
/// hydrogens, an optional charge, an optional atom class, `]`.
pub open spec fn spec_bracket_atom(s: Seq<u8>, i: int) -> Option<(int, Atom)> {
    if !(0 <= i < s.len() && s[i] == B_LBRACK) {
        None
    } else {
        let (j1, iso) = match spec_isotope(s, i + 1) {
            Some((j, v)) => (j, Some(v)),
            None => (i + 1, None),
        };
        match spec_symbol(s, j1) {
            None => None,
            Some((j2, sym)) => {
                let (j3, hyd) = match spec_hydrogens(s, j2) {
                    Some((j, v)) => (j, Some(v)),
                    None => (j2, None),
                };
                let (j4, chg) = match spec_charge(s, j3) {
                    Some((j, v)) => (j, Some(v)),
                    None => (j3, None),
                };
                let (j5, cls) = match spec_atom_class(s, j4) {
                    Some((j, v)) => (j, Some(v)),
                    None => (j4, None),
                };
                if j5 < s.len() && s[j5] == B_RBRACK {
                    Some(
                        (
                            j5 + 1,
                            Atom {
                                isotope: iso,
                                symbol: sym,
                                hydrogens: hyd,
                                charge: chg,
                                atom_class: cls,
                            },
                        ),
                    )
                } else {
                    None
                }
            },
        }
    }
}

/// Recognizes a bracketed atom.
pub fn bracket_atom(s: &[u8], i: usize) -> (r: Option<(usize, Atom)>)
    ensures
        result_matches(r, spec_bracket_atom(s@, i as int)),
{
    if !(i < s.len() && s[i] == B_LBRACK) {
        return None;
    }
    let (j1, iso) = match isotope(s, i + 1) {
        Some((j, v)) => (j, Some(v)),
        None => (i + 1, None),
    };
    match symbol(s, j1) {
        None => None,
        Some((j2, sym)) => {
            let (j3, hyd) = match hydrogens(s, j2) {
                Some((j, v)) => (j, Some(v)),
                None => (j2, None),
            };
            let (j4, chg) = match charge(s, j3) {
                Some((j, v)) => (j, Some(v)),
                None => (j3, None),
            };
            let (j5, cls) = match atom_class(s, j4) {
                Some((j, v)) => (j, Some(v)),
                None => (j4, None),
            };
            if j5 < s.len() && s[j5] == B_RBRACK {
                Some(
                    (
                        j5 + 1,
                        Atom {
                            isotope: iso,
                            symbol: sym,
                            hydrogens: hyd,
                            charge: chg,
                            atom_class: cls,
                        },
                    ),
                )
            } else {
                None
            }
        },
    }
}

/// The organic-subset atom at `i`: a bare symbol, with every bracket field
/// left out.
pub open spec fn spec_organic_atom(s: Seq<u8>, i: int) -> Option<(int, Atom)> {
    match spec_organic_symbol(s, i) {
        Some((j, sym)) => Some(
            (
                j,
                Atom {
                    isotope: None,
                    symbol: sym,
                    hydrogens: None,
                    charge: None,
                    atom_class: None,
                },
            ),
        ),
        None => None,
    }
}

/// Recognizes an organic-subset atom.
pub fn organic_atom(s: &[u8], i: usize) -> (r: Option<(usize, Atom)>)
    ensures
        result_matches(r, spec_organic_atom(s@, i as int)),
{
    match organic_symbol(s, i) {
        Some((j, sym)) => Some(
            (
                j,
                Atom {
                    isotope: None,
                    symbol: sym,
                    hydrogens: None,
                    charge: None,
                    atom_class: None,
                },
            ),
        ),
        None => None,
    }
}

/// The atom at `i`: the bracket form when a bracket stands there, else the
/// organic form.
pub open spec fn spec_atom(s: Seq<u8>, i: int) -> Option<(int, Atom)> {
    if 0 <= i < s.len() && s[i] == B_LBRACK {
        spec_bracket_atom(s, i)
    } else {
        spec_organic_atom(s, i)
    }
}

/// Recognizes an atom, in bracket or organic form.
pub fn atom(s: &[u8], i: usize) -> (r: Option<(usize, Atom)>)
    ensures
        result_matches(r, spec_atom(s@, i as int)),
{
    if i < s.len() && s[i] == B_LBRACK {
        bracket_atom(s, i)
    } else {
        organic_atom(s, i)
    }
}

pub proof fn lemma_ring_bond_progress(s: Seq<u8>, i: int)
    requires
        0 <= i,
        spec_ring_bond(s, i) is Some,
    ensures
        i < spec_ring_bond(s, i)->Some_0.0 <= s.len(),
{
}

pub proof fn lemma_atom_progress(s: Seq<u8>, i: int)
    requires
        0 <= i,
        spec_atom(s, i) is Some,
    ensures
        i < spec_atom(s, i)->Some_0.0 <= s.len(),
{
    if 0 <= i < s.len() && s[i] == B_LBRACK {
        let (j1, iso) = match spec_isotope(s, i + 1) {
            Some((j, v)) => (j, Some(v)),
            None => (i + 1, None),
        };
        lemma_digit_run_end(s, i + 1, 3);
        assert(i + 1 <= j1 <= s.len());
        let (j2, sym) = spec_symbol(s, j1)->Some_0;
        assert(j1 < j2 <= s.len());
        let (j3, hyd) = match spec_hydrogens(s, j2) {
            Some((j, v)) => (j, Some(v)),
            None => (j2, None),
        };
        assert(j2 <= j3 <= s.len());
        let (j4, chg) = match spec_charge(s, j3) {
            Some((j, v)) => (j, Some(v)),
            None => (j3, None),
        };
        if j3 < s.len() {
            lemma_digit_run_end(s, j3 + 1, 2);
        }
        assert(j3 <= j4 <= s.len());
        let (j5, cls) = match spec_atom_class(s, j4) {
            Some((j, v)) => (j, Some(v)),
            None => (j4, None),
        };
        if j4 < s.len() {
            lemma_digit_run_end_unb(s, j4 + 1);
        }
        assert(j4 <= j5 <= s.len());
    }
}


/// The run of ring-bond markers at `i`, greedily: the position after the
/// run and the markers in reading order.
pub open spec fn spec_ring_bonds(s: Seq<u8>, i: int) -> (int, Seq<RingBond>)
    decreases s.len() - i,
{
    match spec_ring_bond(s, i) {
        None => (i, Seq::empty()),
        Some((j, rb)) => {
            if i < j <= s.len() {
                let (k, rest) = spec_ring_bonds(s, j);
                (k, seq![rb] + rest)
            } else {
                (i, Seq::empty())
            }
        },
    }
}

pub proof fn lemma_ring_bonds_bounds(s: Seq<u8>, i: int)
    requires
        0 <= i <= s.len(),
    ensures
        i <= spec_ring_bonds(s, i).0 <= s.len(),
    decreases s.len() - i,
{
    match spec_ring_bond(s, i) {
        None => {},
        Some((j, rb)) => {
            lemma_ring_bond_progress(s, i);
            lemma_ring_bonds_bounds(s, j);
        },
    }
}

/// The branched atom at `i`: an atom, its ring-bond markers, then its
/// branches.
pub open spec fn spec_branched_atom(s: Seq<u8>, i: int) -> Option<(int, SpecBranchedAtom)>
    decreases s.len() - i, 0int,
{
    match spec_atom(s, i) {
        None => None,
        Some((j, a)) => {
            if i < j <= s.len() {
                let (k, rbs) = spec_ring_bonds(s, j);
                if j <= k <= s.len() {
                    let (m, brs) = spec_branches(s, k);
                    Some((m, SpecBranchedAtom { atom: a, ring_bonds: rbs, branches: brs }))
                } else {
                    None
                }
            } else {
                None
            }
        },
    }
}

/// The run of branches at `i`, greedily: the position after the run and the
/// branches in reading order.
pub open spec fn spec_branches(s: Seq<u8>, i: int) -> (int, Seq<SpecBranch>)
    decreases s.len() - i, 4int,
{
    match spec_branch(s, i) {
        None => (i, Seq::empty()),
        Some((j, br)) => {
            if i < j <= s.len() {
                let (k, rest) = spec_branches(s, j);
                (k, seq![br] + rest)
            } else {
                (i, Seq::empty())
            }
        },
    }
}

/// The branch at `i`: an opening parenthesis, an optional bond, a chain,
/// and a closing parenthesis.
pub open spec fn spec_branch(s: Seq<u8>, i: int) -> Option<(int, SpecBranch)>
    decreases s.len() - i, 3int,
{
    if 0 <= i < s.len() && s[i] == B_LPAREN {
        let (j, bopt) = match spec_bond(s, i + 1) {
            Some((j, b)) => (j, Some(b)),
            None => (i + 1, None),
        };
        match spec_chain(s, j) {
            None => None,
            Some((k, ch)) => {
                if k < s.len() && s[k] == B_RPAREN {
                    Some((k + 1, SpecBranch { bond: bopt, chain: ch }))
                } else {
                    None
                }
            },
        }
    } else {
        None
    }
}

/// The chain at `i`: a branched atom followed by further branched atoms,
/// each with an optional bond before it. The resulting tree holds the atom
/// read last at its top.
pub open spec fn spec_chain(s: Seq<u8>, i: int) -> Option<(int, SpecChain)>
    decreases s.len() - i, 2int,
{
    match spec_branched_atom(s, i) {
        None => None,
        Some((j, ba)) => {
            if i < j <= s.len() {
                Some(spec_chain_tail(s, j, SpecChain::BranchedAtom(ba)))
            } else {
                None
            }
        },
    }
}

/// Extends `acc` with the remaining links of a chain starting at `i`: as
/// long as an optional bond and a branched atom stand there, they wrap the
/// accumulated chain.
pub open spec fn spec_chain_tail(s: Seq<u8>, i: int, acc: SpecChain) -> (int, SpecChain)
    decreases s.len() - i, 1int,
{
    let (j, bopt) = match spec_bond(s, i) {
        Some((j, b)) => (j, Some(b)),
        None => (i, None),
    };
    match spec_branched_atom(s, j) {
        None => (i, acc),
        Some((k, ba)) => {
            if i < k <= s.len() {
                spec_chain_tail(
                    s,
                    k,
                    SpecChain::ChainBond(
                        SpecChainBond { bond: bopt, branched_atom: ba, chain: Box::new(acc) },
                    ),
                )
            } else {
                (i, acc)
            }
        },
    }
}

pub proof fn lemma_branched_atom_bounds(s: Seq<u8>, i: int)
    requires
        0 <= i <= s.len(),
        spec_branched_atom(s, i) is Some,
    ensures
        i < spec_branched_atom(s, i)->Some_0.0 <= s.len(),
    decreases s.len() - i, 0int,
{
    let (j, a) = spec_atom(s, i)->Some_0;
    lemma_atom_progress(s, i);
    lemma_ring_bonds_bounds(s, j);
    let (k, rbs) = spec_ring_bonds(s, j);
    lemma_branches_bounds(s, k);
}

pub proof fn lemma_branches_bounds(s: Seq<u8>, i: int)
    requires
        0 <= i <= s.len(),
    ensures
        i <= spec_branches(s, i).0 <= s.len(),
    decreases s.len() - i, 4int,
{
    match spec_branch(s, i) {
        None => {},
        Some((j, br)) => {
            lemma_branch_bounds(s, i);
            if i < j <= s.len() {
                lemma_branches_bounds(s, j);
            }
        },
    }
}

pub proof fn lemma_branch_bounds(s: Seq<u8>, i: int)
    requires
        0 <= i <= s.len(),
        spec_branch(s, i) is Some,
    ensures
        i < spec_branch(s, i)->Some_0.0 <= s.len(),
    decreases s.len() - i, 3int,
{
    let (j, bopt) = match spec_bond(s, i + 1) {
        Some((j, b)) => (j, Some(b)),
        None => (i + 1, None),
    };
    lemma_chain_bounds(s, j);
}

pub proof fn lemma_chain_bounds(s: Seq<u8>, i: int)
    requires
        0 <= i <= s.len(),
    ensures
        spec_chain(s, i) is Some ==> i < spec_chain(s, i)->Some_0.0 <= s.len(),
    decreases s.len() - i, 2int,
{
    match spec_branched_atom(s, i) {
        None => {},
        Some((j, ba)) => {
            lemma_branched_atom_bounds(s, i);
            if i < j <= s.len() {
                lemma_chain_tail_bounds(s, j, SpecChain::BranchedAtom(ba));
            }
        },
    }
}

pub proof fn lemma_chain_tail_bounds(s: Seq<u8>, i: int, acc: SpecChain)
    requires
        0 <= i <= s.len(),
    ensures
        i <= spec_chain_tail(s, i, acc).0 <= s.len(),
    decreases s.len() - i, 1int,
{
    let (j, bopt) = match spec_bond(s, i) {
        Some((j, b)) => (j, Some(b)),
        None => (i, None),
    };
    match spec_branched_atom(s, j) {
        None => {},
        Some((k, ba)) => {
            lemma_branched_atom_bounds(s, j);
            if i < k <= s.len() {
                lemma_chain_tail_bounds(
                    s,
                    k,
                    SpecChain::ChainBond(
                        SpecChainBond { bond: bopt, branched_atom: ba, chain: Box::new(acc) },
                    ),
                );
            }
        },
    }
}

pub proof fn lemma_view_branches_push(s: Seq<Branch>, b: Branch)
    ensures
        view_branches(s.push(b)) == view_branches(s).push(view_branch(b)),
{
    let s2 = s.push(b);
    assert(s2.subrange(0, s2.len() - 1) =~= s);
    assert(s2[s2.len() - 1] == b);
}

/// Whether the exec outcome of the branched-atom rule agrees with the spec
/// outcome, comparing the parsed tree by its shape.
pub open spec fn ba_matches(
    r: Option<(usize, BranchedAtom)>,
    sp: Option<(int, SpecBranchedAtom)>,
) -> bool {
    match (r, sp) {
        (Some(re), Some(se)) => re.0 as int == se.0 && re.1@ == se.1,
        (None, None) => true,
        _ => false,
    }
}

/// Whether the exec outcome of the chain rule agrees with the spec outcome.
pub open spec fn chain_matches(r: Option<(usize, Chain)>, sp: Option<(int, SpecChain)>) -> bool {
    match (r, sp) {
        (Some(re), Some(se)) => re.0 as int == se.0 && re.1@ == se.1,
        (None, None) => true,
        _ => false,
    }
}

/// Whether the exec outcome of the branch rule agrees with the spec
/// outcome.
pub open spec fn branch_matches(
    r: Option<(usize, Branch)>,
    sp: Option<(int, SpecBranch)>,
) -> bool {
    match (r, sp) {
        (Some(re), Some(se)) => re.0 as int == se.0 && re.1@ == se.1,
        (None, None) => true,
        _ => false,
    }
}

/// Recognizes a branched atom: an atom, then its ring-bond markers, then
/// its branches.
pub fn branched_atom(s: &[u8], i: usize) -> (r: Option<(usize, BranchedAtom)>)
    ensures
        ba_matches(r, spec_branched_atom(s@, i as int)),
    decreases s@.len() - i, 0int,
{
    let (j, a) = match atom(s, i) {
        None => {
            return None;
        },
        Some(p) => p,
    };
    proof {
        lemma_atom_progress(s@, i as int);
    }
    let mut rbs: Vec<RingBond> = Vec::new();
    let mut pos = j;
    loop
        invariant
            i < j <= s@.len(),
            j <= pos <= s@.len(),
            spec_ring_bonds(s@, j as int).0 == spec_ring_bonds(s@, pos as int).0,
            spec_ring_bonds(s@, j as int).1 == rbs@ + spec_ring_bonds(s@, pos as int).1,
        ensures
            i < j <= s@.len(),
            j <= pos <= s@.len(),
            spec_ring_bonds(s@, j as int).0 == spec_ring_bonds(s@, pos as int).0,
            spec_ring_bonds(s@, j as int).1 == rbs@ + spec_ring_bonds(s@, pos as int).1,
            spec_ring_bond(s@, pos as int) is None,
        decreases s@.len() - pos,
    {
        match ring_bond(s, pos) {
            Some((k, rb)) => {
                proof {
                    lemma_ring_bond_progress(s@, pos as int);
                    lemma_ring_bonds_bounds(s@, k as int);
                    assert(spec_ring_bonds(s@, pos as int).1 == seq![rb] + spec_ring_bonds(
                        s@,
                        k as int,
                    ).1);
                    assert(rbs@ + (seq![rb] + spec_ring_bonds(s@, k as int).1) =~= rbs@.push(rb)
                        + spec_ring_bonds(s@, k as int).1);
                }
                rbs.push(rb);
                pos = k;
            },
            None => {
                break ;
            },
        }
    }
    proof {
        assert(spec_ring_bonds(s@, pos as int).1 =~= Seq::<RingBond>::empty());
        assert(rbs@ + Seq::<RingBond>::empty() =~= rbs@);
    }
    let ghost rb_end = pos as int;
    let mut brs: Vec<Branch> = Vec::new();
    loop
        invariant
            i < j <= s@.len(),
            j <= rb_end,
            rb_end <= pos <= s@.len(),
            spec_ring_bonds(s@, j as int).0 == rb_end,
            spec_ring_bonds(s@, j as int).1 == rbs@,
            spec_branches(s@, rb_end).0 == spec_branches(s@, pos as int).0,
            spec_branches(s@, rb_end).1 == view_branches(brs@) + spec_branches(s@, pos as int).1,
        ensures
            i < j <= s@.len(),
            rb_end <= pos <= s@.len(),
            spec_ring_bonds(s@, j as int).0 == rb_end,
            spec_ring_bonds(s@, j as int).1 == rbs@,
            spec_branches(s@, rb_end).0 == spec_branches(s@, pos as int).0,
            spec_branches(s@, rb_end).1 == view_branches(brs@) + spec_branches(s@, pos as int).1,
            spec_branch(s@, pos as int) is None,
        decreases s@.len() - pos,
    {
        match branch(s, pos) {
            Some((k, br)) => {
                proof {
                    lemma_branch_bounds(s@, pos as int);
                    lemma_branches_bounds(s@, k as int);
                    assert(spec_branches(s@, pos as int).1 == seq![view_branch(br)]
                        + spec_branches(s@, k as int).1);
                    lemma_view_branches_push(brs@, br);
                    assert(view_branches(brs@) + (seq![view_branch(br)] + spec_branches(
                        s@,
                        k as int,
                    ).1) =~= view_branches(brs@.push(br)) + spec_branches(s@, k as int).1);
                }
                brs.push(br);
                pos = k;
            },
            None => {
                break ;
            },
        }
    }
    proof {
        assert(spec_branches(s@, pos as int).1 =~= Seq::<SpecBranch>::empty());
        assert(view_branches(brs@) + Seq::<SpecBranch>::empty() =~= view_branches(brs@));
    }
    Some((pos, BranchedAtom { atom: a, ring_bonds: rbs, branches: brs }))
}

/// Recognizes a chain: a branched atom followed by further branched atoms,
/// each with an optional bond before it.
pub fn chain(s: &[u8], i: usize) -> (r: Option<(usize, Chain)>)
    ensures
        chain_matches(r, spec_chain(s@, i as int)),
    decreases s@.len() - i, 2int,
{
    let (j, ba) = match branched_atom(s, i) {
        None => {
            return None;
        },
        Some(p) => p,
    };
    proof {
        lemma_branched_atom_bounds(s@, i as int);
    }
    let ghost target = spec_chain_tail(s@, j as int, SpecChain::BranchedAtom(ba@));
    let mut acc = Chain::BranchedAtom(ba);
    let mut pos = j;
    loop
        invariant
            i < pos <= s@.len(),
            spec_chain_tail(s@, pos as int, acc@) == target,
            spec_chain(s@, i as int) == Some(target),
        ensures
            i < pos <= s@.len(),
            spec_chain_tail(s@, pos as int, acc@) == target,
            spec_chain(s@, i as int) == Some(target),
            spec_chain_tail(s@, pos as int, acc@) == (pos as int, acc@),
        decreases s@.len() - pos,
    {
        let (j2, bopt) = match bond(s, pos) {
            Some((k, b)) => (k, Some(b)),
            None => (pos, None),
        };
        match branched_atom(s, j2) {
            None => {
                break ;
            },
            Some((k, ba2)) => {
                proof {
                    lemma_branched_atom_bounds(s@, j2 as int);
                }
                let prev = acc;
                acc = Chain::ChainBond(
                    ChainBond { bond: bopt, branched_atom: ba2, chain: Box::new(prev) },
                );
                pos = k;
            },
        }
    }
    Some((pos, acc))
}

/// Recognizes a branch: a parenthesized chain with an optional bond before
/// it.
pub fn branch(s: &[u8], i: usize) -> (r: Option<(usize, Branch)>)
    ensures
        branch_matches(r, spec_branch(s@, i as int)),
    decreases s@.len() - i, 3int,
{
    if !(i < s.len() && s[i] == B_LPAREN) {
        return None;
    }
    let (j, bopt) = match bond(s, i + 1) {
        Some((k, b)) => (k, Some(b)),
        None => (i + 1, None),
    };
    match chain(s, j) {
        None => None,
        Some((k, ch)) => {
            if k < s.len() && s[k] == B_RPAREN {
                Some((k + 1, Branch { bond: bopt, chain: ch }))
            } else {
                None
            }
        },
    }
}


/// The symbol rule is greedy: whenever an upper-case letter and a
/// lower-case letter stand together and name an element of the table, the
/// rule takes both letters and yields that element; it never stops after
/// the first letter.
pub proof fn lemma_symbol_greedy(s: Seq<u8>, i: int)
    requires
        0 <= i,
        i + 1 < s.len(),
        is_upper(s[i]),
        is_lower(s[i + 1]),
        spec_element_from(s[i], Some(s[i + 1])) is Some,
    ensures
        spec_symbol(s, i) == Some(
            (i + 2, Symbol::Element(spec_element_from(s[i], Some(s[i + 1]))->0)),
        ),
{
}

/// The organic-subset rule prefers its two-letter symbols: `Cl` is
/// chlorine, never carbon with a letter left over, and `Br` is bromine,
/// never boron with a letter left over.
pub proof fn lemma_organic_symbol_greedy(s: Seq<u8>, i: int)
    requires
        0 <= i,
        i + 1 < s.len(),
    ensures
        s[i] == 67 && s[i + 1] == 108 ==> spec_organic_symbol(s, i) == Some(
            (i + 2, Symbol::Element(Element::Cl)),
        ),
        s[i] == 66 && s[i + 1] == 114 ==> spec_organic_symbol(s, i) == Some(
            (i + 2, Symbol::Element(Element::Br)),
        ),
{
}

/// A charge whose magnitude is written above 15 is refused, never clamped:
/// with a sign and two digits spelling a number above 15, the charge rule
/// fails.
pub proof fn lemma_charge_magnitude_limit(s: Seq<u8>, i: int)
    requires
        0 <= i < s.len(),
        s[i] == B_PLUS || s[i] == B_MINUS,
        i + 2 < s.len(),
        is_digit(s[i + 1]),
        is_digit(s[i + 2]),
        digits_val(s, i + 1, i + 3) > 15,
    ensures
        spec_charge(s, i) is None,
{
    reveal_with_fuel(digit_run_end, 4);
    reveal_with_fuel(digits_val, 4);
    assert(digit_run_end(s, i + 1, 2) == i + 3);
}



} // verus!
