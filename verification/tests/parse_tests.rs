use molgraph::ast::{Atom, Branch, BranchedAtom, Chain, ChainBond, RingBond, Symbol};
use molgraph::element::Element;
use molgraph::molecule::Bond;
use molgraph::parse::{
    atom, atom_class, bond, bracket_atom, branch, branched_atom, chain, charge, digit_m_n,
    hydrogens, isotope, organic_atom, organic_symbol, ring_bond, symbol,
};

/// A simple branched atom with no ring bonds or branches.
fn s_ba(element: Element) -> BranchedAtom {
    BranchedAtom {
        atom: Atom {
            isotope: None,
            symbol: Symbol::Element(element),
            hydrogens: None,
            charge: None,
            atom_class: None,
        },
        ring_bonds: vec![],
        branches: vec![],
    }
}

fn bs_ba(element: Element, branches: Vec<Branch>) -> BranchedAtom {
    let mut ba = s_ba(element);
    ba.branches = branches;
    ba
}

/// A simple straight chain of unwritten bonds.
fn s_cn(elements: &[Element]) -> Chain {
    let init = Chain::BranchedAtom(s_ba(*elements.first().expect("Empty vector")));
    a_cn(init, &elements[1..])
}

/// Extends an existing chain by a simple straight chain.
fn a_cn(chain: Chain, elements: &[Element]) -> Chain {
    elements.iter().fold(chain, |chain, el| {
        Chain::ChainBond(ChainBond {
            bond: None,
            branched_atom: s_ba(*el),
            chain: Box::new(chain),
        })
    })
}

#[test]
fn can_parse_digit_m_n() {
    assert_eq!(digit_m_n(b"42", 0, 2, 2), Some(2));
    assert_eq!(digit_m_n(b"42", 0, 1, 3), Some(2));
    assert_eq!(digit_m_n(b"4", 0, 1, 3), Some(1));
    assert_eq!(digit_m_n(b"426", 0, 1, 3), Some(3));
    assert_eq!(digit_m_n(b"426", 0, 1, 2), Some(2));
    assert_eq!(digit_m_n(b"4", 0, 2, 3), None);

    // A failed window consumes nothing: a shorter window still matches at
    // the same position.
    assert_eq!(digit_m_n(b"4", 0, 2, 2), None);
    assert_eq!(digit_m_n(b"4", 0, 0, 3), Some(1));
}

#[test]
fn can_parse_hydrogens() {
    assert_eq!(hydrogens(b"H3", 0), Some((2, 3)));
    assert_eq!(hydrogens(b"H", 0), Some((1, 1)));
    assert_eq!(hydrogens(b"H25", 0), Some((2, 2)));
    assert_eq!(hydrogens(b"X2", 0), None);
}

#[test]
fn can_parse_charge() {
    assert_eq!(charge(b"+3", 0), Some((2, 3)));
    assert_eq!(charge(b"-9", 0), Some((2, -9)));
    assert_eq!(charge(b"+15", 0), Some((3, 15)));
    assert_eq!(charge(b"-155", 0), Some((3, -15)));
    assert_eq!(charge(b"-", 0), Some((1, -1)));
    assert_eq!(charge(b"+", 0), Some((1, 1)));
    assert_eq!(charge(b"3", 0), None);
}

#[test]
fn can_parse_organic_symbol() {
    assert_eq!(organic_symbol(b"C", 0), Some((1, Symbol::Element(Element::C))));
    assert_eq!(organic_symbol(b"CL", 0), Some((1, Symbol::Element(Element::C))));
    assert_eq!(organic_symbol(b"Cl", 0), Some((2, Symbol::Element(Element::Cl))));
    assert_eq!(organic_symbol(b"n", 0), Some((1, Symbol::Aromatic(Element::N))));
    assert_eq!(organic_symbol(b"*", 0), Some((1, Symbol::Wildcard)));
    assert_eq!(organic_symbol(b"as", 0), None);
    assert_eq!(organic_symbol(b"Au", 0), None);
}

#[test]
fn can_parse_symbol() {
    assert_eq!(symbol(b"C", 0), Some((1, Symbol::Element(Element::C))));
    assert_eq!(symbol(b"CL", 0), Some((1, Symbol::Element(Element::C))));
    assert_eq!(symbol(b"Cl", 0), Some((2, Symbol::Element(Element::Cl))));
    assert_eq!(symbol(b"n", 0), Some((1, Symbol::Aromatic(Element::N))));
    assert_eq!(symbol(b"*", 0), Some((1, Symbol::Wildcard)));
    assert_eq!(symbol(b"as", 0), Some((2, Symbol::Aromatic(Element::As))));
    assert_eq!(symbol(b"Au", 0), Some((2, Symbol::Element(Element::Au))));
    assert_eq!(symbol(b"Xy", 0), None);
}

#[test]
fn can_parse_atom_class() {
    assert_eq!(atom_class(b":42]", 0), Some((3, 42usize)));
    assert_eq!(atom_class(b":]", 0), None);
    assert_eq!(atom_class(b"42]", 0), None);
}

#[test]
fn can_parse_isotope() {
    assert_eq!(isotope(b"12C", 0), Some((2, 12u16)));
    assert_eq!(isotope(b"999Og", 0), Some((3, 999u16)));
    // The window is three digits wide; a longer run is a partial match and
    // the rest is left over.
    assert_eq!(isotope(b"1234C", 0), Some((3, 123u16)));
    assert_eq!(isotope(b"C", 0), None);
}

#[test]
fn can_parse_bond() {
    assert_eq!(bond(b"-C", 0), Some((1, Bond::Single)));
    assert_eq!(bond(b"=C", 0), Some((1, Bond::Double)));
    assert_eq!(bond(b"#C", 0), Some((1, Bond::Triple)));
    assert_eq!(bond(b":C", 0), Some((1, Bond::Aromatic)));
    assert_eq!(bond(b"~C", 0), None);
}

#[test]
fn can_parse_ring_bond() {
    fn rb(bond: Option<Bond>, ring_number: usize) -> RingBond {
        RingBond { bond, ring_number }
    }

    assert_eq!(ring_bond(b"=1C", 0), Some((2, rb(Some(Bond::Double), 1))));
    assert_eq!(ring_bond(b"9c", 0), Some((1, rb(None, 9))));
    assert_eq!(ring_bond(b"#24N", 0), Some((2, rb(Some(Bond::Triple), 2))));
    assert_eq!(ring_bond(b"#%24N", 0), Some((4, rb(Some(Bond::Triple), 24))));
    assert_eq!(ring_bond(b"%245N", 0), Some((3, rb(None, 24))));
    assert_eq!(ring_bond(b"=C", 0), None);
}

fn br_atom(
    symbol: Symbol,
    isotope: Option<u16>,
    hydrogens: Option<u8>,
    charge: Option<i8>,
    atom_class: Option<usize>,
) -> Atom {
    Atom { isotope, symbol, hydrogens, charge, atom_class }
}

#[test]
fn can_parse_bracket_atom() {
    assert_eq!(
        bracket_atom(b"[12CH3+:2]", 0),
        Some((
            10,
            br_atom(Symbol::Element(Element::C), Some(12), Some(3), Some(1), Some(2))
        ))
    );
    assert_eq!(
        bracket_atom(b"[Br]", 0),
        Some((4, br_atom(Symbol::Element(Element::Br), None, None, None, None)))
    );
    assert_eq!(
        bracket_atom(b"[nH-2:35]CC", 0),
        Some((
            9,
            br_atom(Symbol::Aromatic(Element::N), None, Some(1), Some(-2), Some(35))
        ))
    );
    assert_eq!(bracket_atom(b"[1h+:1]", 0), None);
    assert_eq!(bracket_atom(b"[1+:1]", 0), None);
    assert_eq!(bracket_atom(b"[]", 0), None);
}

#[test]
fn can_parse_organic_atom() {
    assert_eq!(
        organic_atom(b"Br", 0),
        Some((2, br_atom(Symbol::Element(Element::Br), None, None, None, None)))
    );
    assert_eq!(
        organic_atom(b"OBr", 0),
        Some((1, br_atom(Symbol::Element(Element::O), None, None, None, None)))
    );
    assert_eq!(
        organic_atom(b"nCl", 0),
        Some((1, br_atom(Symbol::Aromatic(Element::N), None, None, None, None)))
    );
    assert_eq!(
        organic_atom(b"*C", 0),
        Some((1, br_atom(Symbol::Wildcard, None, None, None, None)))
    );
}

#[test]
fn can_parse_atom() {
    assert_eq!(
        atom(b"[12CH3+:2]CC", 0),
        Some((
            10,
            br_atom(Symbol::Element(Element::C), Some(12), Some(3), Some(1), Some(2))
        ))
    );
    assert_eq!(
        atom(b"OBr", 0),
        Some((1, br_atom(Symbol::Element(Element::O), None, None, None, None)))
    );
}

#[test]
fn can_parse_chain() {
    assert_eq!(chain(b"CC", 0), Some((2, s_cn(&[Element::C, Element::C]))));
    assert_eq!(
        chain(b"CCOC", 0),
        Some((4, s_cn(&[Element::C, Element::C, Element::O, Element::C])))
    );
    assert_eq!(
        chain(b"N=CCO", 0),
        Some((
            5,
            a_cn(
                Chain::ChainBond(ChainBond {
                    bond: Some(Bond::Double),
                    branched_atom: s_ba(Element::C),
                    chain: Box::new(Chain::BranchedAtom(s_ba(Element::N))),
                }),
                &[Element::C, Element::O],
            )
        ))
    );
}

#[test]
fn can_parse_branches() {
    assert_eq!(
        branch(b"(CCO)", 0),
        Some((
            5,
            Branch { bond: None, chain: s_cn(&[Element::C, Element::C, Element::O]) }
        ))
    );
    assert_eq!(
        branch(b"(=CN)C", 0),
        Some((
            5,
            Branch { bond: Some(Bond::Double), chain: s_cn(&[Element::C, Element::N]) }
        ))
    );
    assert_eq!(
        branch(b"(-CN)C", 0),
        Some((
            5,
            Branch { bond: Some(Bond::Single), chain: s_cn(&[Element::C, Element::N]) }
        ))
    );
    assert_eq!(
        branch(b"(-C)C", 0),
        Some((4, Branch { bond: Some(Bond::Single), chain: s_cn(&[Element::C]) }))
    );
}

#[test]
fn can_parse_branched_atom() {
    assert_eq!(
        branched_atom(b"C(CO)CC", 0),
        Some((
            5,
            bs_ba(
                Element::C,
                vec![Branch { bond: None, chain: s_cn(&[Element::C, Element::O]) }],
            )
        ))
    );
    assert_eq!(
        branched_atom(b"N(-CO)(CO)CC", 0),
        Some((
            10,
            bs_ba(
                Element::N,
                vec![
                    Branch { bond: Some(Bond::Single), chain: s_cn(&[Element::C, Element::O]) },
                    Branch { bond: None, chain: s_cn(&[Element::C, Element::O]) },
                ],
            )
        ))
    );
    assert_eq!(
        branched_atom(b"N(-C)(CC)CC", 0),
        Some((
            9,
            bs_ba(
                Element::N,
                vec![
                    Branch { bond: Some(Bond::Single), chain: s_cn(&[Element::C]) },
                    Branch { bond: None, chain: s_cn(&[Element::C, Element::C]) },
                ],
            )
        ))
    );
    assert_eq!(
        branched_atom(b"[N+](CC)(CC)(CC)CC", 0),
        Some((
            16,
            BranchedAtom {
                atom: Atom {
                    isotope: None,
                    symbol: Symbol::Element(Element::N),
                    charge: Some(1),
                    hydrogens: None,
                    atom_class: None,
                },
                ring_bonds: vec![],
                branches: vec![
                    Branch { bond: None, chain: s_cn(&[Element::C, Element::C]) },
                    Branch { bond: None, chain: s_cn(&[Element::C, Element::C]) },
                    Branch { bond: None, chain: s_cn(&[Element::C, Element::C]) },
                ],
            }
        ))
    );
}
