use molgraph::builder::{molecule_from_smiles, ParseError};
use molgraph::element::Element;
use molgraph::molecule::{Atom, Bond, Molecule};

fn atom(element: Element) -> Atom {
    Atom { element }
}

#[test]
fn greedy_two_letter_elements() {
    // "Cl" must be chlorine, never carbon with a stray letter, so "ClBr"
    // is a two-atom molecule.
    let parsed = molecule_from_smiles("ClBr").unwrap();
    let mut built = Molecule::new();
    let cl = built.add_atom(atom(Element::Cl));
    let br = built.add_atom(atom(Element::Br));
    built.add_bond(cl, br, Bond::Single).unwrap();
    assert_eq!(parsed, built);
}

#[test]
fn charge_above_fifteen_fails() {
    // The magnitude limit refuses the charge, so the bracket atom cannot
    // close and the whole parse fails; nothing is clamped.
    assert_eq!(molecule_from_smiles("[C+16]"), Err(ParseError::Syntax));
    assert_eq!(molecule_from_smiles("[N-99]"), Err(ParseError::Syntax));
    // At the limit itself the parse goes through.
    assert!(molecule_from_smiles("[C+15]").is_ok());
}

#[test]
fn parse_order_independent() {
    // The same molecule written from either end compares equal.
    assert_eq!(molecule_from_smiles("CN"), molecule_from_smiles("NC"));
    assert_eq!(molecule_from_smiles("CCO"), molecule_from_smiles("OCC"));
}

#[test]
fn duplicate_bond_leaves_molecule_unchanged() {
    let mut mol = Molecule::new();
    let a = mol.add_atom(atom(Element::C));
    let b = mol.add_atom(atom(Element::N));
    mol.add_bond(a, b, Bond::Single).unwrap();
    assert_eq!(mol.add_bond(b, a, Bond::Double), Err(()));

    let mut same = Molecule::new();
    let a2 = same.add_atom(atom(Element::C));
    let b2 = same.add_atom(atom(Element::N));
    same.add_bond(a2, b2, Bond::Single).unwrap();
    assert_eq!(mol, same);
}

#[test]
fn self_bond_rejected() {
    let mut mol = Molecule::new();
    let a = mol.add_atom(atom(Element::C));
    assert_eq!(mol.add_bond(a, a, Bond::Single), Err(()));
}

#[test]
fn scenario_two_atom_chain() {
    // "CN" is two atoms joined by one single bond.
    let parsed = molecule_from_smiles("CN").unwrap();
    let mut built = Molecule::new();
    let ci = built.add_atom(atom(Element::C));
    let ni = built.add_atom(atom(Element::N));
    built.add_bond(ci, ni, Bond::Single).unwrap();
    assert_eq!(parsed, built);
}

#[test]
fn scenario_three_atom_path() {
    // "CCN" is a three-atom path with two single bonds.
    let parsed = molecule_from_smiles("CCN").unwrap();
    let mut built = Molecule::new();
    let c1 = built.add_atom(atom(Element::C));
    let c2 = built.add_atom(atom(Element::C));
    let ni = built.add_atom(atom(Element::N));
    built.add_bond(c1, c2, Bond::Single).unwrap();
    built.add_bond(c2, ni, Bond::Single).unwrap();
    assert_eq!(parsed, built);
}

#[test]
fn scenario_ring_closure() {
    // A shared ring digit on the first and the last atom closes the ring
    // with exactly one extra bond.
    let parsed = molecule_from_smiles("C1CC1").unwrap();
    let mut built = Molecule::new();
    let a = built.add_atom(atom(Element::C));
    let b = built.add_atom(atom(Element::C));
    let c = built.add_atom(atom(Element::C));
    built.add_bond(a, b, Bond::Single).unwrap();
    built.add_bond(b, c, Bond::Single).unwrap();
    built.add_bond(c, a, Bond::Single).unwrap();
    assert_eq!(parsed, built);

    // Without the extra bond the molecules differ.
    let open = molecule_from_smiles("CCC").unwrap();
    assert!(parsed != open);
}

#[test]
fn scenario_double_bond() {
    let parsed = molecule_from_smiles("N=C").unwrap();
    let mut built = Molecule::new();
    let ni = built.add_atom(atom(Element::N));
    let ci = built.add_atom(atom(Element::C));
    built.add_bond(ni, ci, Bond::Double).unwrap();
    assert_eq!(parsed, built);

    let single = molecule_from_smiles("NC").unwrap();
    assert!(parsed != single);
}

#[test]
fn scenario_branch() {
    // "CC(O)N": the oxygen hangs off the second carbon.
    let parsed = molecule_from_smiles("CC(O)N").unwrap();
    let mut built = Molecule::new();
    let c1 = built.add_atom(atom(Element::C));
    let c2 = built.add_atom(atom(Element::C));
    let o = built.add_atom(atom(Element::O));
    let ni = built.add_atom(atom(Element::N));
    built.add_bond(c1, c2, Bond::Single).unwrap();
    built.add_bond(c2, o, Bond::Single).unwrap();
    built.add_bond(c2, ni, Bond::Single).unwrap();
    assert_eq!(parsed, built);
}

#[test]
fn error_empty_input() {
    assert_eq!(molecule_from_smiles(""), Err(ParseError::Syntax));
}

#[test]
fn error_trailing_input() {
    assert_eq!(molecule_from_smiles("C)"), Err(ParseError::TrailingInput));
}

#[test]
fn error_dangling_ring_number() {
    assert_eq!(molecule_from_smiles("C1CC"), Err(ParseError::DanglingRingBond));
}

#[test]
fn error_ring_bond_conflict() {
    // Both ends write an explicit bond and the two disagree.
    assert_eq!(molecule_from_smiles("C=1CC#1"), Err(ParseError::RingBondConflict));
    // Agreeing explicit bonds are fine.
    assert!(molecule_from_smiles("C=1CC=1").is_ok());
}

#[test]
fn error_ring_bond_to_self() {
    assert_eq!(molecule_from_smiles("C11"), Err(ParseError::SelfRingBond));
}

#[test]
fn error_duplicate_ring_bond() {
    // The ring closure would double the bond the chain already has.
    assert_eq!(molecule_from_smiles("C1C1"), Err(ParseError::DuplicateRingBond));
}

#[test]
fn error_wildcard_atom() {
    assert_eq!(molecule_from_smiles("*"), Err(ParseError::WildcardAtom));
}

#[test]
fn ring_bond_type_taken_from_either_end() {
    // The one explicit bond of the pair is used for the closing bond.
    let first = molecule_from_smiles("C=1CC1").unwrap();
    let second = molecule_from_smiles("C1CC=1").unwrap();
    assert_eq!(first, second);
    let plain = molecule_from_smiles("C1CC1").unwrap();
    assert!(first != plain);
}

#[test]
fn molecule_clone_equal() {
    let mol = molecule_from_smiles("CC(O)N").unwrap();
    let copy = mol.clone();
    assert_eq!(mol, copy);
}

#[test]
fn bracket_molecule_parses() {
    // A bracket atom with every field set still builds a one-atom
    // molecule carrying its element.
    let parsed = molecule_from_smiles("[12CH3+:2]").unwrap();
    let mut built = Molecule::new();
    built.add_atom(atom(Element::C));
    assert_eq!(parsed, built);
}

#[test]
fn isotope_window_is_three_digits() {
    // Three digits fill the isotope field.
    assert!(molecule_from_smiles("[999C]").is_ok());
    // A fourth digit is left over, where no symbol can start, so the
    // bracket atom fails.
    assert_eq!(molecule_from_smiles("[1234C]"), Err(ParseError::Syntax));
    assert_eq!(molecule_from_smiles("[99999C]"), Err(ParseError::Syntax));
}
