use vstd::prelude::*;
use vstd::string::StringSliceAdditionalSpecFns;

use crate::ast::Atom;
use crate::ast::Branch;
use crate::ast::BranchedAtom;
use crate::ast::Chain;
use crate::ast::RingBond;
use crate::ast::SpecBranch;
use crate::ast::SpecBranchedAtom;
use crate::ast::SpecChain;
use crate::ast::Symbol;
use crate::ast::sz_branch;
use crate::ast::sz_branched_atom;
use crate::ast::sz_branches;
use crate::ast::sz_chain;
use crate::ast::lemma_view_branches_props;
use crate::ast::view_branch;
use crate::ast::view_branched_atom;
use crate::ast::view_branches;
use crate::ast::view_chain;
use crate::molecule::Atom as GraphAtom;
use crate::molecule::AtomIndex;
use crate::molecule::bond_between;
use crate::molecule::lemma_atom_index_eq;
use crate::molecule::Bond;
use crate::molecule::Molecule;
use crate::molecule::MoleculeView;
use crate::parse::chain;
use crate::parse::spec_chain;

verus! {

/// Why a text failed to become a molecule. Every variant names a fault of
/// the input itself; faults of the builder's own bookkeeping (an edge
/// inserted twice between fresh atoms) are proved impossible and need no
/// variant.
#[derive(Clone, Copy, PartialEq, Eq, Debug)]
pub enum ParseError {
    /// The text does not match the grammar at some position.
    Syntax,
    /// A prefix of the text matches the grammar, but input is left over.
    TrailingInput,
    /// The two ends of one ring bond name different explicit bonds.
    RingBondConflict,
    /// A ring bond would join an atom to itself.
    SelfRingBond,
    /// A ring bond would join two atoms that a bond already joins.
    DuplicateRingBond,
    /// A ring number is still open when the text ends.
    DanglingRingBond,
    /// A wildcard atom has no element and cannot stand in a molecule.
    WildcardAtom,
}

/// The builder's state: the molecule grown so far and the table of ring
/// numbers seen once, each with its atom and the bond written at it.
#[verifier::ext_equal]
pub ghost struct BuildState {
    pub atoms: Seq<GraphAtom>,
    pub bonds: Map<(int, int), Bond>,
    pub rings: Map<usize, (int, Option<Bond>)>,
}

/// A build state is well formed when every bond joins two distinct atoms,
/// lower index first, and every open ring number names an atom.
pub open spec fn st_wf(st: BuildState) -> bool {
    &&& forall|p: (int, int)| #[trigger] st.bonds.dom().contains(p) ==> 0 <= p.0 < p.1
        < st.atoms.len()
    &&& forall|rn: usize| #[trigger] st.rings.dom().contains(rn) ==> 0 <= st.rings[rn].0
        < st.atoms.len()
}

/// The graph-level atom that a grammar-level atom stands for: its element.
/// A wildcard stands for no element.
pub open spec fn atom_of(a: Atom) -> Option<GraphAtom> {
    match a.symbol {
        Symbol::Element(e) => Some(GraphAtom { element: e }),
        Symbol::Aromatic(e) => Some(GraphAtom { element: e }),
        Symbol::Wildcard => None,
    }
}

/// The bond to use for an edge: the written bond, or single when none is
/// written.
pub open spec fn bond_or_single(b: Option<Bond>) -> Bond {
    match b {
        Some(b) => b,
        None => Bond::Single,
    }
}

/// Resolves one ring-bond marker on the atom with index `n`. The first
/// marker of a ring number records the atom and its bond; the second joins
/// the two recorded atoms and clears the number. A ring bond back to the
/// same atom, a disagreement between two explicit bonds, and a ring bond
/// parallel to an existing bond are faults.
pub open spec fn sb_ring(st: BuildState, rb: RingBond, n: int) -> Result<
    BuildState,
    ParseError,
> {
    if st.rings.dom().contains(rb.ring_number) {
        let (q, qb) = st.rings[rb.ring_number];
        if q == n {
            Err(ParseError::SelfRingBond)
        } else if qb is Some && rb.bond is Some && qb != rb.bond {
            Err(ParseError::RingBondConflict)
        } else if st.bonds.dom().contains((q, n)) || st.bonds.dom().contains((n, q)) {
            Err(ParseError::DuplicateRingBond)
        } else {
            let b = if qb is Some {
                qb->0
            } else {
                bond_or_single(rb.bond)
            };
            Ok(
                BuildState {
                    atoms: st.atoms,
                    bonds: st.bonds.insert((q, n), b),
                    rings: st.rings.remove(rb.ring_number),
                },
            )
        }
    } else {
        Ok(
            BuildState {
                atoms: st.atoms,
                bonds: st.bonds,
                rings: st.rings.insert(rb.ring_number, (n, rb.bond)),
            },
        )
    }
}

/// Resolves the ring-bond markers of one atom, in reading order.
pub open spec fn sb_rings(st: BuildState, rbs: Seq<RingBond>, n: int) -> Result<
    BuildState,
    ParseError,
>
    decreases rbs.len(),
{
    if rbs.len() == 0 {
        Ok(st)
    } else {
        match sb_ring(st, rbs[0], n) {
            Err(e) => Err(e),
            Ok(st2) => sb_rings(st2, rbs.subrange(1, rbs.len() as int), n),
        }
    }
}

pub proof fn lemma_sz_chain_pos(c: SpecChain)
    ensures
        sz_chain(c) >= 1,
    decreases c,
{
    match c {
        SpecChain::BranchedAtom(ba) => {
            assert(sz_branched_atom(ba) >= 1);
        },
        SpecChain::ChainBond(cb) => {
            lemma_sz_chain_pos(*cb.chain);
            assert(sz_branched_atom(cb.branched_atom) >= 1);
        },
    }
}

pub proof fn lemma_sz_branches_elem(s: Seq<SpecBranch>, i: int)
    requires
        0 <= i < s.len(),
    ensures
        sz_branch(s[i]) <= sz_branches(s),
    decreases s.len(),
{
    assert(sz_branches(s) == sz_branch(s[0]) + sz_branches(s.subrange(1, s.len() as int)));
    if i > 0 {
        lemma_sz_branches_elem(s.subrange(1, s.len() as int), i - 1);
    }
}

/// Builds one branched atom: its atom is inserted; an edge joins it to
/// `prev` (the previous atom and the bond written before this one) when
/// there is one; its ring-bond markers are resolved; its branches are built
/// hanging off it.
pub open spec fn sb_branched_atom(
    st: BuildState,
    ba: SpecBranchedAtom,
    prev: Option<(int, Option<Bond>)>,
) -> Result<BuildState, ParseError>
    decreases sz_branched_atom(ba), 0int,
{
    match atom_of(ba.atom) {
        None => Err(ParseError::WildcardAtom),
        Some(ga) => {
            let n = st.atoms.len() as int;
            let bonds1 = match prev {
                None => st.bonds,
                Some((p, ob)) => st.bonds.insert((p, n), bond_or_single(ob)),
            };
            let st1 = BuildState { atoms: st.atoms.push(ga), bonds: bonds1, rings: st.rings };
            match sb_rings(st1, ba.ring_bonds, n) {
                Err(e) => Err(e),
                Ok(st2) => sb_branches(st2, ba.branches, n),
            }
        },
    }
}

/// Builds the branches of one atom, in reading order, each anchored to it.
pub open spec fn sb_branches(st: BuildState, brs: Seq<SpecBranch>, parent: int) -> Result<
    BuildState,
    ParseError,
>
    decreases sz_branches(brs), 4int,
{
    if brs.len() == 0 {
        Ok(st)
    } else {
        proof {
            assert(sz_branches(brs) == sz_branch(brs[0]) + sz_branches(
                brs.subrange(1, brs.len() as int),
            ));
            assert(sz_branch(brs[0]) >= 1);
        }
        match sb_branch(st, brs[0], parent) {
            Err(e) => Err(e),
            Ok(st2) => sb_branches(st2, brs.subrange(1, brs.len() as int), parent),
        }
    }
}

/// Builds one branch: its chain, whose first atom joins the parent atom
/// with the branch's bond.
pub open spec fn sb_branch(st: BuildState, br: SpecBranch, parent: int) -> Result<
    BuildState,
    ParseError,
>
    decreases sz_branch(br), 3int,
{
    match sb_chain(st, br.chain, Some((parent, br.bond))) {
        Err(e) => Err(e),
        Ok((st2, last)) => Ok(st2),
    }
}

/// Builds a chain in reading order, left to right: everything before the
/// topmost atom first, then the topmost atom joined to the last atom built
/// before it. The first atom of the chain joins `parent` when there is one.
/// Besides the new state, the index of the chain's last atom is returned.
pub open spec fn sb_chain(
    st: BuildState,
    c: SpecChain,
    parent: Option<(int, Option<Bond>)>,
) -> Result<(BuildState, int), ParseError>
    decreases sz_chain(c), 2int,
{
    match c {
        SpecChain::BranchedAtom(ba) => {
            let n = st.atoms.len() as int;
            match sb_branched_atom(st, ba, parent) {
                Err(e) => Err(e),
                Ok(st2) => Ok((st2, n)),
            }
        },
        SpecChain::ChainBond(cb) => {
            proof {
                lemma_sz_chain_pos(*cb.chain);
                assert(sz_chain(c) == sz_chain(*cb.chain) + sz_branched_atom(cb.branched_atom));
                assert(sz_branched_atom(cb.branched_atom) >= 1);
            }
            match sb_chain(st, *cb.chain, parent) {
                Err(e) => Err(e),
                Ok((st1, last)) => {
                    let n = st1.atoms.len() as int;
                    match sb_branched_atom(st1, cb.branched_atom, Some((last, cb.bond))) {
                        Err(e) => Err(e),
                        Ok(st2) => Ok((st2, n)),
                    }
                },
            }
        },
    }
}

/// Builds a whole molecule from a chain: start from nothing, build the
/// chain, and demand that no ring number is left open.
pub open spec fn spec_build(c: SpecChain) -> Result<MoleculeView, ParseError> {
    let st0 = BuildState { atoms: Seq::empty(), bonds: Map::empty(), rings: Map::empty() };
    match sb_chain(st0, c, None) {
        Err(e) => Err(e),
        Ok((st, last)) => {
            if st.rings.dom() =~= Set::<usize>::empty() {
                Ok(MoleculeView { atoms: st.atoms, bonds: st.bonds })
            } else {
                Err(ParseError::DanglingRingBond)
            }
        },
    }
}

/// What a text denotes: the chain grammar must match the whole text, and
/// the matched chain must build into a molecule.
pub open spec fn spec_smiles(s: Seq<u8>) -> Result<MoleculeView, ParseError> {
    match spec_chain(s, 0) {
        None => Err(ParseError::Syntax),
        Some((j, c)) => {
            if j != s.len() {
                Err(ParseError::TrailingInput)
            } else {
                spec_build(c)
            }
        },
    }
}

pub proof fn lemma_sb_rings_wf(st: BuildState, rbs: Seq<RingBond>, n: int)
    requires
        st_wf(st),
        st.atoms.len() >= 1,
        n == st.atoms.len() - 1,
    ensures
        match sb_rings(st, rbs, n) {
            Ok(st2) => st_wf(st2) && st2.atoms == st.atoms,
            Err(_) => true,
        },
    decreases rbs.len(),
{
    if rbs.len() > 0 {
        match sb_ring(st, rbs[0], n) {
            Err(_) => {},
            Ok(st2) => {
                lemma_sb_rings_wf(st2, rbs.subrange(1, rbs.len() as int), n);
            },
        }
    }
}

pub proof fn lemma_sb_branched_atom_wf(
    st: BuildState,
    ba: SpecBranchedAtom,
    prev: Option<(int, Option<Bond>)>,
)
    requires
        st_wf(st),
        match prev {
            Some((p, _)) => 0 <= p < st.atoms.len(),
            None => true,
        },
    ensures
        match sb_branched_atom(st, ba, prev) {
            Ok(st2) => st_wf(st2) && st2.atoms.len() >= st.atoms.len() + 1,
            Err(_) => true,
        },
    decreases sz_branched_atom(ba), 0int,
{
    match atom_of(ba.atom) {
        None => {},
        Some(ga) => {
            let n = st.atoms.len() as int;
            let bonds1 = match prev {
                None => st.bonds,
                Some((p, ob)) => st.bonds.insert((p, n), bond_or_single(ob)),
            };
            let st1 = BuildState { atoms: st.atoms.push(ga), bonds: bonds1, rings: st.rings };
            lemma_sb_rings_wf(st1, ba.ring_bonds, n);
            match sb_rings(st1, ba.ring_bonds, n) {
                Err(_) => {},
                Ok(st2) => {
                    lemma_sb_branches_wf(st2, ba.branches, n);
                },
            }
        },
    }
}

pub proof fn lemma_sb_branches_wf(st: BuildState, brs: Seq<SpecBranch>, parent: int)
    requires
        st_wf(st),
        0 <= parent < st.atoms.len(),
    ensures
        match sb_branches(st, brs, parent) {
            Ok(st2) => st_wf(st2) && st2.atoms.len() >= st.atoms.len(),
            Err(_) => true,
        },
    decreases sz_branches(brs), 4int,
{
    if brs.len() > 0 {
        assert(sz_branches(brs) == sz_branch(brs[0]) + sz_branches(
            brs.subrange(1, brs.len() as int),
        ));
        assert(sz_branch(brs[0]) >= 1);
        lemma_sb_branch_wf(st, brs[0], parent);
        match sb_branch(st, brs[0], parent) {
            Err(_) => {},
            Ok(st2) => {
                lemma_sb_branches_wf(st2, brs.subrange(1, brs.len() as int), parent);
            },
        }
    }
}

pub proof fn lemma_sb_branch_wf(st: BuildState, br: SpecBranch, parent: int)
    requires
        st_wf(st),
        0 <= parent < st.atoms.len(),
    ensures
        match sb_branch(st, br, parent) {
            Ok(st2) => st_wf(st2) && st2.atoms.len() >= st.atoms.len(),
            Err(_) => true,
        },
    decreases sz_branch(br), 3int,
{
    lemma_sb_chain_wf(st, br.chain, Some((parent, br.bond)));
}

pub proof fn lemma_sb_chain_wf(
    st: BuildState,
    c: SpecChain,
    parent: Option<(int, Option<Bond>)>,
)
    requires
        st_wf(st),
        match parent {
            Some((p, _)) => 0 <= p < st.atoms.len(),
            None => true,
        },
    ensures
        match sb_chain(st, c, parent) {
            Ok((st2, last)) => st_wf(st2) && st2.atoms.len() >= st.atoms.len() + 1
                && st.atoms.len() <= last < st2.atoms.len(),
            Err(_) => true,
        },
    decreases sz_chain(c), 2int,
{
    match c {
        SpecChain::BranchedAtom(ba) => {
            lemma_sb_branched_atom_wf(st, ba, parent);
        },
        SpecChain::ChainBond(cb) => {
            lemma_sz_chain_pos(*cb.chain);
            assert(sz_chain(c) == sz_chain(*cb.chain) + sz_branched_atom(cb.branched_atom));
            assert(sz_branched_atom(cb.branched_atom) >= 1);
            lemma_sb_chain_wf(st, *cb.chain, parent);
            match sb_chain(st, *cb.chain, parent) {
                Err(_) => {},
                Ok((st1, last)) => {
                    lemma_sb_branched_atom_wf(st1, cb.branched_atom, Some((last, cb.bond)));
                },
            }
        },
    }
}

/// The ring table that a table vector stands for: each slot that holds an
/// atom and a bond is an open ring number.
pub open spec fn rings_of(t: Seq<Option<(AtomIndex, Option<Bond>)>>) -> Map<
    usize,
    (int, Option<Bond>),
> {
    Map::new(
        |rn: usize| 0 <= rn < t.len() && t[rn as int] is Some,
        |rn: usize|
            {
                let p = t[rn as int]->0;
                (p.0@, p.1)
            },
    )
}

/// The build state that a molecule and a table vector stand for.
pub open spec fn st_of(mv: MoleculeView, t: Seq<Option<(AtomIndex, Option<Bond>)>>) -> BuildState {
    BuildState { atoms: mv.atoms, bonds: mv.bonds, rings: rings_of(t) }
}

/// The mathematical form of a previous-atom argument.
pub open spec fn prev_view(p: Option<(AtomIndex, Option<Bond>)>) -> Option<(int, Option<Bond>)> {
    match p {
        None => None,
        Some((ix, b)) => Some((ix@, b)),
    }
}

/// Turns a grammar-level atom into its graph-level atom, when it has one.
fn atom_to_graph(a: &Atom) -> (r: Option<GraphAtom>)
    ensures
        r == atom_of(*a),
{
    match a.symbol {
        Symbol::Element(e) => Some(GraphAtom { element: e }),
        Symbol::Aromatic(e) => Some(GraphAtom { element: e }),
        Symbol::Wildcard => None,
    }
}

/// Builds one branched atom into the molecule, as `sb_branched_atom`
/// describes, and returns the handle of its atom.
#[verifier::loop_isolation(false)]
fn build_branched_atom(
    mol: &mut Molecule,
    table: &mut Vec<Option<(AtomIndex, Option<Bond>)>>,
    ba: &BranchedAtom,
    prev: Option<(AtomIndex, Option<Bond>)>,
) -> (r: Result<AtomIndex, ParseError>)
    requires
        st_wf(st_of(old(mol)@, old(table)@)),
        match prev {
            Some((p, _)) => 0 <= p@ < old(mol)@.atoms.len(),
            None => true,
        },
    ensures
        match sb_branched_atom(st_of(old(mol)@, old(table)@), ba@, prev_view(prev)) {
            Ok(st2) => r matches Ok(ix) && ix@ == old(mol)@.atoms.len() && st_of(
                final(mol)@,
                final(table)@,
            ) == st2,
            Err(e) => r == Err::<AtomIndex, ParseError>(e),
        },
    decreases sz_branched_atom(ba@), 0int,
{
    let ghost st0 = st_of(old(mol)@, old(table)@);
    let ga = match atom_to_graph(&ba.atom) {
        None => {
            return Err(ParseError::WildcardAtom);
        },
        Some(g) => g,
    };
    let idx = mol.add_atom(ga);
    let ghost n = idx@;
    if let Some((p, ob)) = prev {
        let b = match ob {
            Some(bb) => bb,
            None => Bond::Single,
        };
        let _ = mol.add_bond(p, idx, b);
    }
    let ghost st1 = BuildState {
        atoms: st0.atoms.push(ga),
        bonds: match prev_view(prev) {
            None => st0.bonds,
            Some((p, ob)) => st0.bonds.insert((p, n), bond_or_single(ob)),
        },
        rings: st0.rings,
    };
    proof {
        assert(st_of(mol@, table@) =~= st1);
        assert(st_wf(st1));
        assert(ba.ring_bonds@.subrange(0, ba.ring_bonds@.len() as int) =~= ba.ring_bonds@);
        assert(ba@.atom == ba.atom);
        assert(ba@.ring_bonds == ba.ring_bonds@);
        assert(ba@.branches == view_branches(ba.branches@));
        assert(atom_of(ba.atom) == Some(ga));
        assert(sb_branched_atom(st0, ba@, prev_view(prev)) == (match sb_rings(
            st1,
            ba.ring_bonds@,
            n,
        ) {
            Err(e) => Err(e),
            Ok(st2) => sb_branches(st2, ba@.branches, n),
        }));
    }
    let mut k: usize = 0;
    while k < ba.ring_bonds.len()
        invariant
            k <= ba.ring_bonds.len(),
            st_wf(st_of(mol@, table@)),
            st_of(mol@, table@).atoms == st1.atoms,
            idx@ == n,
            n == st1.atoms.len() - 1,
            sb_rings(st1, ba.ring_bonds@, n) == sb_rings(
                st_of(mol@, table@),
                ba.ring_bonds@.subrange(k as int, ba.ring_bonds@.len() as int),
                n,
            ),
        decreases ba.ring_bonds.len() - k,
    {
        let ghost cur = st_of(mol@, table@);
        let ghost tb = table@;
        let ghost rem = ba.ring_bonds@.subrange(k as int, ba.ring_bonds@.len() as int);
        let rb = ba.ring_bonds[k];
        proof {
            assert(rem[0] == rb);
            assert(rem.subrange(1, rem.len() as int) =~= ba.ring_bonds@.subrange(
                k + 1,
                ba.ring_bonds@.len() as int,
            ));
        }
        let entry = if rb.ring_number < table.len() {
            table[rb.ring_number]
        } else {
            None
        };
        proof {
            assert(entry is Some <==> cur.rings.dom().contains(rb.ring_number));
            if entry is Some {
                assert(cur.rings[rb.ring_number] == ((entry->0).0@, (entry->0).1));
                lemma_atom_index_eq((entry->0).0, idx);
            }
        }
        proof {
            assert(sb_rings(cur, rem, n) == (match sb_ring(cur, rb, n) {
                Err(e) => Err(e),
                Ok(st3) => sb_rings(st3, rem.subrange(1, rem.len() as int), n),
            }));
        }
        match entry {
            Some((q, qb)) => {
                if q == idx {
                    return Err(ParseError::SelfRingBond);
                }
                let conflict = match (qb, rb.bond) {
                    (Some(b1), Some(b2)) => b1 != b2,
                    _ => false,
                };
                if conflict {
                    return Err(ParseError::RingBondConflict);
                }
                let b = match qb {
                    Some(bb) => bb,
                    None => match rb.bond {
                        Some(bb) => bb,
                        None => Bond::Single,
                    },
                };
                let ghost mvpre = mol@;
                let res = mol.add_bond(q, idx, b);
                proof {
                    assert(mvpre.bonds == cur.bonds);
                    assert(mvpre.atoms == cur.atoms);
                    if res is Ok {
                        assert(bond_between(mvpre, q@, idx@) is None);
                    }
                }
                match res {
                    Err(()) => {
                        return Err(ParseError::DuplicateRingBond);
                    },
                    Ok(()) => {
                        table[rb.ring_number] = None;
                        proof {
                            assert(cur.rings.dom().contains(rb.ring_number));
                            assert(cur.rings[rb.ring_number] == (q@, qb));
                            assert(q@ != n);
                            assert(!(qb is Some && rb.bond is Some && qb != rb.bond));
                            assert(bond_between(mvpre, q@, n) is None);
                            assert(!cur.bonds.dom().contains((q@, n)));
                            assert(!cur.bonds.dom().contains((n, q@)));
                            assert(sb_ring(cur, rb, n) is Ok);
                            let next = sb_ring(cur, rb, n)->Ok_0;
                            assert(next.rings == cur.rings.remove(rb.ring_number));
                            assert(cur.rings == rings_of(tb));
                            assert(table@ == tb.update(rb.ring_number as int, None));
                            assert(forall|i: int|
                                0 <= i < tb.len() && i != rb.ring_number ==> table@[i]
                                    == #[trigger] tb[i]);
                            assert(rings_of(table@).dom() =~= next.rings.dom());
                            assert(st_of(mol@, table@).rings =~= next.rings);
                            assert(st_of(mol@, table@) =~= next);
                            assert(st_wf(next));
                        }
                    },
                }
            },
            None => {
                let ghost t0 = table@;
                while table.len() <= rb.ring_number
                    invariant
                        rings_of(table@) == rings_of(t0),
                    decreases rb.ring_number + 1 - table.len(),
                {
                    proof {
                        assert(rings_of(table@.push(None)) =~= rings_of(table@));
                    }
                    table.push(None);
                }
                table[rb.ring_number] = Some((idx, rb.bond));
                proof {
                    let next = sb_ring(cur, rb, n)->Ok_0;
                    assert(st_of(mol@, table@).rings =~= next.rings);
                    assert(st_of(mol@, table@) =~= next);
                    assert(next.atoms == cur.atoms);
                    assert(next.rings == cur.rings.insert(rb.ring_number, (n, rb.bond)));
                    assert forall|rn2: usize| #[trigger]
                        next.rings.dom().contains(rn2) implies 0 <= next.rings[rn2].0
                        < next.atoms.len() by {
                        if rn2 == rb.ring_number {
                            assert(next.rings[rn2] == (n, rb.bond));
                            assert(0 <= n < cur.atoms.len());
                        } else {
                            assert(cur.rings.dom().contains(rn2));
                            assert(next.rings[rn2] == cur.rings[rn2]);
                        }
                    }
                    assert(st_wf(next));
                }
            },
        }
        k = k + 1;
    }
    proof {
        assert(ba.ring_bonds@.subrange(k as int, ba.ring_bonds@.len() as int)
            =~= Seq::<RingBond>::empty());
        assert(sb_rings(st1, ba.ring_bonds@, n) == Ok::<BuildState, ParseError>(
            st_of(mol@, table@),
        ));
    }
    let ghost st2 = sb_rings(st1, ba.ring_bonds@, n)->Ok_0;
    let mut k2: usize = 0;
    proof {
        lemma_view_branches_props(ba.branches@);
        assert(view_branches(ba.branches@).subrange(
            0,
            view_branches(ba.branches@).len() as int,
        ) =~= view_branches(ba.branches@));
        assert(ba@.branches == view_branches(ba.branches@));
    }
    while k2 < ba.branches.len()
        invariant
            k2 <= ba.branches.len(),
            st_wf(st_of(mol@, table@)),
            idx@ == n,
            0 <= n < st_of(mol@, table@).atoms.len(),
            view_branches(ba.branches@).len() == ba.branches@.len(),
            forall|i: int|
                0 <= i < ba.branches@.len() ==> view_branches(ba.branches@)[i] == view_branch(
                    #[trigger] ba.branches@[i],
                ),
            sb_branches(st2, view_branches(ba.branches@), n) == sb_branches(
                st_of(mol@, table@),
                view_branches(ba.branches@).subrange(
                    k2 as int,
                    view_branches(ba.branches@).len() as int,
                ),
                n,
            ),
        decreases ba.branches.len() - k2,
    {
        let ghost cur = st_of(mol@, table@);
        let ghost rem = view_branches(ba.branches@).subrange(
            k2 as int,
            view_branches(ba.branches@).len() as int,
        );
        proof {
            assert(rem[0] == view_branch(ba.branches@[k2 as int]));
            assert(rem.subrange(1, rem.len() as int) =~= view_branches(ba.branches@).subrange(
                k2 + 1,
                view_branches(ba.branches@).len() as int,
            ));
            lemma_sb_branch_wf(cur, rem[0], n);
            lemma_sz_branches_elem(view_branches(ba.branches@), k2 as int);
            assert(sz_branched_atom(ba@) == 1 + sz_branches(view_branches(ba.branches@)));
            assert(ba.branches[k2 as int]@ == rem[0]);
        }
        let ghost rem_rest = rem.subrange(1, rem.len() as int);
        proof {
            assert(sb_branches(cur, rem, n) == (match sb_branch(cur, rem[0], n) {
                Err(e) => Err(e),
                Ok(st3) => sb_branches(st3, rem_rest, n),
            }));
        }
        match build_branch(mol, table, &ba.branches[k2], idx) {
            Err(e) => {
                return Err(e);
            },
            Ok(()) => {},
        }
        k2 = k2 + 1;
    }
    proof {
        assert(view_branches(ba.branches@).subrange(
            k2 as int,
            view_branches(ba.branches@).len() as int,
        ) =~= Seq::<SpecBranch>::empty());
        assert(sb_branches(st2, view_branches(ba.branches@), n) == Ok::<BuildState, ParseError>(
            st_of(mol@, table@),
        ));
    }
    Ok(idx)
}

/// Builds one branch into the molecule, anchored at `parent`, as
/// `sb_branch` describes.
fn build_branch(
    mol: &mut Molecule,
    table: &mut Vec<Option<(AtomIndex, Option<Bond>)>>,
    br: &Branch,
    parent: AtomIndex,
) -> (r: Result<(), ParseError>)
    requires
        st_wf(st_of(old(mol)@, old(table)@)),
        0 <= parent@ < old(mol)@.atoms.len(),
    ensures
        match sb_branch(st_of(old(mol)@, old(table)@), br@, parent@) {
            Ok(st2) => r is Ok && st_of(final(mol)@, final(table)@) == st2,
            Err(e) => r == Err::<(), ParseError>(e),
        },
    decreases sz_branch(br@), 3int,
{
    match build_chain(mol, table, &br.chain, Some((parent, br.bond))) {
        Ok(_) => Ok(()),
        Err(e) => Err(e),
    }
}

/// Builds a chain into the molecule, as `sb_chain` describes, and returns
/// the handle of the chain's last atom.
fn build_chain(
    mol: &mut Molecule,
    table: &mut Vec<Option<(AtomIndex, Option<Bond>)>>,
    c: &Chain,
    parent: Option<(AtomIndex, Option<Bond>)>,
) -> (r: Result<AtomIndex, ParseError>)
    requires
        st_wf(st_of(old(mol)@, old(table)@)),
        match parent {
            Some((p, _)) => 0 <= p@ < old(mol)@.atoms.len(),
            None => true,
        },
    ensures
        match sb_chain(st_of(old(mol)@, old(table)@), c@, prev_view(parent)) {
            Ok((st2, last)) => r matches Ok(ix) && ix@ == last && st_of(
                final(mol)@,
                final(table)@,
            ) == st2,
            Err(e) => r == Err::<AtomIndex, ParseError>(e),
        },
    decreases sz_chain(c@), 2int,
{
    match c {
        Chain::BranchedAtom(ba) => {
            match build_branched_atom(mol, table, ba, parent) {
                Ok(ix) => Ok(ix),
                Err(e) => Err(e),
            }
        },
        Chain::ChainBond(cb) => {
            proof {
                lemma_sz_chain_pos(view_chain(*cb.chain));
                assert(sz_chain(c@) == sz_chain(view_chain(*cb.chain)) + sz_branched_atom(
                    view_branched_atom(cb.branched_atom),
                ));
                assert(sz_branched_atom(view_branched_atom(cb.branched_atom)) >= 1);
            }
            let ghost st0 = st_of(old(mol)@, old(table)@);
            let last = match build_chain(mol, table, &*cb.chain, parent) {
                Ok(ix) => ix,
                Err(e) => {
                    return Err(e);
                },
            };
            proof {
                lemma_sb_chain_wf(st0, view_chain(*cb.chain), prev_view(parent));
            }
            match build_branched_atom(mol, table, &cb.branched_atom, Some((last, cb.bond))) {
                Ok(ix) => Ok(ix),
                Err(e) => Err(e),
            }
        },
    }
}

/// Parses a whole text into a molecule. The grammar must match the whole
/// text, every ring number must be closed, and the molecule is built as
/// `spec_smiles` describes.
pub fn molecule_from_smiles(text: &str) -> (r: Result<Molecule, ParseError>)
    ensures
        match (r, spec_smiles(text.spec_bytes())) {
            (Ok(m), Ok(v)) => m@.atoms == v.atoms && m@.bonds == v.bonds,
            (Err(e1), Err(e2)) => e1 == e2,
            _ => false,
        },
{
    let s = text.as_bytes();
    match chain(s, 0) {
        None => Err(ParseError::Syntax),
        Some((j, c)) => {
            if j != s.len() {
                Err(ParseError::TrailingInput)
            } else {
                let mut mol = Molecule::new();
                let mut table: Vec<Option<(AtomIndex, Option<Bond>)>> = Vec::new();
                proof {
                    assert(rings_of(table@) =~= Map::<usize, (int, Option<Bond>)>::empty());
                    let st0 = BuildState {
                        atoms: Seq::empty(),
                        bonds: Map::empty(),
                        rings: Map::empty(),
                    };
                    assert(st_of(mol@, table@) =~= st0);
                }
                match build_chain(&mut mol, &mut table, &c, None) {
                    Err(e) => Err(e),
                    Ok(_) => {
                        let mut k: usize = 0;
                        let mut dangling = false;
                        while k < table.len()
                            invariant
                                k <= table@.len(),
                                dangling <==> exists|i: int|
                                    0 <= i < k && #[trigger] table@[i] is Some,
                            decreases table@.len() - k,
                        {
                            if table[k].is_some() {
                                dangling = true;
                            }
                            k = k + 1;
                        }
                        if dangling {
                            proof {
                                let i = choose|i: int| 0 <= i < table@.len() && #[trigger] table@[i] is Some;
                                assert(rings_of(table@).dom().contains(i as usize));
                                assert(!(rings_of(table@).dom() =~= Set::<usize>::empty()));
                            }
                            Err(ParseError::DanglingRingBond)
                        } else {
                            proof {
                                assert(rings_of(table@).dom() =~= Set::<usize>::empty());
                            }
                            Ok(mol)
                        }
                    },
                }
            }
        },
    }
}


} // verus!
