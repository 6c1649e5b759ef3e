use vstd::prelude::*;

use crate::element::Element;
use crate::molecule::Bond;

verus! {

/// A deferred-connection marker: two atoms of one chain that carry the same
/// ring number are joined by one extra bond once both have been read.
#[derive(Clone, Copy, PartialEq, Eq, Debug)]
pub struct RingBond {
    pub bond: Option<Bond>,
    pub ring_number: usize,
}

/// The symbol of an atom: an element written plainly, an element written in
/// its aromatic (lower-case) form, or the wildcard.
#[derive(Clone, Copy, PartialEq, Eq, Debug)]
pub enum Symbol {
    Element(Element),
    Aromatic(Element),
    Wildcard,
}

/// An atom as the grammar describes it, with its optional bracket fields.
#[derive(Clone, Copy, PartialEq, Eq, Debug)]
pub struct Atom {
    pub isotope: Option<u16>,
    pub symbol: Symbol,
    pub hydrogens: Option<u8>,
    pub charge: Option<i8>,
    pub atom_class: Option<usize>,
}

/// An atom together with its ring-bond markers and its branches.
#[derive(PartialEq, Eq, Debug)]
pub struct BranchedAtom {
    pub atom: Atom,
    pub ring_bonds: Vec<RingBond>,
    pub branches: Vec<Branch>,
}

/// A branched atom joined by an optional bond to the chain of everything
/// read before it.
#[derive(PartialEq, Eq, Debug)]
pub struct ChainBond {
    pub bond: Option<Bond>,
    pub branched_atom: BranchedAtom,
    pub chain: Box<Chain>,
}

/// A side chain hanging off an atom via an optional explicit bond.
#[derive(PartialEq, Eq, Debug)]
pub struct Branch {
    pub bond: Option<Bond>,
    pub chain: Chain,
}

/// A chain: one branched atom, or a branched atom linked to the chain of
/// everything read before it. The most recently read atom stands at the top.
#[derive(PartialEq, Eq, Debug)]
pub enum Chain {
    ChainBond(ChainBond),
    BranchedAtom(BranchedAtom),
}

/// The mathematical shape of a `BranchedAtom`.
pub ghost struct SpecBranchedAtom {
    pub atom: Atom,
    pub ring_bonds: Seq<RingBond>,
    pub branches: Seq<SpecBranch>,
}

/// The mathematical shape of a `ChainBond`.
pub ghost struct SpecChainBond {
    pub bond: Option<Bond>,
    pub branched_atom: SpecBranchedAtom,
    pub chain: Box<SpecChain>,
}

/// The mathematical shape of a `Branch`.
pub ghost struct SpecBranch {
    pub bond: Option<Bond>,
    pub chain: SpecChain,
}

/// The mathematical shape of a `Chain`.
pub ghost enum SpecChain {
    ChainBond(SpecChainBond),
    BranchedAtom(SpecBranchedAtom),
}

/// The shape of a `BranchedAtom`, with sequences for its vectors.
pub open spec fn view_branched_atom(b: BranchedAtom) -> SpecBranchedAtom
    decreases b,
{
    SpecBranchedAtom {
        atom: b.atom,
        ring_bonds: b.ring_bonds@,
        branches: view_branches(b.branches@),
    }
}

/// The shapes of a sequence of branches.
pub open spec fn view_branches(s: Seq<Branch>) -> Seq<SpecBranch>
    decreases s,
{
    if s.len() == 0 {
        Seq::empty()
    } else {
        view_branches(s.subrange(0, s.len() - 1)).push(view_branch(s[s.len() - 1]))
    }
}

/// The shape of a `Branch`.
pub open spec fn view_branch(b: Branch) -> SpecBranch
    decreases b,
{
    SpecBranch { bond: b.bond, chain: view_chain(b.chain) }
}

/// The shape of a `Chain`.
pub open spec fn view_chain(c: Chain) -> SpecChain
    decreases c,
{
    match c {
        Chain::ChainBond(cb) => SpecChain::ChainBond(
            SpecChainBond {
                bond: cb.bond,
                branched_atom: view_branched_atom(cb.branched_atom),
                chain: Box::new(view_chain(*cb.chain)),
            },
        ),
        Chain::BranchedAtom(ba) => SpecChain::BranchedAtom(view_branched_atom(ba)),
    }
}

pub proof fn lemma_view_branches_props(s: Seq<Branch>)
    ensures
        view_branches(s).len() == s.len(),
        forall|i: int| 0 <= i < s.len() ==> view_branches(s)[i] == view_branch(#[trigger] s[i]),
    decreases s,
{
    if s.len() > 0 {
        lemma_view_branches_props(s.subrange(0, s.len() - 1));
        assert(forall|i: int|
            0 <= i < s.len() - 1 ==> s.subrange(0, s.len() - 1)[i] == #[trigger] s[i]);
    }
}

impl View for BranchedAtom {
    type V = SpecBranchedAtom;

    open spec fn view(&self) -> SpecBranchedAtom {
        view_branched_atom(*self)
    }
}

impl View for Branch {
    type V = SpecBranch;

    open spec fn view(&self) -> SpecBranch {
        view_branch(*self)
    }
}

impl View for Chain {
    type V = SpecChain;

    open spec fn view(&self) -> SpecChain {
        view_chain(*self)
    }
}

/// The number of atoms that a branched atom holds, its branches included.
/// Every branched atom counts at least one.
pub open spec fn sz_branched_atom(ba: SpecBranchedAtom) -> nat
    decreases ba,
{
    1 + sz_branches(ba.branches)
}

/// The number of atoms that a sequence of branches holds.
pub open spec fn sz_branches(s: Seq<SpecBranch>) -> nat
    decreases s,
{
    if s.len() == 0 {
        0
    } else {
        sz_branch(s[0]) + sz_branches(s.subrange(1, s.len() as int))
    }
}

/// The weight of a branch: one more than the atoms its chain holds, so that
/// a branch always weighs at least one.
pub open spec fn sz_branch(b: SpecBranch) -> nat
    decreases b,
{
    1 + sz_chain(b.chain)
}

/// The number of atoms that a chain holds.
pub open spec fn sz_chain(c: SpecChain) -> nat
    decreases c,
{
    match c {
        SpecChain::ChainBond(cb) => sz_chain(*cb.chain) + sz_branched_atom(cb.branched_atom),
        SpecChain::BranchedAtom(ba) => sz_branched_atom(ba),
    }
}

} // verus!
