use vstd::prelude::*;

use crate::element::Element;

verus! {

/// An atom as it stands in a molecular graph: its element identity.
#[derive(Clone, Copy, PartialEq, Eq, Structural, Debug)]
pub struct Atom {
    pub element: Element,
}

/// The kind of a bond between two atoms.
#[derive(Clone, Copy, PartialEq, Eq, Structural, Debug)]
pub enum Bond {
    Single,
    Double,
    Triple,
    Aromatic,
}

/// An opaque handle to one atom of one molecule. Two handles are equal iff
/// they refer to the same node. A handle is meaningful only for the molecule
/// that returned it.
#[derive(Clone, Copy, PartialEq, Eq, Structural, Debug)]
pub struct AtomIndex(usize);

impl View for AtomIndex {
    type V = int;

    closed spec fn view(&self) -> int {
        self.0 as int
    }
}

pub proof fn lemma_atom_index_eq(a: AtomIndex, b: AtomIndex)
    ensures
        a@ == b@ <==> a == b,
{
}

#[verifier::external_type_specification]
#[verifier::external_body]
#[verifier::reject_recursive_types(N)]
#[verifier::reject_recursive_types(E)]
#[verifier::reject_recursive_types(Ty)]
#[verifier::reject_recursive_types(Ix)]
pub struct ExGraph<N, E, Ty, Ix>(petgraph::graph::Graph<N, E, Ty, Ix>);

#[verifier::external_type_specification]
#[verifier::external_body]
pub struct ExUndirected(petgraph::Undirected);

/// The node labels of the underlying graph, in insertion order; node `i` of
/// the graph carries the label at position `i`.
pub uninterp spec fn graph_atoms(
    g: petgraph::graph::Graph<Atom, Bond, petgraph::Undirected, usize>,
) -> Seq<Atom>;

/// The edges of the underlying graph: each edge maps the pair of its
/// endpoints, in the orientation in which it was inserted, to its label.
pub uninterp spec fn graph_bonds(
    g: petgraph::graph::Graph<Atom, Bond, petgraph::Undirected, usize>,
) -> Map<(int, int), Bond>;

/// The number of edges of the underlying graph.
pub uninterp spec fn graph_edge_count(
    g: petgraph::graph::Graph<Atom, Bond, petgraph::Undirected, usize>,
) -> nat;

/// Relies on petgraph's `Graph::with_capacity`: a graph with no nodes and no
/// edges.
#[verifier::external_body]
fn graph_new() -> (g: petgraph::graph::Graph<Atom, Bond, petgraph::Undirected, usize>)
    ensures
        graph_atoms(g) == Seq::<Atom>::empty(),
        graph_bonds(g) == empty_bonds(),
        graph_edge_count(g) == 0,
{
    petgraph::graph::Graph::with_capacity(0, 0)
}

/// The edge map of a graph without edges.
pub open spec fn empty_bonds() -> Map<(int, int), Bond> {
    Map::empty()
}

/// Relies on petgraph's `Graph::add_node`: it appends one node holding the
/// given label and returns its index, which counts up from zero in insertion
/// order.
#[verifier::external_body]
fn graph_add_node(
    g: &mut petgraph::graph::Graph<Atom, Bond, petgraph::Undirected, usize>,
    w: Atom,
) -> (r: usize)
    ensures
        graph_atoms(*final(g)) == graph_atoms(*old(g)).push(w),
        graph_bonds(*final(g)) == graph_bonds(*old(g)),
        graph_edge_count(*final(g)) == graph_edge_count(*old(g)),
        r == graph_atoms(*old(g)).len(),
{
    g.add_node(w).index()
}

/// Relies on petgraph's `Graph::contains_edge`, which looks an edge up in
/// either orientation on an undirected graph.
#[verifier::external_body]
fn graph_contains_edge(
    g: &petgraph::graph::Graph<Atom, Bond, petgraph::Undirected, usize>,
    a: usize,
    b: usize,
) -> (r: bool)
    ensures
        r == (graph_bonds(*g).dom().contains((a as int, b as int)) || graph_bonds(
            *g,
        ).dom().contains((b as int, a as int))),
{
    g.contains_edge(petgraph::graph::NodeIndex::new(a), petgraph::graph::NodeIndex::new(b))
}

/// Relies on petgraph's `Graph::add_edge`: it appends one edge between two
/// existing nodes (it panics on an index with no node, which the `requires`
/// rules out).
#[verifier::external_body]
fn graph_add_edge(
    g: &mut petgraph::graph::Graph<Atom, Bond, petgraph::Undirected, usize>,
    a: usize,
    b: usize,
    w: Bond,
)
    requires
        a < graph_atoms(*old(g)).len(),
        b < graph_atoms(*old(g)).len(),
        !graph_bonds(*old(g)).dom().contains((a as int, b as int)),
        !graph_bonds(*old(g)).dom().contains((b as int, a as int)),
    ensures
        graph_atoms(*final(g)) == graph_atoms(*old(g)),
        graph_bonds(*final(g)) == graph_bonds(*old(g)).insert((a as int, b as int), w),
        graph_edge_count(*final(g)) == graph_edge_count(*old(g)) + 1,
{
    g.add_edge(petgraph::graph::NodeIndex::new(a), petgraph::graph::NodeIndex::new(b), w);
}

/// Relies on petgraph's `Graph::node_weight` (it returns `Some` exactly for
/// an index with a node, which the `requires` guarantees).
#[verifier::external_body]
fn graph_node_weight(
    g: &petgraph::graph::Graph<Atom, Bond, petgraph::Undirected, usize>,
    a: usize,
) -> (r: &Atom)
    requires
        a < graph_atoms(*g).len(),
    ensures
        *r == graph_atoms(*g)[a as int],
{
    g.node_weight(petgraph::graph::NodeIndex::new(a)).unwrap()
}

/// The mathematical content of a molecule: its atom labels in insertion
/// order, and a map from endpoint pairs to bond labels.
pub ghost struct MoleculeView {
    pub atoms: Seq<Atom>,
    pub bonds: Map<(int, int), Bond>,
}

/// The view of a raw graph.
pub open spec fn graph_view(
    g: petgraph::graph::Graph<Atom, Bond, petgraph::Undirected, usize>,
) -> MoleculeView {
    MoleculeView { atoms: graph_atoms(g), bonds: graph_bonds(g) }
}

/// The bond between atoms `i` and `j` of `m`, in either orientation, if any.
pub open spec fn bond_between(m: MoleculeView, i: int, j: int) -> Option<Bond> {
    if m.bonds.dom().contains((i, j)) {
        Some(m.bonds[(i, j)])
    } else if m.bonds.dom().contains((j, i)) {
        Some(m.bonds[(j, i)])
    } else {
        None
    }
}

/// A molecule view is simple when every edge joins two distinct in-range
/// atoms, no pair of atoms is joined in both orientations, and `count`
/// agrees with the number of edges (so no two edges share a key).
pub open spec fn simple_view(m: MoleculeView, count: nat) -> bool {
    &&& m.bonds.dom().finite()
    &&& count == m.bonds.dom().len()
    &&& forall|p: (int, int)| #[trigger]
        m.bonds.dom().contains(p) ==> 0 <= p.0 < m.atoms.len() && 0 <= p.1 < m.atoms.len() && p.0
            != p.1 && !m.bonds.dom().contains((p.1, p.0))
}

/// Every bond of `m` joins two distinct atoms of `m`, named with the lower
/// index first. Every molecule that this module hands out satisfies this.
pub open spec fn view_wf(m: MoleculeView) -> bool {
    forall|p: (int, int)| #[trigger] m.bonds.dom().contains(p) ==> 0 <= p.0 < p.1 < m.atoms.len()
}

/// `f` maps the atoms of `a` one-to-one onto the atoms of `b`, preserving
/// atom labels, and preserving the presence and the label of the bond
/// between every pair of atoms.
pub open spec fn is_isomorphism(f: Map<int, int>, a: MoleculeView, b: MoleculeView) -> bool {
    &&& a.atoms.len() == b.atoms.len()
    &&& f.dom() == Set::new(|i: int| 0 <= i < a.atoms.len())
    &&& forall|i: int| 0 <= i < a.atoms.len() ==> 0 <= #[trigger] f[i] < b.atoms.len()
    &&& forall|i: int, j: int|
        0 <= i < a.atoms.len() && 0 <= j < a.atoms.len() && i != j ==> #[trigger] f[i]
            != #[trigger] f[j]
    &&& forall|i: int| 0 <= i < a.atoms.len() ==> b.atoms[#[trigger] f[i]] == a.atoms[i]
    &&& forall|i: int, j: int|
        0 <= i < a.atoms.len() && 0 <= j < a.atoms.len() ==> bond_between(a, i, j) == bond_between(
            b,
            #[trigger] f[i],
            #[trigger] f[j],
        )
}

/// Two molecule views are isomorphic when some map is an isomorphism
/// between them.
pub open spec fn spec_isomorphic(a: MoleculeView, b: MoleculeView) -> bool {
    exists|f: Map<int, int>| is_isomorphism(f, a, b)
}

/// Equality of molecules does not see insertion order. Two molecules
/// "built by inserting the same atoms and bonds in different orders" are
/// precisely two molecules with a renaming of atom indices that carries
/// the one onto the other, preserving atom labels and the bond (with its
/// label) between every pair: the renaming says which insertion of the one
/// run corresponds to which of the other. Under any such renaming the two
/// are isomorphic, so the equality test accepts them.
pub proof fn lemma_insertion_order_independence(f: Map<int, int>, a: MoleculeView, b: MoleculeView)
    requires
        is_isomorphism(f, a, b),
    ensures
        spec_isomorphic(a, b),
{
}

/// `ord` is an insertion order for `n` recipe positions: it lists each
/// position exactly once.
pub open spec fn is_insertion_order(ord: Seq<int>, n: int) -> bool {
    &&& ord.len() == n
    &&& forall|k: int| 0 <= k < n ==> 0 <= #[trigger] ord[k] < n
    &&& ord.no_duplicates()
}

/// `m` is a molecule built from the recipe `script` in the order `ord`:
/// the atom at recipe position `ord[k]` was inserted `k`-th, and the bond
/// between the `k1`-th and the `k2`-th insertions is the recipe's bond
/// between their positions.
pub open spec fn built_in_order(script: MoleculeView, ord: Seq<int>, m: MoleculeView) -> bool {
    &&& is_insertion_order(ord, script.atoms.len() as int)
    &&& m.atoms.len() == script.atoms.len()
    &&& forall|k: int| 0 <= k < ord.len() ==> m.atoms[k] == script.atoms[#[trigger] ord[k]]
    &&& forall|k1: int, k2: int|
        0 <= k1 < ord.len() && 0 <= k2 < ord.len() ==> bond_between(m, k1, k2) == bond_between(
            script,
            #[trigger] ord[k1],
            #[trigger] ord[k2],
        )
}

/// An insertion order reaches every recipe position: a sequence without
/// duplicates that stays inside `0 .. n` and has length `n` hits all of
/// `0 .. n`.
pub proof fn lemma_order_onto(ord: Seq<int>, n: int, p: int)
    requires
        is_insertion_order(ord, n),
        0 <= p < n,
    ensures
        exists|k: int| 0 <= k < n && ord[k] == p,
{
    if !(exists|k: int| 0 <= k < n && ord[k] == p) {
        assert(!ord.to_set().contains(p));
        assert(ord.to_set().subset_of(vstd::set_lib::set_int_range(0, n))) by {
            assert forall|x: int| ord.to_set().contains(x) implies vstd::set_lib::set_int_range(
                0,
                n,
            ).contains(x) by {
                let k = choose|k: int| 0 <= k < ord.len() && ord[k] == x;
            }
        }
        vstd::set_lib::lemma_int_range(0, n);
        ord.to_set().lemma_subset_not_in_lt(vstd::set_lib::set_int_range(0, n), p);
        ord.unique_seq_to_set();
        assert(false);
    }
}

/// The general form of order independence: two molecules built from the
/// same recipe of atoms and bonds, in any two insertion orders, are
/// isomorphic, so the equality test accepts them.
pub proof fn lemma_build_order_independence(
    script: MoleculeView,
    ord1: Seq<int>,
    m1: MoleculeView,
    ord2: Seq<int>,
    m2: MoleculeView,
)
    requires
        built_in_order(script, ord1, m1),
        built_in_order(script, ord2, m2),
    ensures
        spec_isomorphic(m1, m2),
{
    let n = script.atoms.len() as int;
    let inv2 = Seq::new(n as nat, |p: int| choose|k: int| 0 <= k < n && ord2[k] == p);
    assert forall|p: int| 0 <= p < n implies 0 <= #[trigger] inv2[p] < n && ord2[inv2[p]]
        == p by {
        lemma_order_onto(ord2, n, p);
    }
    let f = Map::<int, int>::new(|i: int| 0 <= i < n, |i: int| inv2[ord1[i]]);
    assert(f.dom() =~= Set::new(|i: int| 0 <= i < m1.atoms.len()));
    assert forall|i: int| 0 <= i < n implies 0 <= #[trigger] f[i] < n && ord2[f[i]]
        == ord1[i] by {
        assert(0 <= ord1[i] < n);
    }
    assert forall|i: int, j: int| 0 <= i < n && 0 <= j < n && i != j implies #[trigger] f[i]
        != #[trigger] f[j] by {
        if f[i] == f[j] {
            assert(ord1[i] == ord1[j]);
        }
    }
    assert forall|i: int| 0 <= i < n implies m2.atoms[#[trigger] f[i]] == m1.atoms[i] by {
        assert(m2.atoms[f[i]] == script.atoms[ord2[f[i]]]);
    }
    assert forall|i: int, j: int|
        0 <= i < n && 0 <= j < n implies bond_between(m1, i, j) == bond_between(
        m2,
        #[trigger] f[i],
        #[trigger] f[j],
    ) by {
        assert(bond_between(m2, f[i], f[j]) == bond_between(script, ord2[f[i]], ord2[f[j]]));
        assert(bond_between(m1, i, j) == bond_between(script, ord1[i], ord1[j]));
    }
    assert(is_isomorphism(f, m1, m2));
    lemma_insertion_order_independence(f, m1, m2);
}

/// Every molecule equals itself: the identity renaming is an isomorphism.
pub proof fn lemma_isomorphic_refl(a: MoleculeView)
    ensures
        spec_isomorphic(a, a),
{
    let f = Map::<int, int>::new(|i: int| 0 <= i < a.atoms.len(), |i: int| i);
    assert(f.dom() =~= Set::new(|i: int| 0 <= i < a.atoms.len()));
    assert(forall|i: int| 0 <= i < a.atoms.len() ==> #[trigger] f[i] == i);
    assert(is_isomorphism(f, a, a));
}

/// Relies on petgraph's `algo::is_isomorphic_matching` (the VF2 algorithm):
/// it returns true exactly when the two graphs are isomorphic, matching node
/// labels and edge labels with the given predicates; petgraph asks that the
/// graphs not be multigraphs, which the `requires` guarantees.
#[verifier::external_body]
fn graph_isomorphic(
    a: &petgraph::graph::Graph<Atom, Bond, petgraph::Undirected, usize>,
    b: &petgraph::graph::Graph<Atom, Bond, petgraph::Undirected, usize>,
) -> (r: bool)
    requires
        simple_view(graph_view(*a), graph_edge_count(*a)),
        simple_view(graph_view(*b), graph_edge_count(*b)),
    ensures
        r == spec_isomorphic(graph_view(*a), graph_view(*b)),
{
    petgraph::algo::is_isomorphic_matching(a, b, |x: &Atom, y: &Atom| atom_eq(x, y), |x: &Bond, y: &Bond| bond_eq(x, y))
}

/// Whether two graph-level atoms carry the same element.
fn atom_eq(a: &Atom, b: &Atom) -> (r: bool)
    ensures
        r == (*a == *b),
{
    a.element == b.element
}

/// Whether two bonds are the same kind.
fn bond_eq(a: &Bond, b: &Bond) -> (r: bool)
    ensures
        r == (*a == *b),
{
    *a == *b
}

/// An undirected graph of atoms joined by bonds. Atoms are added one at a
/// time and are never removed; at most one bond can join a given pair of
/// atoms, and no bond joins an atom to itself.
///
/// That last point is a deliberate design decision, not an accident of the
/// backing store: `add_bond` refuses a pair of equal handles, and the
/// builder refuses a ring bond back to its own atom, so that every
/// molecule stays a simple graph. The equality test rests on an
/// isomorphism routine that is specified for simple graphs only, and a
/// loop bond has no chemical reading either.
#[derive(Debug)]
pub struct Molecule {
    graph: petgraph::graph::Graph<Atom, Bond, petgraph::Undirected, usize>,
}

impl View for Molecule {
    type V = MoleculeView;

    closed spec fn view(&self) -> MoleculeView {
        graph_view(self.graph)
    }
}

impl Molecule {
    #[verifier::type_invariant]
    spec fn wf(&self) -> bool {
        &&& simple_view(self@, graph_edge_count(self.graph))
        &&& forall|p: (int, int)| #[trigger] self@.bonds.dom().contains(p) ==> p.0 < p.1
    }

    /// A molecule with no atoms and no bonds.
    pub fn new() -> (r: Molecule)
        ensures
            r@.atoms == Seq::<Atom>::empty(),
            r@.bonds == Map::<(int, int), Bond>::empty(),
            view_wf(r@),
    {
        Molecule { graph: graph_new() }
    }

    /// Adds one atom, without bonds, and returns its handle. Handles count
    /// up from zero in insertion order.
    pub fn add_atom(&mut self, atom: Atom) -> (r: AtomIndex)
        ensures
            final(self)@.atoms == old(self)@.atoms.push(atom),
            final(self)@.bonds == old(self)@.bonds,
            r@ == old(self)@.atoms.len(),
            view_wf(final(self)@),
    {
        proof {
            use_type_invariant(&*self);
        }
        let mut g = graph_new();
        std::mem::swap(&mut g, &mut self.graph);
        let i = graph_add_node(&mut g, atom);
        std::mem::swap(&mut g, &mut self.graph);
        AtomIndex(i)
    }

    /// Adds a bond between the two given atoms. Fails, changing nothing,
    /// when the two handles are the same atom or when a bond between them is
    /// already present. Refusing the self-bond keeps the molecule a simple
    /// graph, which the equality test's isomorphism routine demands; a
    /// caller wanting a loop gets `Err` rather than a graph that equality
    /// cannot be trusted on.
    pub fn add_bond(&mut self, a: AtomIndex, b: AtomIndex, bond: Bond) -> (r: Result<(), ()>)
        requires
            0 <= a@ < old(self)@.atoms.len(),
            0 <= b@ < old(self)@.atoms.len(),
        ensures
            final(self)@.atoms == old(self)@.atoms,
            r is Ok <==> (a@ != b@ && bond_between(old(self)@, a@, b@) is None),
            r is Ok ==> final(self)@.bonds == old(self)@.bonds.insert(
                (if a@ < b@ { (a@, b@) } else { (b@, a@) }),
                bond,
            ),
            r is Err ==> final(self)@ == old(self)@,
            view_wf(final(self)@),
    {
        proof {
            use_type_invariant(&*self);
        }
        if a.0 == b.0 {
            return Err(());
        }
        let (lo, hi) = if a.0 < b.0 {
            (a.0, b.0)
        } else {
            (b.0, a.0)
        };
        if graph_contains_edge(&self.graph, lo, hi) {
            return Err(());
        }
        let mut g = graph_new();
        std::mem::swap(&mut g, &mut self.graph);
        graph_add_edge(&mut g, lo, hi, bond);
        std::mem::swap(&mut g, &mut self.graph);
        proof {
            assert(final(self)@.bonds.dom() =~= old(self)@.bonds.dom().insert((lo as int, hi as int)));
        }
        Ok(())
    }

    /// The atom behind a handle of this molecule.
    pub fn atom(&self, atom: AtomIndex) -> (r: &Atom)
        requires
            0 <= atom@ < self@.atoms.len(),
        ensures
            *r == self@.atoms[atom@],
    {
        proof {
            use_type_invariant(&*self);
        }
        graph_node_weight(&self.graph, atom.0)
    }
}

impl Clone for Molecule {
    /// Relies on petgraph's `Clone` for `Graph`: the cloned graph has the
    /// same nodes, edges and indices as the original.
    #[verifier::external_body]
    fn clone(&self) -> (r: Self)
        ensures
            r@ == self@,
    {
        Molecule { graph: self.graph.clone() }
    }
}

impl PartialEq for Molecule {
    /// Two molecules are equal exactly when they are isomorphic as labeled
    /// graphs: some one-to-one map between their atoms preserves the atom
    /// labels and the bonds with their labels.
    fn eq(&self, other: &Molecule) -> (r: bool) {
        proof {
            use_type_invariant(&*self);
            use_type_invariant(&*other);
        }
        graph_isomorphic(&self.graph, &other.graph)
    }
}

impl vstd::std_specs::cmp::PartialEqSpecImpl for Molecule {
    open spec fn obeys_eq_spec() -> bool {
        true
    }

    open spec fn eq_spec(&self, other: &Molecule) -> bool {
        spec_isomorphic(self@, other@)
    }
}

} // verus!
