//! Capability model: an enum of fine grained feature flags, a set of them,
//! and a registry that tracks which capabilities are currently provided.

use vstd::prelude::*;
use crate::pack::PackEntry;
use crate::packs::{catalog_view, iter_packs, pack_view};

verus! {

broadcast use vstd::array::array_len_matches_n, vstd::array::lemma_array_index;

/// A single, typed capability that the framework can provide.
///
/// Each variant maps to a concrete piece of functionality (a function space,
/// an operator, a boundary condition type, a solver algorithm, etc.). The
/// variants are ordered as declared.
#[derive(Debug, Clone, Copy, PartialEq, Eq, Structural, PartialOrd, Ord, Hash)]
pub enum Capability {
    /// H1 conforming scalar finite element space.
    SpaceH1Scalar,
    /// H1 conforming vector finite element space.
    SpaceH1Vector,
    /// Laplacian (diffusion) operator assembly.
    OperatorLaplacian,
    /// Dirichlet boundary condition enforcement.
    BcDirichlet,
    /// Conjugate Gradient linear solver.
    SolverCG,
    /// Jacobi preconditioner.
    PrecondJacobi,
    /// Multigrid preconditioner.
    PrecondMG,
    /// 2x2 block operator.
    BlockOperator2x2,
    /// Block Jacobi preconditioner.
    PrecondBlockJacobi,
    /// Block PCG solver.
    SolverBlockPCG,
    /// Coupled elliptic 2x2 system.
    EquationCoupledElliptic2x2,
    /// Linear elasticity stiffness operator.
    OperatorElasticity,
    /// GMRES linear solver.
    SolverGMRES,
}

/// Number of capability variants.
pub const NUM_CAPABILITIES: usize = 13;

/// The position of a capability in declaration order.
pub open spec fn rank(c: Capability) -> nat {
    match c {
        Capability::SpaceH1Scalar => 0,
        Capability::SpaceH1Vector => 1,
        Capability::OperatorLaplacian => 2,
        Capability::BcDirichlet => 3,
        Capability::SolverCG => 4,
        Capability::PrecondJacobi => 5,
        Capability::PrecondMG => 6,
        Capability::BlockOperator2x2 => 7,
        Capability::PrecondBlockJacobi => 8,
        Capability::SolverBlockPCG => 9,
        Capability::EquationCoupledElliptic2x2 => 10,
        Capability::OperatorElasticity => 11,
        Capability::SolverGMRES => 12,
    }
}

/// The capability at a position in declaration order.
pub open spec fn of_rank(i: nat) -> Capability {
    if i == 0 { Capability::SpaceH1Scalar }
    else if i == 1 { Capability::SpaceH1Vector }
    else if i == 2 { Capability::OperatorLaplacian }
    else if i == 3 { Capability::BcDirichlet }
    else if i == 4 { Capability::SolverCG }
    else if i == 5 { Capability::PrecondJacobi }
    else if i == 6 { Capability::PrecondMG }
    else if i == 7 { Capability::BlockOperator2x2 }
    else if i == 8 { Capability::PrecondBlockJacobi }
    else if i == 9 { Capability::SolverBlockPCG }
    else if i == 10 { Capability::EquationCoupledElliptic2x2 }
    else if i == 11 { Capability::OperatorElasticity }
    else { Capability::SolverGMRES }
}

/// The stable label of a capability, as shown in reports.
pub open spec fn label(c: Capability) -> Seq<char> {
    match c {
        Capability::SpaceH1Scalar => "Space_H1Scalar"@,
        Capability::SpaceH1Vector => "Space_H1Vector"@,
        Capability::OperatorLaplacian => "Operator_Laplacian"@,
        Capability::BcDirichlet => "BC_Dirichlet"@,
        Capability::SolverCG => "Solver_CG"@,
        Capability::PrecondJacobi => "Precond_Jacobi"@,
        Capability::PrecondMG => "Precond_MG"@,
        Capability::BlockOperator2x2 => "BlockOperator_2x2"@,
        Capability::PrecondBlockJacobi => "Precond_BlockJacobi"@,
        Capability::SolverBlockPCG => "Solver_BlockPCG"@,
        Capability::EquationCoupledElliptic2x2 => "Equation_CoupledElliptic2x2"@,
        Capability::OperatorElasticity => "Operator_Elasticity"@,
        Capability::SolverGMRES => "Solver_GMRES"@,
    }
}

/// A capability's position in declaration order leads back to it: what
/// `from_index` gives for `index` is the capability itself.
pub proof fn lemma_rank_of_rank(c: Capability)
    ensures
        rank(c) < NUM_CAPABILITIES,
        of_rank(rank(c)) == c,
{
}

/// Every position below the number of capabilities is the position of the
/// capability found there.
pub proof fn lemma_of_rank_rank(i: nat)
    requires
        i < NUM_CAPABILITIES,
    ensures
        rank(of_rank(i)) == i,
{
}

impl Capability {
    /// The position of this capability in declaration order.
    pub fn index(&self) -> (i: usize)
        ensures
            i == rank(*self),
    {
        match self {
            Capability::SpaceH1Scalar => 0,
            Capability::SpaceH1Vector => 1,
            Capability::OperatorLaplacian => 2,
            Capability::BcDirichlet => 3,
            Capability::SolverCG => 4,
            Capability::PrecondJacobi => 5,
            Capability::PrecondMG => 6,
            Capability::BlockOperator2x2 => 7,
            Capability::PrecondBlockJacobi => 8,
            Capability::SolverBlockPCG => 9,
            Capability::EquationCoupledElliptic2x2 => 10,
            Capability::OperatorElasticity => 11,
            Capability::SolverGMRES => 12,
        }
    }

    /// The capability at a position in declaration order.
    pub fn from_index(i: usize) -> (c: Capability)
        requires
            i < NUM_CAPABILITIES,
        ensures
            c == of_rank(i as nat),
            rank(c) == i,
    {
        if i == 0 { Capability::SpaceH1Scalar }
        else if i == 1 { Capability::SpaceH1Vector }
        else if i == 2 { Capability::OperatorLaplacian }
        else if i == 3 { Capability::BcDirichlet }
        else if i == 4 { Capability::SolverCG }
        else if i == 5 { Capability::PrecondJacobi }
        else if i == 6 { Capability::PrecondMG }
        else if i == 7 { Capability::BlockOperator2x2 }
        else if i == 8 { Capability::PrecondBlockJacobi }
        else if i == 9 { Capability::SolverBlockPCG }
        else if i == 10 { Capability::EquationCoupledElliptic2x2 }
        else if i == 11 { Capability::OperatorElasticity }
        else { Capability::SolverGMRES }
    }

    /// The stable label of this capability (its display form).
    pub fn label(&self) -> (s: &'static str)
        ensures
            s@ == label(*self),
    {
        match self {
            Capability::SpaceH1Scalar => "Space_H1Scalar",
            Capability::SpaceH1Vector => "Space_H1Vector",
            Capability::OperatorLaplacian => "Operator_Laplacian",
            Capability::BcDirichlet => "BC_Dirichlet",
            Capability::SolverCG => "Solver_CG",
            Capability::PrecondJacobi => "Precond_Jacobi",
            Capability::PrecondMG => "Precond_MG",
            Capability::BlockOperator2x2 => "BlockOperator_2x2",
            Capability::PrecondBlockJacobi => "Precond_BlockJacobi",
            Capability::SolverBlockPCG => "Solver_BlockPCG",
            Capability::EquationCoupledElliptic2x2 => "Equation_CoupledElliptic2x2",
            Capability::OperatorElasticity => "Operator_Elasticity",
            Capability::SolverGMRES => "Solver_GMRES",
        }
    }

    /// The label as an owned string.
    pub fn to_label_string(&self) -> (s: String)
        ensures
            s@ == label(*self),
    {
        String::from_str(self.label())
    }
}

// ---------------------------------------------------------------------------
// CapabilitySet
// ---------------------------------------------------------------------------

/// A set of capabilities, iterated in declaration order.
#[derive(Debug, Clone)]
pub struct CapabilitySet {
    present: [bool; 13],
}

/// The members of a sequence of capabilities appear in strictly increasing
/// declaration order.
pub open spec fn strictly_ordered(s: Seq<Capability>) -> bool {
    forall|i: int, j: int| 0 <= i < j < s.len() ==> rank(#[trigger] s[i]) < rank(#[trigger] s[j])
}

/// Every capability once, in declaration order.
pub open spec fn declaration_order() -> Seq<Capability> {
    Seq::new(NUM_CAPABILITIES as nat, |i: int| of_rank(i as nat))
}

/// The sequence of a set's members holds each member once, in strictly
/// increasing declaration order, and nothing else.
pub proof fn lemma_to_seq(s: CapabilitySet)
    ensures
        strictly_ordered(s.to_seq()),
        forall|c: Capability| s.to_seq().contains(c) <==> s@.contains(c),
        s.to_seq().len() <= NUM_CAPABILITIES,
        s.to_seq().no_duplicates(),
{
    s.lemma_prefix_members(NUM_CAPABILITIES as int);
    assert(declaration_order().take(NUM_CAPABILITIES as int) =~= declaration_order());
    let q = s.to_seq();
    assert forall|i: int, j: int| 0 <= i < q.len() && 0 <= j < q.len() && i != j implies q[i] != q[j] by {
        if i < j {
            assert(rank(q[i]) < rank(q[j]));
        } else {
            assert(rank(q[j]) < rank(q[i]));
        }
    }
}

impl View for CapabilitySet {
    type V = Set<Capability>;

    closed spec fn view(&self) -> Set<Capability> {
        Set::new(|c: Capability| self.present@[rank(c) as int])
    }
}

impl CapabilitySet {
    /// The empty set.
    pub fn new() -> (s: CapabilitySet)
        ensures
            s@ == Set::<Capability>::empty(),
    {
        let present: [bool; 13] = [false; 13];
        let s = CapabilitySet { present };
        assert(s@ =~= Set::<Capability>::empty());
        s
    }

    /// The set of the capabilities in `caps`.
    pub fn from_slice(caps: &[Capability]) -> (s: CapabilitySet)
        ensures
            forall|c: Capability| s@.contains(c) <==> caps@.contains(c),
    {
        let mut s = CapabilitySet::new();
        let mut i: usize = 0;
        while i < caps.len()
            invariant
                i <= caps@.len(),
                forall|c: Capability| s@.contains(c) <==> caps@.take(i as int).contains(c),
            decreases caps@.len() - i,
        {
            s.insert(caps[i]);
            proof {
                let pre = caps@.take(i as int);
                let post = caps@.take(i + 1);
                assert(post =~= pre.push(caps@[i as int]));
                assert forall|c: Capability| s@.contains(c) <==> post.contains(c) by {
                    if pre.contains(c) {
                        let k = choose|k: int| 0 <= k < pre.len() && #[trigger] pre[k] == c;
                        assert(post[k] == c);
                    }
                    if post.contains(c) && c != caps@[i as int] {
                        let k = choose|k: int| 0 <= k < post.len() && #[trigger] post[k] == c;
                        assert(pre[k] == c);
                    }
                    if c == caps@[i as int] {
                        assert(post[i as int] == c);
                    }
                }
            }
            i = i + 1;
        }
        assert(caps@.take(caps@.len() as int) =~= caps@);
        s
    }

    /// Whether `c` is a member.
    pub fn contains(&self, c: &Capability) -> (b: bool)
        ensures
            b == self@.contains(*c),
    {
        self.present[c.index()]
    }

    /// Add `c`; returns whether it was absent before.
    pub fn insert(&mut self, c: Capability) -> (added: bool)
        ensures
            final(self)@ == old(self)@.insert(c),
            added == !old(self)@.contains(c),
    {
        let i = c.index();
        let was = self.present[i];
        self.present[i] = true;
        proof {
            assert forall|d: Capability| #[trigger] self@.contains(d) == old(self)@.insert(c).contains(d) by {
                if d != c {
                    assert(rank(d) != rank(c));
                }
            }
            assert(self@ =~= old(self)@.insert(c));
        }
        !was
    }

    /// Whether the set has no member.
    pub fn is_empty(&self) -> (b: bool)
        ensures
            b == (self@ == Set::<Capability>::empty()),
    {
        let mut i: usize = 0;
        while i < NUM_CAPABILITIES
            invariant
                i <= NUM_CAPABILITIES,
                self.present@.len() == NUM_CAPABILITIES,
                forall|k: int| 0 <= k < i ==> !self.present@[k],
            decreases NUM_CAPABILITIES - i,
        {
            if self.present[i] {
                proof {
                    let c = of_rank(i as nat);
                    assert(rank(c) == i);
                    assert(self@.contains(c));
                }
                return false;
            }
            i = i + 1;
        }
        proof {
            assert forall|c: Capability| !self@.contains(c) by {
                assert(rank(c) < NUM_CAPABILITIES);
            }
            assert(self@ =~= Set::<Capability>::empty());
        }
        true
    }

    /// Number of members.
    pub fn len(&self) -> (n: usize)
        ensures
            n == self.to_seq().len(),
            n <= NUM_CAPABILITIES,
    {
        self.to_vec().len()
    }

    /// The members, in declaration order, as a spec sequence.
    pub closed spec fn to_seq(&self) -> Seq<Capability> {
        declaration_order().filter(self.member_test())
    }

    /// The test for membership, as a spec closure.
    spec fn member_test(&self) -> spec_fn(Capability) -> bool {
        |c: Capability| self.present@[rank(c) as int]
    }

    /// What the members among the first `i` capabilities in declaration
    /// order are, and that they come in strictly increasing order.
    proof fn lemma_prefix_members(&self, i: int)
        requires
            0 <= i <= NUM_CAPABILITIES,
        ensures
            ({
                let p = declaration_order().take(i).filter(self.member_test());
                &&& strictly_ordered(p)
                &&& p.len() <= i
                &&& forall|k: int| 0 <= k < p.len() ==> rank(#[trigger] p[k]) < i
                &&& forall|c: Capability| p.contains(c) <==> (rank(c) < i && self@.contains(c))
            }),
        decreases i,
    {
        let all = declaration_order();
        let pred = self.member_test();
        if i > 0 {
            self.lemma_prefix_members(i - 1);
            reveal_with_fuel(Seq::<_>::filter, 1);
            let c = of_rank((i - 1) as nat);
            lemma_of_rank_rank((i - 1) as nat);
            assert(all.take(i).drop_last() =~= all.take(i - 1));
            assert(all.take(i).last() == c);
            let prev = all.take(i - 1).filter(pred);
            let p = all.take(i).filter(pred);
            assert forall|d: Capability| p.contains(d) <==> (rank(d) < i && self@.contains(d)) by {
                lemma_rank_of_rank(d);
                if pred(c) {
                    assert(p == prev.push(c));
                    if p.contains(d) {
                        let k = choose|k: int| 0 <= k < p.len() && p[k] == d;
                        if k < prev.len() {
                            assert(prev[k] == d);
                        }
                    }
                    if rank(d) < i && self@.contains(d) {
                        if rank(d) == i - 1 {
                            assert(p[prev.len() as int] == d);
                        } else {
                            assert(prev.contains(d));
                            let k = choose|k: int| 0 <= k < prev.len() && prev[k] == d;
                            assert(p[k] == d);
                        }
                    }
                } else {
                    assert(p == prev);
                }
            }
        } else {
            assert(all.take(0).filter(pred) =~= Seq::<Capability>::empty());
        }
    }

    /// The members, in declaration order.
    pub fn to_vec(&self) -> (v: Vec<Capability>)
        ensures
            strictly_ordered(v@),
            forall|c: Capability| v@.contains(c) <==> self@.contains(c),
            v@ == self.to_seq(),
            v@.len() <= NUM_CAPABILITIES,
    {
        let ghost all = declaration_order();
        let ghost pred = self.member_test();
        let mut v: Vec<Capability> = Vec::new();
        let mut i: usize = 0;
        while i < NUM_CAPABILITIES
            invariant
                i <= NUM_CAPABILITIES,
                self.present@.len() == NUM_CAPABILITIES,
                all == declaration_order(),
                pred == self.member_test(),
                v@ == all.take(i as int).filter(pred),
            decreases NUM_CAPABILITIES - i,
        {
            let c = Capability::from_index(i);
            proof {
                reveal_with_fuel(Seq::<_>::filter, 1);
                assert(all.take(i + 1).drop_last() =~= all.take(i as int));
                assert(all.take(i + 1).last() == c);
            }
            if self.present[i] {
                v.push(c);
            }
            i = i + 1;
        }
        proof {
            assert(all.take(NUM_CAPABILITIES as int) =~= all);
            lemma_to_seq(*self);
        }
        v
    }

    /// Members of `self` that are not members of `other`.
    pub fn difference(&self, other: &CapabilitySet) -> (d: CapabilitySet)
        ensures
            d@ == self@.difference(other@),
    {
        let mut d = CapabilitySet::new();
        let mut i: usize = 0;
        while i < NUM_CAPABILITIES
            invariant
                i <= NUM_CAPABILITIES,
                forall|c: Capability| d@.contains(c) <==> (rank(c) < i && self@.contains(c) && !other@.contains(c)),
            decreases NUM_CAPABILITIES - i,
        {
            let c = Capability::from_index(i);
            if self.contains(&c) && !other.contains(&c) {
                d.insert(c);
            }
            proof {
                assert forall|e: Capability| d@.contains(e) <==> (rank(e) < i + 1 && self@.contains(e) && !other@.contains(e)) by {
                    if rank(e) == i {
                        assert(of_rank(rank(e)) == e);
                    }
                }
            }
            i = i + 1;
        }
        proof {
            assert forall|c: Capability| #[trigger] d@.contains(c) == self@.difference(other@).contains(c) by {
                assert(rank(c) < NUM_CAPABILITIES);
            }
            assert(d@ =~= self@.difference(other@));
        }
        d
    }

    /// Add every member of `other`.
    pub fn extend(&mut self, other: &CapabilitySet)
        ensures
            final(self)@ == old(self)@.union(other@),
    {
        let mut i: usize = 0;
        while i < NUM_CAPABILITIES
            invariant
                i <= NUM_CAPABILITIES,
                forall|c: Capability| #[trigger] self@.contains(c) <==> (old(self)@.contains(c) || (rank(c) < i && other@.contains(c))),
            decreases NUM_CAPABILITIES - i,
        {
            let c = Capability::from_index(i);
            if other.contains(&c) {
                self.insert(c);
            }
            proof {
                assert forall|e: Capability| #[trigger] self@.contains(e) <==> (old(self)@.contains(e) || (rank(e) < i + 1 && other@.contains(e))) by {
                    if rank(e) == i {
                        assert(of_rank(rank(e)) == e);
                    }
                }
            }
            i = i + 1;
        }
        proof {
            assert forall|c: Capability| #[trigger] self@.contains(c) == old(self)@.union(other@).contains(c) by {
                assert(rank(c) < NUM_CAPABILITIES);
            }
            assert(self@ =~= old(self)@.union(other@));
        }
    }
}

// ---------------------------------------------------------------------------
// CapabilityRegistry
// ---------------------------------------------------------------------------

/// A registry that records which [`Capability`] values are currently
/// implemented.
#[derive(Debug, Clone)]
pub struct CapabilityRegistry {
    available: CapabilitySet,
}

impl View for CapabilityRegistry {
    type V = Set<Capability>;

    closed spec fn view(&self) -> Set<Capability> {
        self.available@
    }
}

impl CapabilityRegistry {
    /// Create an empty registry.
    pub fn empty() -> (r: CapabilityRegistry)
        ensures
            r@ == Set::<Capability>::empty(),
    {
        CapabilityRegistry { available: CapabilitySet::new() }
    }

    /// Create the default registry: the union of the capabilities of every
    /// pack of the catalog.
    pub fn default_registry() -> (r: CapabilityRegistry)
        ensures
            forall|c: Capability| #[trigger] r@.contains(c) <==> exists|i: int|
                0 <= i < catalog_view().len() && #[trigger] catalog_view()[i].2.contains(c),
    {
        let packs = iter_packs();
        let ghost pv = packs@.map_values(|p: PackEntry| pack_view(p));
        let mut reg = CapabilityRegistry::empty();
        let mut i: usize = 0;
        while i < packs.len()
            invariant
                i <= packs@.len(),
                pv == packs@.map_values(|p: PackEntry| pack_view(p)),
                pv == catalog_view(),
                forall|c: Capability| #[trigger] reg@.contains(c) <==> exists|k: int|
                    0 <= k < i && #[trigger] pv[k].2.contains(c),
            decreases packs@.len() - i,
        {
            let caps = packs[i].capabilities();
            assert(pv[i as int].2 == caps@);
            let mut j: usize = 0;
            while j < caps.len()
                invariant
                    i < packs@.len(),
                    pv == packs@.map_values(|p: PackEntry| pack_view(p)),
                    pv[i as int].2 == caps@,
                    j <= caps@.len(),
                    forall|c: Capability| #[trigger] reg@.contains(c) <==> (exists|k: int|
                        0 <= k < i && #[trigger] pv[k].2.contains(c)) || caps@.take(j as int).contains(c),
                decreases caps@.len() - j,
            {
                let ghost before = reg@;
                reg.register(caps[j]);
                proof {
                    let pre = caps@.take(j as int);
                    let post = caps@.take(j + 1);
                    assert(post =~= pre.push(caps@[j as int]));
                    assert forall|c: Capability| #[trigger] reg@.contains(c) <==> (exists|k: int|
                        0 <= k < i && #[trigger] pv[k].2.contains(c)) || post.contains(c) by {
                        if pre.contains(c) {
                            let q = choose|q: int| 0 <= q < pre.len() && #[trigger] pre[q] == c;
                            assert(post[q] == c);
                        }
                        if post.contains(c) && c != caps@[j as int] {
                            let q = choose|q: int| 0 <= q < post.len() && #[trigger] post[q] == c;
                            assert(pre[q] == c);
                        }
                        if c == caps@[j as int] {
                            assert(post[j as int] == c);
                        }
                    }
                }
                j = j + 1;
            }
            proof {
                assert(caps@.take(caps@.len() as int) =~= caps@);
                assert forall|c: Capability| #[trigger] reg@.contains(c) <==> exists|k: int|
                    0 <= k < i + 1 && #[trigger] pv[k].2.contains(c) by {
                    if caps@.contains(c) {
                        assert(pv[i as int].2.contains(c));
                    }
                    if exists|k: int| 0 <= k < i + 1 && #[trigger] pv[k].2.contains(c) {
                        let k = choose|k: int| 0 <= k < i + 1 && #[trigger] pv[k].2.contains(c);
                        if k == i {
                            assert(caps@.contains(c));
                        }
                    }
                }
            }
            i = i + 1;
        }
        reg
    }

    /// Register a capability as available.
    pub fn register(&mut self, cap: Capability)
        ensures
            final(self)@ == old(self)@.insert(cap),
    {
        self.available.insert(cap);
    }

    /// Check whether a capability is available.
    pub fn has(&self, cap: &Capability) -> (b: bool)
        ensures
            b == self@.contains(*cap),
    {
        self.available.contains(cap)
    }

    /// The set of available capabilities.
    pub fn available(&self) -> (s: &CapabilitySet)
        ensures
            s@ == self@,
    {
        &self.available
    }

    /// The capabilities of `required` that are **not** in the registry.
    pub fn missing(&self, required: &CapabilitySet) -> (m: CapabilitySet)
        ensures
            m@ == required@.difference(self@),
    {
        required.difference(&self.available)
    }
}

/// Nothing is missing exactly when every required capability is available.
pub proof fn lemma_missing_empty_iff_covered(available: Set<Capability>, required: Set<Capability>)
    ensures
        (required.difference(available) == Set::<Capability>::empty()) <==> required.subset_of(available),
{
    if required.subset_of(available) {
        assert(required.difference(available) =~= Set::<Capability>::empty());
    }
    if required.difference(available) == Set::<Capability>::empty() {
        assert forall|c: Capability| required.contains(c) implies available.contains(c) by {
            assert(!required.difference(available).contains(c));
        }
    }
}

/// After a capability is registered, a registry reports it as available,
/// and it is missing from no requirement.
pub proof fn lemma_register_then_has(before: Set<Capability>, cap: Capability, required: Set<Capability>)
    ensures
        before.insert(cap).contains(cap),
        !required.difference(before.insert(cap)).contains(cap),
        forall|c: Capability| c != cap ==> (before.insert(cap).contains(c) == before.contains(c)),
{
}

} // verus!
