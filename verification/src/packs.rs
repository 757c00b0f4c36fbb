//! The method packs of the framework: Poisson, elasticity, coupled 2x2
//! block systems and generic linear solvers, and the catalog of all packs.
//!
//! Physics packs own operators and preconditioners and never register
//! single-field solver factories; the linear solvers pack owns those; block
//! specific solvers stay in the pack that defines the block structure.

use vstd::prelude::*;
use crate::capability::Capability;
use crate::components::{
    operator_key_views, preconditioner_key_views, solver_key_views, OperatorFactory,
    PreconditionerFactory, ProblemBuilder, SolverFactory,
};
use crate::keys::{
    OperatorKey, OperatorKeyView, PreconditionerKey, PreconditionerKeyView, SolverKey, SolverKeyView,
};
use crate::pack::PackEntry;
use crate::text::views;

verus! {

/// What a builder holds: name, equation type, dimensions, backends.
pub open spec fn builder_view(b: ProblemBuilder) -> (Seq<char>, Seq<char>, Seq<u8>, Seq<Seq<char>>) {
    (b.name@, b.equation_type@, b.dimensions@, views(b.backends@))
}

/// What an operator factory holds: name, keys, provided and required capabilities.
pub open spec fn operator_factory_view(f: OperatorFactory) -> (Seq<char>, Seq<OperatorKeyView>, Seq<Capability>, Seq<Capability>) {
    (f.name@, operator_key_views(f), f.provided@, f.required@)
}

/// What a preconditioner factory holds.
pub open spec fn preconditioner_factory_view(f: PreconditionerFactory) -> (Seq<char>, Seq<PreconditionerKeyView>, Seq<Capability>, Seq<Capability>) {
    (f.name@, preconditioner_key_views(f), f.provided@, f.required@)
}

/// What a solver factory holds.
pub open spec fn solver_factory_view(f: SolverFactory) -> (Seq<char>, Seq<SolverKeyView>, Seq<Capability>, Seq<Capability>) {
    (f.name@, solver_key_views(f), f.provided@, f.required@)
}

/// Everything a pack holds, as values.
pub type PackView = (
    Seq<char>,
    Seq<char>,
    Seq<Capability>,
    Seq<(Seq<char>, Seq<char>, Seq<u8>, Seq<Seq<char>>)>,
    Seq<(Seq<char>, Seq<OperatorKeyView>, Seq<Capability>, Seq<Capability>)>,
    Seq<(Seq<char>, Seq<PreconditionerKeyView>, Seq<Capability>, Seq<Capability>)>,
    Seq<(Seq<char>, Seq<SolverKeyView>, Seq<Capability>, Seq<Capability>)>,
);

/// Everything a pack holds, as values.
pub open spec fn pack_view(p: PackEntry) -> PackView {
    (
        p.name@,
        p.version@,
        p.capabilities@,
        p.builders@.map_values(|b: ProblemBuilder| builder_view(b)),
        p.operator_factories@.map_values(|f: OperatorFactory| operator_factory_view(f)),
        p.preconditioner_factories@.map_values(|f: PreconditionerFactory| preconditioner_factory_view(f)),
        p.solver_factories@.map_values(|f: SolverFactory| solver_factory_view(f)),
    )
}

fn strings(items: &[&str]) -> (v: Vec<String>)
    ensures
        v@.len() == items@.len(),
        forall|k: int| 0 <= k < items@.len() ==> (#[trigger] v@[k])@ == items@[k]@,
{
    let mut v: Vec<String> = Vec::new();
    let mut i: usize = 0;
    while i < items.len()
        invariant
            i <= items@.len(),
            v@.len() == i,
            forall|k: int| 0 <= k < i ==> (#[trigger] v@[k])@ == items@[k]@,
        decreases items@.len() - i,
    {
        v.push(String::from_str(items[i]));
        i = i + 1;
    }
    v
}

// ---------------------------------------------------------------------------
// Block2x2Pack
// ---------------------------------------------------------------------------

/// The contents of the block2x2 pack.
pub open spec fn block2x2_pack_view() -> PackView {
    (
        "block2x2"@,
        "0.1.0"@,
        seq![Capability::BlockOperator2x2, Capability::PrecondBlockJacobi, Capability::SolverBlockPCG, Capability::EquationCoupledElliptic2x2],
        seq![("CoupledEllipticBuilder"@, "coupled_elliptic_2x2"@, seq![2u8, 3u8], seq!["matrixfree"@])],
        Seq::<(Seq<char>, Seq<OperatorKeyView>, Seq<Capability>, Seq<Capability>)>::empty(),
        Seq::<(Seq<char>, Seq<PreconditionerKeyView>, Seq<Capability>, Seq<Capability>)>::empty(),
        seq![("BlockPcgSolver"@, seq![("block_pcg"@, true, false, "block2x2"@)], seq![Capability::SolverBlockPCG], seq![Capability::BlockOperator2x2])],
    )
}

/// 2x2 block systems and coupled elliptic problems: the coupled builder and the block PCG solver.
#[derive(Debug, Clone, Copy, Default)]
pub struct Block2x2Pack;

impl Block2x2Pack {
    /// Human-readable pack name.
    pub fn name(&self) -> (s: &'static str)
        ensures
            s@ == "block2x2"@,
    {
        "block2x2"
    }

    /// Pack version string.
    pub fn version(&self) -> (s: &'static str)
        ensures
            s@ == "0.1.0"@,
    {
        "0.1.0"
    }

    /// Capabilities this pack provides.
    pub fn capabilities(&self) -> (c: Vec<Capability>)
        ensures
            c@ == seq![Capability::BlockOperator2x2, Capability::PrecondBlockJacobi, Capability::SolverBlockPCG, Capability::EquationCoupledElliptic2x2],
    {
        let mut c: Vec<Capability> = Vec::new();
        c.push(Capability::BlockOperator2x2);
        c.push(Capability::PrecondBlockJacobi);
        c.push(Capability::SolverBlockPCG);
        c.push(Capability::EquationCoupledElliptic2x2);
        c
    }

    /// The pack with all the components it registers.
    pub fn entry(&self) -> (e: PackEntry)
        ensures
            pack_view(e) == block2x2_pack_view(),
    {
        let mut builders: Vec<ProblemBuilder> = Vec::new();
        {
            let mut dims: Vec<u8> = Vec::new();
            dims.push(2);
            dims.push(3);
            let backends = strings(&["matrixfree"]);
            let b = ProblemBuilder { name: String::from_str("CoupledEllipticBuilder"), equation_type: String::from_str("coupled_elliptic_2x2"), dimensions: dims, backends };
            assert(views(b.backends@) =~= seq!["matrixfree"@]);
            assert(b.dimensions@ =~= seq![2u8, 3u8]);
            builders.push(b);
        }
        let mut ops: Vec<OperatorFactory> = Vec::new();
        let mut pcs: Vec<PreconditionerFactory> = Vec::new();
        let mut solvers: Vec<SolverFactory> = Vec::new();
        {
            let mut keys: Vec<SolverKey> = Vec::new();
            keys.push(SolverKey::new("block_pcg", true, false, "block2x2"));
            let mut provided: Vec<Capability> = Vec::new();
            provided.push(Capability::SolverBlockPCG);
            let mut required: Vec<Capability> = Vec::new();
            required.push(Capability::BlockOperator2x2);
            let f = SolverFactory { name: String::from_str("BlockPcgSolver"), keys, provided, required };
            assert(solver_key_views(f) =~= seq![("block_pcg"@, true, false, "block2x2"@)]);
            assert(f.provided@ =~= seq![Capability::SolverBlockPCG]);
            assert(f.required@ =~= seq![Capability::BlockOperator2x2]);
            solvers.push(f);
        }
        let e = PackEntry {
            name: String::from_str(self.name()),
            version: String::from_str(self.version()),
            capabilities: self.capabilities(),
            builders,
            operator_factories: ops,
            preconditioner_factories: pcs,
            solver_factories: solvers,
        };
        assert(pack_view(e).3 =~= block2x2_pack_view().3);
        assert(pack_view(e).4 =~= block2x2_pack_view().4);
        assert(pack_view(e).5 =~= block2x2_pack_view().5);
        assert(pack_view(e).6 =~= block2x2_pack_view().6);
        assert(pack_view(e).2 =~= block2x2_pack_view().2);
        e
    }
}

// ---------------------------------------------------------------------------
// ElasticityPack
// ---------------------------------------------------------------------------

/// The contents of the elasticity pack.
pub open spec fn elasticity_pack_view() -> PackView {
    (
        "elasticity"@,
        "0.1.0"@,
        seq![Capability::SpaceH1Vector, Capability::OperatorElasticity, Capability::BcDirichlet, Capability::PrecondJacobi],
        seq![("ElasticityBuilder"@, "elasticity"@, seq![2u8, 3u8], seq!["assembled"@, "matrixfree"@])],
        seq![("ElasticityOperator"@, seq![("elasticity"@, "assembled"@, 2u8, "H1Vector"@, "quad"@, 1u8, "single_field"@), ("elasticity"@, "assembled"@, 3u8, "H1Vector"@, "hex"@, 1u8, "single_field"@), ("elasticity"@, "matrixfree"@, 2u8, "H1Vector"@, "quad"@, 1u8, "single_field"@), ("elasticity"@, "matrixfree"@, 3u8, "H1Vector"@, "hex"@, 1u8, "single_field"@)], seq![Capability::OperatorElasticity], seq![Capability::SpaceH1Vector, Capability::BcDirichlet])],
        seq![("ElasticityJacobiPreconditioner"@, seq![("jacobi"@, "assembled"@, 2u8, "elasticity"@, "H1Vector"@, "quad"@, 1u8, "single_field"@), ("jacobi"@, "assembled"@, 3u8, "elasticity"@, "H1Vector"@, "hex"@, 1u8, "single_field"@), ("jacobi"@, "matrixfree"@, 2u8, "elasticity"@, "H1Vector"@, "quad"@, 1u8, "single_field"@), ("jacobi"@, "matrixfree"@, 3u8, "elasticity"@, "H1Vector"@, "hex"@, 1u8, "single_field"@)], seq![Capability::PrecondJacobi], Seq::<Capability>::empty())],
        Seq::<(Seq<char>, Seq<SolverKeyView>, Seq<Capability>, Seq<Capability>)>::empty(),
    )
}

/// Linear isotropic elasticity: the builder, the operator factory and the Jacobi preconditioner factory.
#[derive(Debug, Clone, Copy, Default)]
pub struct ElasticityPack;

impl ElasticityPack {
    /// Human-readable pack name.
    pub fn name(&self) -> (s: &'static str)
        ensures
            s@ == "elasticity"@,
    {
        "elasticity"
    }

    /// Pack version string.
    pub fn version(&self) -> (s: &'static str)
        ensures
            s@ == "0.1.0"@,
    {
        "0.1.0"
    }

    /// Capabilities this pack provides.
    pub fn capabilities(&self) -> (c: Vec<Capability>)
        ensures
            c@ == seq![Capability::SpaceH1Vector, Capability::OperatorElasticity, Capability::BcDirichlet, Capability::PrecondJacobi],
    {
        let mut c: Vec<Capability> = Vec::new();
        c.push(Capability::SpaceH1Vector);
        c.push(Capability::OperatorElasticity);
        c.push(Capability::BcDirichlet);
        c.push(Capability::PrecondJacobi);
        c
    }

    /// The pack with all the components it registers.
    pub fn entry(&self) -> (e: PackEntry)
        ensures
            pack_view(e) == elasticity_pack_view(),
    {
        let mut builders: Vec<ProblemBuilder> = Vec::new();
        {
            let mut dims: Vec<u8> = Vec::new();
            dims.push(2);
            dims.push(3);
            let backends = strings(&["assembled", "matrixfree"]);
            let b = ProblemBuilder { name: String::from_str("ElasticityBuilder"), equation_type: String::from_str("elasticity"), dimensions: dims, backends };
            assert(views(b.backends@) =~= seq!["assembled"@, "matrixfree"@]);
            assert(b.dimensions@ =~= seq![2u8, 3u8]);
            builders.push(b);
        }
        let mut ops: Vec<OperatorFactory> = Vec::new();
        {
            let mut keys: Vec<OperatorKey> = Vec::new();
            keys.push(OperatorKey::new("elasticity", "assembled", 2, "H1Vector", "quad", 1, "single_field"));
            keys.push(OperatorKey::new("elasticity", "assembled", 3, "H1Vector", "hex", 1, "single_field"));
            keys.push(OperatorKey::new("elasticity", "matrixfree", 2, "H1Vector", "quad", 1, "single_field"));
            keys.push(OperatorKey::new("elasticity", "matrixfree", 3, "H1Vector", "hex", 1, "single_field"));
            let mut provided: Vec<Capability> = Vec::new();
            provided.push(Capability::OperatorElasticity);
            let mut required: Vec<Capability> = Vec::new();
            required.push(Capability::SpaceH1Vector);
            required.push(Capability::BcDirichlet);
            let f = OperatorFactory { name: String::from_str("ElasticityOperator"), keys, provided, required };
            assert(operator_key_views(f) =~= seq![("elasticity"@, "assembled"@, 2u8, "H1Vector"@, "quad"@, 1u8, "single_field"@), ("elasticity"@, "assembled"@, 3u8, "H1Vector"@, "hex"@, 1u8, "single_field"@), ("elasticity"@, "matrixfree"@, 2u8, "H1Vector"@, "quad"@, 1u8, "single_field"@), ("elasticity"@, "matrixfree"@, 3u8, "H1Vector"@, "hex"@, 1u8, "single_field"@)]);
            assert(f.provided@ =~= seq![Capability::OperatorElasticity]);
            assert(f.required@ =~= seq![Capability::SpaceH1Vector, Capability::BcDirichlet]);
            ops.push(f);
        }
        let mut pcs: Vec<PreconditionerFactory> = Vec::new();
        {
            let mut keys: Vec<PreconditionerKey> = Vec::new();
            keys.push(PreconditionerKey::new("jacobi", "assembled", 2, "elasticity", "H1Vector", "quad", 1, "single_field"));
            keys.push(PreconditionerKey::new("jacobi", "assembled", 3, "elasticity", "H1Vector", "hex", 1, "single_field"));
            keys.push(PreconditionerKey::new("jacobi", "matrixfree", 2, "elasticity", "H1Vector", "quad", 1, "single_field"));
            keys.push(PreconditionerKey::new("jacobi", "matrixfree", 3, "elasticity", "H1Vector", "hex", 1, "single_field"));
            let mut provided: Vec<Capability> = Vec::new();
            provided.push(Capability::PrecondJacobi);
            let mut required: Vec<Capability> = Vec::new();
            let f = PreconditionerFactory { name: String::from_str("ElasticityJacobiPreconditioner"), keys, provided, required };
            assert(preconditioner_key_views(f) =~= seq![("jacobi"@, "assembled"@, 2u8, "elasticity"@, "H1Vector"@, "quad"@, 1u8, "single_field"@), ("jacobi"@, "assembled"@, 3u8, "elasticity"@, "H1Vector"@, "hex"@, 1u8, "single_field"@), ("jacobi"@, "matrixfree"@, 2u8, "elasticity"@, "H1Vector"@, "quad"@, 1u8, "single_field"@), ("jacobi"@, "matrixfree"@, 3u8, "elasticity"@, "H1Vector"@, "hex"@, 1u8, "single_field"@)]);
            assert(f.provided@ =~= seq![Capability::PrecondJacobi]);
            assert(f.required@ =~= Seq::<Capability>::empty());
            pcs.push(f);
        }
        let mut solvers: Vec<SolverFactory> = Vec::new();
        let e = PackEntry {
            name: String::from_str(self.name()),
            version: String::from_str(self.version()),
            capabilities: self.capabilities(),
            builders,
            operator_factories: ops,
            preconditioner_factories: pcs,
            solver_factories: solvers,
        };
        assert(pack_view(e).3 =~= elasticity_pack_view().3);
        assert(pack_view(e).4 =~= elasticity_pack_view().4);
        assert(pack_view(e).5 =~= elasticity_pack_view().5);
        assert(pack_view(e).6 =~= elasticity_pack_view().6);
        assert(pack_view(e).2 =~= elasticity_pack_view().2);
        e
    }
}

// ---------------------------------------------------------------------------
// LinearSolversPack
// ---------------------------------------------------------------------------

/// The contents of the linear_solvers pack.
pub open spec fn linear_solvers_pack_view() -> PackView {
    (
        "linear_solvers"@,
        "0.1.0"@,
        seq![Capability::SolverCG, Capability::SolverGMRES],
        Seq::<(Seq<char>, Seq<char>, Seq<u8>, Seq<Seq<char>>)>::empty(),
        Seq::<(Seq<char>, Seq<OperatorKeyView>, Seq<Capability>, Seq<Capability>)>::empty(),
        Seq::<(Seq<char>, Seq<PreconditionerKeyView>, Seq<Capability>, Seq<Capability>)>::empty(),
        seq![("CgSolver"@, seq![("cg"@, true, false, "single_field"@)], seq![Capability::SolverCG], Seq::<Capability>::empty()), ("GmresSolver"@, seq![("gmres"@, false, false, "single_field"@)], seq![Capability::SolverGMRES], Seq::<Capability>::empty())],
    )
}

/// Generic single-field linear solvers: CG and GMRES factories.
#[derive(Debug, Clone, Copy, Default)]
pub struct LinearSolversPack;

impl LinearSolversPack {
    /// Human-readable pack name.
    pub fn name(&self) -> (s: &'static str)
        ensures
            s@ == "linear_solvers"@,
    {
        "linear_solvers"
    }

    /// Pack version string.
    pub fn version(&self) -> (s: &'static str)
        ensures
            s@ == "0.1.0"@,
    {
        "0.1.0"
    }

    /// Capabilities this pack provides.
    pub fn capabilities(&self) -> (c: Vec<Capability>)
        ensures
            c@ == seq![Capability::SolverCG, Capability::SolverGMRES],
    {
        let mut c: Vec<Capability> = Vec::new();
        c.push(Capability::SolverCG);
        c.push(Capability::SolverGMRES);
        c
    }

    /// The pack with all the components it registers.
    pub fn entry(&self) -> (e: PackEntry)
        ensures
            pack_view(e) == linear_solvers_pack_view(),
    {
        let mut builders: Vec<ProblemBuilder> = Vec::new();
        let mut ops: Vec<OperatorFactory> = Vec::new();
        let mut pcs: Vec<PreconditionerFactory> = Vec::new();
        let mut solvers: Vec<SolverFactory> = Vec::new();
        {
            let mut keys: Vec<SolverKey> = Vec::new();
            keys.push(SolverKey::new("cg", true, false, "single_field"));
            let mut provided: Vec<Capability> = Vec::new();
            provided.push(Capability::SolverCG);
            let mut required: Vec<Capability> = Vec::new();
            let f = SolverFactory { name: String::from_str("CgSolver"), keys, provided, required };
            assert(solver_key_views(f) =~= seq![("cg"@, true, false, "single_field"@)]);
            assert(f.provided@ =~= seq![Capability::SolverCG]);
            assert(f.required@ =~= Seq::<Capability>::empty());
            solvers.push(f);
        }
        {
            let mut keys: Vec<SolverKey> = Vec::new();
            keys.push(SolverKey::new("gmres", false, false, "single_field"));
            let mut provided: Vec<Capability> = Vec::new();
            provided.push(Capability::SolverGMRES);
            let mut required: Vec<Capability> = Vec::new();
            let f = SolverFactory { name: String::from_str("GmresSolver"), keys, provided, required };
            assert(solver_key_views(f) =~= seq![("gmres"@, false, false, "single_field"@)]);
            assert(f.provided@ =~= seq![Capability::SolverGMRES]);
            assert(f.required@ =~= Seq::<Capability>::empty());
            solvers.push(f);
        }
        let e = PackEntry {
            name: String::from_str(self.name()),
            version: String::from_str(self.version()),
            capabilities: self.capabilities(),
            builders,
            operator_factories: ops,
            preconditioner_factories: pcs,
            solver_factories: solvers,
        };
        assert(pack_view(e).3 =~= linear_solvers_pack_view().3);
        assert(pack_view(e).4 =~= linear_solvers_pack_view().4);
        assert(pack_view(e).5 =~= linear_solvers_pack_view().5);
        assert(pack_view(e).6 =~= linear_solvers_pack_view().6);
        assert(pack_view(e).2 =~= linear_solvers_pack_view().2);
        e
    }
}

// ---------------------------------------------------------------------------
// PoissonPack
// ---------------------------------------------------------------------------

/// The contents of the poisson pack.
pub open spec fn poisson_pack_view() -> PackView {
    (
        "poisson"@,
        "0.1.0"@,
        seq![Capability::SpaceH1Scalar, Capability::OperatorLaplacian, Capability::BcDirichlet, Capability::PrecondJacobi, Capability::PrecondMG],
        seq![("PoissonBuilder"@, "poisson"@, seq![2u8, 3u8], seq!["assembled"@, "matrixfree"@])],
        seq![("PoissonOperator"@, seq![("poisson"@, "assembled"@, 2u8, "H1Scalar"@, "quad"@, 1u8, "single_field"@), ("poisson"@, "assembled"@, 3u8, "H1Scalar"@, "hex"@, 1u8, "single_field"@), ("poisson"@, "matrixfree"@, 2u8, "H1Scalar"@, "quad"@, 1u8, "single_field"@), ("poisson"@, "matrixfree"@, 3u8, "H1Scalar"@, "hex"@, 1u8, "single_field"@)], seq![Capability::OperatorLaplacian], seq![Capability::SpaceH1Scalar, Capability::BcDirichlet])],
        seq![("JacobiPreconditioner"@, seq![("jacobi"@, "assembled"@, 2u8, "poisson"@, "H1Scalar"@, "quad"@, 1u8, "single_field"@), ("jacobi"@, "assembled"@, 3u8, "poisson"@, "H1Scalar"@, "hex"@, 1u8, "single_field"@), ("jacobi"@, "matrixfree"@, 2u8, "poisson"@, "H1Scalar"@, "quad"@, 1u8, "single_field"@), ("jacobi"@, "matrixfree"@, 3u8, "poisson"@, "H1Scalar"@, "hex"@, 1u8, "single_field"@)], seq![Capability::PrecondJacobi], Seq::<Capability>::empty()), ("MultigridPreconditioner"@, seq![("mg"@, "matrixfree"@, 2u8, "poisson"@, "H1Scalar"@, "quad"@, 1u8, "single_field"@), ("mg"@, "matrixfree"@, 3u8, "poisson"@, "H1Scalar"@, "hex"@, 1u8, "single_field"@)], seq![Capability::PrecondMG], seq![Capability::OperatorLaplacian])],
        Seq::<(Seq<char>, Seq<SolverKeyView>, Seq<Capability>, Seq<Capability>)>::empty(),
    )
}

/// Scalar Poisson problems: the builder, the operator factory and the Jacobi and multigrid preconditioner factories.
#[derive(Debug, Clone, Copy, Default)]
pub struct PoissonPack;

impl PoissonPack {
    /// Human-readable pack name.
    pub fn name(&self) -> (s: &'static str)
        ensures
            s@ == "poisson"@,
    {
        "poisson"
    }

    /// Pack version string.
    pub fn version(&self) -> (s: &'static str)
        ensures
            s@ == "0.1.0"@,
    {
        "0.1.0"
    }

    /// Capabilities this pack provides.
    pub fn capabilities(&self) -> (c: Vec<Capability>)
        ensures
            c@ == seq![Capability::SpaceH1Scalar, Capability::OperatorLaplacian, Capability::BcDirichlet, Capability::PrecondJacobi, Capability::PrecondMG],
    {
        let mut c: Vec<Capability> = Vec::new();
        c.push(Capability::SpaceH1Scalar);
        c.push(Capability::OperatorLaplacian);
        c.push(Capability::BcDirichlet);
        c.push(Capability::PrecondJacobi);
        c.push(Capability::PrecondMG);
        c
    }

    /// The pack with all the components it registers.
    pub fn entry(&self) -> (e: PackEntry)
        ensures
            pack_view(e) == poisson_pack_view(),
    {
        let mut builders: Vec<ProblemBuilder> = Vec::new();
        {
            let mut dims: Vec<u8> = Vec::new();
            dims.push(2);
            dims.push(3);
            let backends = strings(&["assembled", "matrixfree"]);
            let b = ProblemBuilder { name: String::from_str("PoissonBuilder"), equation_type: String::from_str("poisson"), dimensions: dims, backends };
            assert(views(b.backends@) =~= seq!["assembled"@, "matrixfree"@]);
            assert(b.dimensions@ =~= seq![2u8, 3u8]);
            builders.push(b);
        }
        let mut ops: Vec<OperatorFactory> = Vec::new();
        {
            let mut keys: Vec<OperatorKey> = Vec::new();
            keys.push(OperatorKey::new("poisson", "assembled", 2, "H1Scalar", "quad", 1, "single_field"));
            keys.push(OperatorKey::new("poisson", "assembled", 3, "H1Scalar", "hex", 1, "single_field"));
            keys.push(OperatorKey::new("poisson", "matrixfree", 2, "H1Scalar", "quad", 1, "single_field"));
            keys.push(OperatorKey::new("poisson", "matrixfree", 3, "H1Scalar", "hex", 1, "single_field"));
            let mut provided: Vec<Capability> = Vec::new();
            provided.push(Capability::OperatorLaplacian);
            let mut required: Vec<Capability> = Vec::new();
            required.push(Capability::SpaceH1Scalar);
            required.push(Capability::BcDirichlet);
            let f = OperatorFactory { name: String::from_str("PoissonOperator"), keys, provided, required };
            assert(operator_key_views(f) =~= seq![("poisson"@, "assembled"@, 2u8, "H1Scalar"@, "quad"@, 1u8, "single_field"@), ("poisson"@, "assembled"@, 3u8, "H1Scalar"@, "hex"@, 1u8, "single_field"@), ("poisson"@, "matrixfree"@, 2u8, "H1Scalar"@, "quad"@, 1u8, "single_field"@), ("poisson"@, "matrixfree"@, 3u8, "H1Scalar"@, "hex"@, 1u8, "single_field"@)]);
            assert(f.provided@ =~= seq![Capability::OperatorLaplacian]);
            assert(f.required@ =~= seq![Capability::SpaceH1Scalar, Capability::BcDirichlet]);
            ops.push(f);
        }
        let mut pcs: Vec<PreconditionerFactory> = Vec::new();
        {
            let mut keys: Vec<PreconditionerKey> = Vec::new();
            keys.push(PreconditionerKey::new("jacobi", "assembled", 2, "poisson", "H1Scalar", "quad", 1, "single_field"));
            keys.push(PreconditionerKey::new("jacobi", "assembled", 3, "poisson", "H1Scalar", "hex", 1, "single_field"));
            keys.push(PreconditionerKey::new("jacobi", "matrixfree", 2, "poisson", "H1Scalar", "quad", 1, "single_field"));
            keys.push(PreconditionerKey::new("jacobi", "matrixfree", 3, "poisson", "H1Scalar", "hex", 1, "single_field"));
            let mut provided: Vec<Capability> = Vec::new();
            provided.push(Capability::PrecondJacobi);
            let mut required: Vec<Capability> = Vec::new();
            let f = PreconditionerFactory { name: String::from_str("JacobiPreconditioner"), keys, provided, required };
            assert(preconditioner_key_views(f) =~= seq![("jacobi"@, "assembled"@, 2u8, "poisson"@, "H1Scalar"@, "quad"@, 1u8, "single_field"@), ("jacobi"@, "assembled"@, 3u8, "poisson"@, "H1Scalar"@, "hex"@, 1u8, "single_field"@), ("jacobi"@, "matrixfree"@, 2u8, "poisson"@, "H1Scalar"@, "quad"@, 1u8, "single_field"@), ("jacobi"@, "matrixfree"@, 3u8, "poisson"@, "H1Scalar"@, "hex"@, 1u8, "single_field"@)]);
            assert(f.provided@ =~= seq![Capability::PrecondJacobi]);
            assert(f.required@ =~= Seq::<Capability>::empty());
            pcs.push(f);
        }
        {
            let mut keys: Vec<PreconditionerKey> = Vec::new();
            keys.push(PreconditionerKey::new("mg", "matrixfree", 2, "poisson", "H1Scalar", "quad", 1, "single_field"));
            keys.push(PreconditionerKey::new("mg", "matrixfree", 3, "poisson", "H1Scalar", "hex", 1, "single_field"));
            let mut provided: Vec<Capability> = Vec::new();
            provided.push(Capability::PrecondMG);
            let mut required: Vec<Capability> = Vec::new();
            required.push(Capability::OperatorLaplacian);
            let f = PreconditionerFactory { name: String::from_str("MultigridPreconditioner"), keys, provided, required };
            assert(preconditioner_key_views(f) =~= seq![("mg"@, "matrixfree"@, 2u8, "poisson"@, "H1Scalar"@, "quad"@, 1u8, "single_field"@), ("mg"@, "matrixfree"@, 3u8, "poisson"@, "H1Scalar"@, "hex"@, 1u8, "single_field"@)]);
            assert(f.provided@ =~= seq![Capability::PrecondMG]);
            assert(f.required@ =~= seq![Capability::OperatorLaplacian]);
            pcs.push(f);
        }
        let mut solvers: Vec<SolverFactory> = Vec::new();
        let e = PackEntry {
            name: String::from_str(self.name()),
            version: String::from_str(self.version()),
            capabilities: self.capabilities(),
            builders,
            operator_factories: ops,
            preconditioner_factories: pcs,
            solver_factories: solvers,
        };
        assert(pack_view(e).3 =~= poisson_pack_view().3);
        assert(pack_view(e).4 =~= poisson_pack_view().4);
        assert(pack_view(e).5 =~= poisson_pack_view().5);
        assert(pack_view(e).6 =~= poisson_pack_view().6);
        assert(pack_view(e).2 =~= poisson_pack_view().2);
        e
    }
}

// ---------------------------------------------------------------------------
// Catalog
// ---------------------------------------------------------------------------

/// The contents of the packs of the catalog, in catalog order.
pub open spec fn catalog_view() -> Seq<PackView> {
    seq![block2x2_pack_view(), elasticity_pack_view(), linear_solvers_pack_view(), poisson_pack_view()]
}

/// Every registered method pack, ordered by name.
pub fn iter_packs() -> (v: Vec<PackEntry>)
    ensures
        v@.map_values(|p: PackEntry| pack_view(p)) == catalog_view(),
{
    let mut v: Vec<PackEntry> = Vec::new();
    v.push(Block2x2Pack.entry());
    v.push(ElasticityPack.entry());
    v.push(LinearSolversPack.entry());
    v.push(PoissonPack.entry());
    assert(v@.map_values(|p: PackEntry| pack_view(p)) =~= catalog_view());
    v
}

} // verus!
