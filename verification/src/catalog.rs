//! What a registry filled from the catalog of packs selects: for each key
//! that a solve asks for, the builder or factory that serves it.

use vstd::prelude::*;
use crate::components::{
    builder_supports, operator_key_views, preconditioner_key_views, solver_key_views, OperatorFactory,
    PreconditionerFactory, ProblemBuilder, SolverFactory,
};
use crate::pack::PackEntry;
use crate::packs::{
    block2x2_pack_view, builder_view, catalog_view, elasticity_pack_view, linear_solvers_pack_view, operator_factory_view,
    pack_view, poisson_pack_view, preconditioner_factory_view, solver_factory_view,
};
use crate::registry::{
    matching_indices, registered_builders, registered_operators, registered_preconditioners, registered_solvers,
};
use crate::text::views;

verus! {

/// The names that the catalog's keys use are distinct from one another.
proof fn lemma_distinct_names()
    ensures
        "poisson"@ != "elasticity"@,
        "poisson"@ != "coupled_elliptic_2x2"@,
        "elasticity"@ != "coupled_elliptic_2x2"@,
        "assembled"@ != "matrixfree"@,
        "jacobi"@ != "mg"@,
        "H1Scalar"@ != "H1Vector"@,
        "quad"@ != "hex"@,
        "cg"@ != "gmres"@,
        "cg"@ != "block_pcg"@,
        "gmres"@ != "block_pcg"@,
        "single_field"@ != "block2x2"@,
{
    reveal_strlit("poisson");
    reveal_strlit("elasticity");
    reveal_strlit("coupled_elliptic_2x2");
    reveal_strlit("assembled");
    reveal_strlit("matrixfree");
    reveal_strlit("jacobi");
    reveal_strlit("mg");
    reveal_strlit("H1Scalar");
    reveal_strlit("H1Vector");
    reveal_strlit("quad");
    reveal_strlit("hex");
    reveal_strlit("cg");
    reveal_strlit("gmres");
    reveal_strlit("block_pcg");
    reveal_strlit("single_field");
    reveal_strlit("block2x2");
    assert("poisson"@[0] != "elasticity"@[0]);
    assert("poisson"@[0] != "coupled_elliptic_2x2"@[0]);
    assert("elasticity"@[0] != "coupled_elliptic_2x2"@[0]);
    assert("assembled"@[0] != "matrixfree"@[0]);
    assert("jacobi"@[0] != "mg"@[0]);
    assert("H1Scalar"@[2] != "H1Vector"@[2]);
    assert("quad"@[0] != "hex"@[0]);
    assert("cg"@[0] != "gmres"@[0]);
    assert("cg"@[0] != "block_pcg"@[0]);
    assert("gmres"@[0] != "block_pcg"@[0]);
    assert("single_field"@[0] != "block2x2"@[0]);
}

/// The packs that fill the catalog, in order.
proof fn lemma_catalog_packs(packs: Seq<PackEntry>)
    requires
        packs.map_values(|p: PackEntry| pack_view(p)) == catalog_view(),
    ensures
        packs.len() == 4,
        pack_view(packs[0]) == block2x2_pack_view(),
        pack_view(packs[1]) == elasticity_pack_view(),
        pack_view(packs[2]) == linear_solvers_pack_view(),
        pack_view(packs[3]) == poisson_pack_view(),
        packs.drop_last().drop_last().drop_last().drop_last() == Seq::<PackEntry>::empty(),
        packs.drop_last().drop_last().drop_last().last() == packs[0],
        packs.drop_last().drop_last().last() == packs[1],
        packs.drop_last().last() == packs[2],
        packs.last() == packs[3],
{
    let vs = packs.map_values(|p: PackEntry| pack_view(p));
    assert(vs.len() == packs.len());
    assert(catalog_view().len() == 4);
    assert(vs[0] == pack_view(packs[0]));
    assert(vs[1] == pack_view(packs[1]));
    assert(vs[2] == pack_view(packs[2]));
    assert(vs[3] == pack_view(packs[3]));
    assert(packs.drop_last().drop_last().drop_last().drop_last() =~= Seq::<PackEntry>::empty());
}

/// A sequence of four holds exactly its four items.
proof fn lemma_contains_four<T>(s: Seq<T>, x: T)
    requires
        s.len() == 4,
    ensures
        s.contains(x) <==> (x == s[0] || x == s[1] || x == s[2] || x == s[3]),
{
    if x == s[0] || x == s[1] || x == s[2] || x == s[3] {
        if x == s[0] { assert(s[0] == x); } else if x == s[1] { assert(s[1] == x); } else if x == s[2] { assert(s[2] == x); } else { assert(s[3] == x); }
    }
}

/// A sequence of two holds exactly its two items.
proof fn lemma_contains_two<T>(s: Seq<T>, x: T)
    requires
        s.len() == 2,
    ensures
        s.contains(x) <==> (x == s[0] || x == s[1]),
{
    if x == s[0] { assert(s[0] == x); } else if x == s[1] { assert(s[1] == x); }
}

/// A sequence of one holds exactly its item.
proof fn lemma_contains_one<T>(s: Seq<T>, x: T)
    requires
        s.len() == 1,
    ensures
        s.contains(x) <==> x == s[0],
{
    if x == s[0] { assert(s[0] == x); }
}

/// The element family of a dimension's cells.
pub open spec fn cell_family(d: u8) -> Seq<char> {
    if d == 2 { "quad"@ } else { "hex"@ }
}

/// The function space of an equation family's unknown.
pub open spec fn space_of(family: Seq<char>) -> Seq<char> {
    if family == "poisson"@ { "H1Scalar"@ } else { "H1Vector"@ }
}

// ---------------------------------------------------------------------------
// Preconditioners
// ---------------------------------------------------------------------------

proof fn lemma_catalog_preconditioner_entries(packs: Seq<PackEntry>)
    requires
        packs.map_values(|p: PackEntry| pack_view(p)) == catalog_view(),
    ensures
        ({
            let es = registered_preconditioners(packs);
            &&& es.len() == 3
            &&& es[0].0 == "elasticity"@
            &&& es[1].0 == "poisson"@
            &&& es[2].0 == "poisson"@
            &&& es[0].1.name@ == "ElasticityJacobiPreconditioner"@
            &&& es[1].1.name@ == "JacobiPreconditioner"@
            &&& es[2].1.name@ == "MultigridPreconditioner"@
            &&& preconditioner_key_views(es[0].1) == seq![("jacobi"@, "assembled"@, 2u8, "elasticity"@, "H1Vector"@, "quad"@, 1u8, "single_field"@), ("jacobi"@, "assembled"@, 3u8, "elasticity"@, "H1Vector"@, "hex"@, 1u8, "single_field"@), ("jacobi"@, "matrixfree"@, 2u8, "elasticity"@, "H1Vector"@, "quad"@, 1u8, "single_field"@), ("jacobi"@, "matrixfree"@, 3u8, "elasticity"@, "H1Vector"@, "hex"@, 1u8, "single_field"@)]
            &&& preconditioner_key_views(es[1].1) == seq![("jacobi"@, "assembled"@, 2u8, "poisson"@, "H1Scalar"@, "quad"@, 1u8, "single_field"@), ("jacobi"@, "assembled"@, 3u8, "poisson"@, "H1Scalar"@, "hex"@, 1u8, "single_field"@), ("jacobi"@, "matrixfree"@, 2u8, "poisson"@, "H1Scalar"@, "quad"@, 1u8, "single_field"@), ("jacobi"@, "matrixfree"@, 3u8, "poisson"@, "H1Scalar"@, "hex"@, 1u8, "single_field"@)]
            &&& preconditioner_key_views(es[2].1) == seq![("mg"@, "matrixfree"@, 2u8, "poisson"@, "H1Scalar"@, "quad"@, 1u8, "single_field"@), ("mg"@, "matrixfree"@, 3u8, "poisson"@, "H1Scalar"@, "hex"@, 1u8, "single_field"@)]
        }),
{
    lemma_catalog_packs(packs);
    let p0 = packs[0];
    let p1 = packs[1];
    let p2 = packs[2];
    let p3 = packs[3];
    assert(pack_view(p0).5.len() == 0);
    assert(pack_view(p2).5.len() == 0);
    assert(pack_view(p1).5.len() == 1);
    assert(pack_view(p3).5.len() == 2);
    let v1 = pack_view(p1).5;
    let v3 = pack_view(p3).5;
    assert(p0.preconditioner_factories@.len() == 0);
    assert(p1.preconditioner_factories@.len() == 1);
    assert(p2.preconditioner_factories@.len() == 0);
    assert(p3.preconditioner_factories@.len() == 2);
    assert(v1[0] == preconditioner_factory_view(p1.preconditioner_factories@[0]));
    assert(v3[0] == preconditioner_factory_view(p3.preconditioner_factories@[0]));
    assert(v3[1] == preconditioner_factory_view(p3.preconditioner_factories@[1]));
    reveal_with_fuel(registered_preconditioners, 5);
    let es = registered_preconditioners(packs);
    assert(es =~= seq![
        (p1.name@, p1.preconditioner_factories@[0]),
        (p3.name@, p3.preconditioner_factories@[0]),
        (p3.name@, p3.preconditioner_factories@[1]),
    ]);
}

/// In a registry filled from the catalog, the Jacobi preconditioner key of
/// the Poisson or elasticity family, for either backend and in two or three
/// dimensions, is served by exactly one factory: that family's pack's
/// Jacobi preconditioner. The multigrid key of the Poisson family is served
/// by exactly the poisson pack's `MultigridPreconditioner` for the
/// matrix-free backend and by no factory for the assembled one.
pub proof fn lemma_catalog_preconditioner_lookup(packs: Seq<PackEntry>, family: Seq<char>, backend: Seq<char>, d: u8)
    requires
        packs.map_values(|p: PackEntry| pack_view(p)) == catalog_view(),
        family == "poisson"@ || family == "elasticity"@,
        backend == "assembled"@ || backend == "matrixfree"@,
        d == 2 || d == 3,
    ensures
        ({
            let es = registered_preconditioners(packs);
            let key = ("jacobi"@, backend, d, family, space_of(family), cell_family(d), 1u8, "single_field"@);
            let m = matching_indices(es, |e: (Seq<char>, PreconditionerFactory)| preconditioner_key_views(e.1).contains(key));
            &&& m.len() == 1
            &&& es[m[0]].0 == family
            &&& es[m[0]].1.name@ == (if family == "poisson"@ { "JacobiPreconditioner"@ } else { "ElasticityJacobiPreconditioner"@ })
        }),
        family == "poisson"@ ==> ({
            let es = registered_preconditioners(packs);
            let key = ("mg"@, backend, d, "poisson"@, "H1Scalar"@, cell_family(d), 1u8, "single_field"@);
            let m = matching_indices(es, |e: (Seq<char>, PreconditionerFactory)| preconditioner_key_views(e.1).contains(key));
            &&& (backend == "matrixfree"@ ==> {
                &&& m.len() == 1
                &&& es[m[0]].0 == "poisson"@
                &&& es[m[0]].1.name@ == "MultigridPreconditioner"@
            })
            &&& (backend == "assembled"@ ==> m.len() == 0)
        }),
{
    lemma_distinct_names();
    lemma_catalog_preconditioner_entries(packs);
    let es = registered_preconditioners(packs);
    reveal_with_fuel(matching_indices, 4);
    assert(es.drop_last().drop_last().drop_last() =~= Seq::<(Seq<char>, PreconditionerFactory)>::empty());
    assert(es.drop_last().drop_last().last() == es[0]);
    assert(es.drop_last().last() == es[1]);
    let key = ("jacobi"@, backend, d, family, space_of(family), cell_family(d), 1u8, "single_field"@);
    let pred = |e: (Seq<char>, PreconditionerFactory)| preconditioner_key_views(e.1).contains(key);
    lemma_contains_four(preconditioner_key_views(es[0].1), key);
    lemma_contains_four(preconditioner_key_views(es[1].1), key);
    lemma_contains_two(preconditioner_key_views(es[2].1), key);
    if family == "poisson"@ {
        assert(!pred(es[0]) && pred(es[1]) && !pred(es[2]));
        assert(matching_indices(es, pred) =~= seq![1int]);
    } else {
        assert(pred(es[0]) && !pred(es[1]) && !pred(es[2]));
        assert(matching_indices(es, pred) =~= seq![0int]);
    }
    if family == "poisson"@ {
        let key2 = ("mg"@, backend, d, "poisson"@, "H1Scalar"@, cell_family(d), 1u8, "single_field"@);
        let pred2 = |e: (Seq<char>, PreconditionerFactory)| preconditioner_key_views(e.1).contains(key2);
        lemma_contains_four(preconditioner_key_views(es[0].1), key2);
        lemma_contains_four(preconditioner_key_views(es[1].1), key2);
        lemma_contains_two(preconditioner_key_views(es[2].1), key2);
        if backend == "matrixfree"@ {
            assert(!pred2(es[0]) && !pred2(es[1]) && pred2(es[2]));
            assert(matching_indices(es, pred2) =~= seq![2int]);
        } else {
            assert(!pred2(es[0]) && !pred2(es[1]) && !pred2(es[2]));
            assert(matching_indices(es, pred2) =~= Seq::<int>::empty());
        }
    }
}

// ---------------------------------------------------------------------------
// Operators
// ---------------------------------------------------------------------------

proof fn lemma_catalog_operator_entries(packs: Seq<PackEntry>)
    requires
        packs.map_values(|p: PackEntry| pack_view(p)) == catalog_view(),
    ensures
        ({
            let es = registered_operators(packs);
            &&& es.len() == 2
            &&& es[0].0 == "elasticity"@
            &&& es[1].0 == "poisson"@
            &&& es[0].1.name@ == "ElasticityOperator"@
            &&& es[1].1.name@ == "PoissonOperator"@
            &&& operator_key_views(es[0].1) == seq![("elasticity"@, "assembled"@, 2u8, "H1Vector"@, "quad"@, 1u8, "single_field"@), ("elasticity"@, "assembled"@, 3u8, "H1Vector"@, "hex"@, 1u8, "single_field"@), ("elasticity"@, "matrixfree"@, 2u8, "H1Vector"@, "quad"@, 1u8, "single_field"@), ("elasticity"@, "matrixfree"@, 3u8, "H1Vector"@, "hex"@, 1u8, "single_field"@)]
            &&& operator_key_views(es[1].1) == seq![("poisson"@, "assembled"@, 2u8, "H1Scalar"@, "quad"@, 1u8, "single_field"@), ("poisson"@, "assembled"@, 3u8, "H1Scalar"@, "hex"@, 1u8, "single_field"@), ("poisson"@, "matrixfree"@, 2u8, "H1Scalar"@, "quad"@, 1u8, "single_field"@), ("poisson"@, "matrixfree"@, 3u8, "H1Scalar"@, "hex"@, 1u8, "single_field"@)]
        }),
{
    lemma_catalog_packs(packs);
    let p0 = packs[0];
    let p1 = packs[1];
    let p2 = packs[2];
    let p3 = packs[3];
    assert(pack_view(p0).4.len() == 0);
    assert(pack_view(p1).4.len() == 1);
    assert(pack_view(p2).4.len() == 0);
    assert(pack_view(p3).4.len() == 1);
    assert(p0.operator_factories@.len() == 0);
    assert(p1.operator_factories@.len() == 1);
    assert(p2.operator_factories@.len() == 0);
    assert(p3.operator_factories@.len() == 1);
    assert(pack_view(p1).4[0] == operator_factory_view(p1.operator_factories@[0]));
    assert(pack_view(p3).4[0] == operator_factory_view(p3.operator_factories@[0]));
    reveal_with_fuel(registered_operators, 5);
    let es = registered_operators(packs);
    assert(es =~= seq![(p1.name@, p1.operator_factories@[0]), (p3.name@, p3.operator_factories@[0])]);
}

/// In a registry filled from the catalog, the operator key of the Poisson
/// or elasticity family, for either backend and in two or three dimensions,
/// is served by exactly one factory: that family's pack's operator.
pub proof fn lemma_catalog_operator_lookup(packs: Seq<PackEntry>, family: Seq<char>, backend: Seq<char>, d: u8)
    requires
        packs.map_values(|p: PackEntry| pack_view(p)) == catalog_view(),
        family == "poisson"@ || family == "elasticity"@,
        backend == "assembled"@ || backend == "matrixfree"@,
        d == 2 || d == 3,
    ensures
        ({
            let es = registered_operators(packs);
            let key = (family, backend, d, space_of(family), cell_family(d), 1u8, "single_field"@);
            let m = matching_indices(es, |e: (Seq<char>, OperatorFactory)| operator_key_views(e.1).contains(key));
            &&& m.len() == 1
            &&& es[m[0]].0 == family
            &&& es[m[0]].1.name@ == (if family == "poisson"@ { "PoissonOperator"@ } else { "ElasticityOperator"@ })
        }),
{
    lemma_distinct_names();
    lemma_catalog_operator_entries(packs);
    let es = registered_operators(packs);
    reveal_with_fuel(matching_indices, 3);
    assert(es.drop_last().drop_last() =~= Seq::<(Seq<char>, OperatorFactory)>::empty());
    assert(es.drop_last().last() == es[0]);
    let key = (family, backend, d, space_of(family), cell_family(d), 1u8, "single_field"@);
    let pred = |e: (Seq<char>, OperatorFactory)| operator_key_views(e.1).contains(key);
    lemma_contains_four(operator_key_views(es[0].1), key);
    lemma_contains_four(operator_key_views(es[1].1), key);
    if family == "poisson"@ {
        assert(!pred(es[0]) && pred(es[1]));
        assert(matching_indices(es, pred) =~= seq![1int]);
    } else {
        assert(pred(es[0]) && !pred(es[1]));
        assert(matching_indices(es, pred) =~= seq![0int]);
    }
}

// ---------------------------------------------------------------------------
// Solvers
// ---------------------------------------------------------------------------

proof fn lemma_catalog_solver_entries(packs: Seq<PackEntry>)
    requires
        packs.map_values(|p: PackEntry| pack_view(p)) == catalog_view(),
    ensures
        ({
            let es = registered_solvers(packs);
            &&& es.len() == 3
            &&& es[0].0 == "block2x2"@
            &&& es[1].0 == "linear_solvers"@
            &&& es[2].0 == "linear_solvers"@
            &&& es[0].1.name@ == "BlockPcgSolver"@
            &&& es[1].1.name@ == "CgSolver"@
            &&& es[2].1.name@ == "GmresSolver"@
            &&& solver_key_views(es[0].1) == seq![("block_pcg"@, true, false, "block2x2"@)]
            &&& solver_key_views(es[1].1) == seq![("cg"@, true, false, "single_field"@)]
            &&& solver_key_views(es[2].1) == seq![("gmres"@, false, false, "single_field"@)]
        }),
{
    lemma_catalog_packs(packs);
    let p0 = packs[0];
    let p1 = packs[1];
    let p2 = packs[2];
    let p3 = packs[3];
    assert(pack_view(p0).6.len() == 1);
    assert(pack_view(p1).6.len() == 0);
    assert(pack_view(p2).6.len() == 2);
    assert(pack_view(p3).6.len() == 0);
    assert(p0.solver_factories@.len() == 1);
    assert(p1.solver_factories@.len() == 0);
    assert(p2.solver_factories@.len() == 2);
    assert(p3.solver_factories@.len() == 0);
    assert(pack_view(p0).6[0] == solver_factory_view(p0.solver_factories@[0]));
    assert(pack_view(p2).6[0] == solver_factory_view(p2.solver_factories@[0]));
    assert(pack_view(p2).6[1] == solver_factory_view(p2.solver_factories@[1]));
    reveal_with_fuel(registered_solvers, 5);
    let es = registered_solvers(packs);
    assert(es =~= seq![
        (p0.name@, p0.solver_factories@[0]),
        (p2.name@, p2.solver_factories@[0]),
        (p2.name@, p2.solver_factories@[1]),
    ]);
}

/// In a registry filled from the catalog, each solver key that a case can
/// ask for is served by exactly one factory: the conjugate gradient key by
/// `CgSolver` and the GMRES key by `GmresSolver` of the solver pack, and the
/// block PCG key by the block pack's `BlockPcgSolver`.
pub proof fn lemma_catalog_solver_lookup(packs: Seq<PackEntry>)
    requires
        packs.map_values(|p: PackEntry| pack_view(p)) == catalog_view(),
    ensures
        ({
            let es = registered_solvers(packs);
            let m = matching_indices(es, |e: (Seq<char>, SolverFactory)| solver_key_views(e.1).contains(("cg"@, true, false, "single_field"@)));
            &&& m.len() == 1
            &&& es[m[0]].0 == "linear_solvers"@
            &&& es[m[0]].1.name@ == "CgSolver"@
        }),
        ({
            let es = registered_solvers(packs);
            let m = matching_indices(es, |e: (Seq<char>, SolverFactory)| solver_key_views(e.1).contains(("gmres"@, false, false, "single_field"@)));
            &&& m.len() == 1
            &&& es[m[0]].0 == "linear_solvers"@
            &&& es[m[0]].1.name@ == "GmresSolver"@
        }),
        ({
            let es = registered_solvers(packs);
            let m = matching_indices(es, |e: (Seq<char>, SolverFactory)| solver_key_views(e.1).contains(("block_pcg"@, true, false, "block2x2"@)));
            &&& m.len() == 1
            &&& es[m[0]].0 == "block2x2"@
            &&& es[m[0]].1.name@ == "BlockPcgSolver"@
        }),
{
    lemma_distinct_names();
    lemma_catalog_solver_entries(packs);
    let es = registered_solvers(packs);
    reveal_with_fuel(matching_indices, 4);
    assert(es.drop_last().drop_last().drop_last() =~= Seq::<(Seq<char>, SolverFactory)>::empty());
    assert(es.drop_last().drop_last().last() == es[0]);
    assert(es.drop_last().last() == es[1]);
    let k1 = ("cg"@, true, false, "single_field"@);
    let k2 = ("gmres"@, false, false, "single_field"@);
    let k3 = ("block_pcg"@, true, false, "block2x2"@);
    let p1 = |e: (Seq<char>, SolverFactory)| solver_key_views(e.1).contains(k1);
    let p2 = |e: (Seq<char>, SolverFactory)| solver_key_views(e.1).contains(k2);
    let p3 = |e: (Seq<char>, SolverFactory)| solver_key_views(e.1).contains(k3);
    lemma_contains_one(solver_key_views(es[0].1), k1);
    lemma_contains_one(solver_key_views(es[1].1), k1);
    lemma_contains_one(solver_key_views(es[2].1), k1);
    lemma_contains_one(solver_key_views(es[0].1), k2);
    lemma_contains_one(solver_key_views(es[1].1), k2);
    lemma_contains_one(solver_key_views(es[2].1), k2);
    lemma_contains_one(solver_key_views(es[0].1), k3);
    lemma_contains_one(solver_key_views(es[1].1), k3);
    lemma_contains_one(solver_key_views(es[2].1), k3);
    assert(!p1(es[0]) && p1(es[1]) && !p1(es[2]));
    assert(matching_indices(es, p1) =~= seq![1int]);
    assert(!p2(es[0]) && !p2(es[1]) && p2(es[2]));
    assert(matching_indices(es, p2) =~= seq![2int]);
    assert(p3(es[0]) && !p3(es[1]) && !p3(es[2]));
    assert(matching_indices(es, p3) =~= seq![0int]);
}

// ---------------------------------------------------------------------------
// Builders
// ---------------------------------------------------------------------------

proof fn lemma_catalog_builder_entries(packs: Seq<PackEntry>)
    requires
        packs.map_values(|p: PackEntry| pack_view(p)) == catalog_view(),
    ensures
        ({
            let es = registered_builders(packs);
            &&& es.len() == 3
            &&& es[0].0 == "block2x2"@
            &&& es[1].0 == "elasticity"@
            &&& es[2].0 == "poisson"@
            &&& es[0].1.name@ == "CoupledEllipticBuilder"@
            &&& es[1].1.name@ == "ElasticityBuilder"@
            &&& es[2].1.name@ == "PoissonBuilder"@
            &&& es[0].1.equation_type@ == "coupled_elliptic_2x2"@
            &&& es[1].1.equation_type@ == "elasticity"@
            &&& es[2].1.equation_type@ == "poisson"@
            &&& es[0].1.dimensions@ == seq![2u8, 3u8]
            &&& es[1].1.dimensions@ == seq![2u8, 3u8]
            &&& es[2].1.dimensions@ == seq![2u8, 3u8]
            &&& views(es[0].1.backends@) == seq!["matrixfree"@]
            &&& views(es[1].1.backends@) == seq!["assembled"@, "matrixfree"@]
            &&& views(es[2].1.backends@) == seq!["assembled"@, "matrixfree"@]
        }),
{
    lemma_catalog_packs(packs);
    let p0 = packs[0];
    let p1 = packs[1];
    let p2 = packs[2];
    let p3 = packs[3];
    assert(pack_view(p0).3.len() == 1);
    assert(pack_view(p1).3.len() == 1);
    assert(pack_view(p2).3.len() == 0);
    assert(pack_view(p3).3.len() == 1);
    assert(p0.builders@.len() == 1);
    assert(p1.builders@.len() == 1);
    assert(p2.builders@.len() == 0);
    assert(p3.builders@.len() == 1);
    assert(pack_view(p0).3[0] == builder_view(p0.builders@[0]));
    assert(pack_view(p1).3[0] == builder_view(p1.builders@[0]));
    assert(pack_view(p3).3[0] == builder_view(p3.builders@[0]));
    reveal_with_fuel(registered_builders, 5);
    let es = registered_builders(packs);
    assert(es =~= seq![(p0.name@, p0.builders@[0]), (p1.name@, p1.builders@[0]), (p3.name@, p3.builders@[0])]);
}

/// In a registry filled from the catalog, a Poisson or elasticity problem in
/// two or three dimensions is built, for either backend, by exactly one
/// builder: that family's pack's builder. A coupled 2x2 elliptic problem is
/// built by the block pack's `CoupledEllipticBuilder` with the matrix-free
/// backend, and by no builder with the assembled one.
pub proof fn lemma_catalog_builder_lookup(packs: Seq<PackEntry>, equation: Seq<char>, backend: Seq<char>, d: u8)
    requires
        packs.map_values(|p: PackEntry| pack_view(p)) == catalog_view(),
        equation == "poisson"@ || equation == "elasticity"@ || equation == "coupled_elliptic_2x2"@,
        backend == "assembled"@ || backend == "matrixfree"@,
        d == 2 || d == 3,
    ensures
        ({
            let es = registered_builders(packs);
            let m = matching_indices(es, |e: (Seq<char>, ProblemBuilder)| builder_supports(e.1, equation, d, backend));
            &&& (equation == "poisson"@ ==> m.len() == 1 && es[m[0]].0 == "poisson"@ && es[m[0]].1.name@ == "PoissonBuilder"@)
            &&& (equation == "elasticity"@ ==> m.len() == 1 && es[m[0]].0 == "elasticity"@ && es[m[0]].1.name@
                == "ElasticityBuilder"@)
            &&& (equation == "coupled_elliptic_2x2"@ && backend == "matrixfree"@ ==> m.len() == 1 && es[m[0]].0
                == "block2x2"@ && es[m[0]].1.name@ == "CoupledEllipticBuilder"@)
            &&& (equation == "coupled_elliptic_2x2"@ && backend == "assembled"@ ==> m.len() == 0)
        }),
{
    lemma_distinct_names();
    lemma_catalog_builder_entries(packs);
    let es = registered_builders(packs);
    reveal_with_fuel(matching_indices, 4);
    assert(es.drop_last().drop_last().drop_last() =~= Seq::<(Seq<char>, ProblemBuilder)>::empty());
    assert(es.drop_last().drop_last().last() == es[0]);
    assert(es.drop_last().last() == es[1]);
    let pred = |e: (Seq<char>, ProblemBuilder)| builder_supports(e.1, equation, d, backend);
    lemma_contains_two(es[0].1.dimensions@, d);
    lemma_contains_two(es[1].1.dimensions@, d);
    lemma_contains_two(es[2].1.dimensions@, d);
    lemma_contains_one(views(es[0].1.backends@), backend);
    lemma_contains_two(views(es[1].1.backends@), backend);
    lemma_contains_two(views(es[2].1.backends@), backend);
    if equation == "poisson"@ {
        assert(!pred(es[0]) && !pred(es[1]) && pred(es[2]));
        assert(matching_indices(es, pred) =~= seq![2int]);
    } else if equation == "elasticity"@ {
        assert(!pred(es[0]) && pred(es[1]) && !pred(es[2]));
        assert(matching_indices(es, pred) =~= seq![1int]);
    } else if backend == "matrixfree"@ {
        assert(pred(es[0]) && !pred(es[1]) && !pred(es[2]));
        assert(matching_indices(es, pred) =~= seq![0int]);
    } else {
        assert(!pred(es[0]) && !pred(es[1]) && !pred(es[2]));
        assert(matching_indices(es, pred) =~= Seq::<int>::empty());
    }
}

} // verus!
