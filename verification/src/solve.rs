//! The decisions of a solve: which backend and preconditioner names are
//! used, which builder and solver factory the registry selects, with the
//! errors reported when none or several match, which component keys a
//! single-field builder requests, and how a coupled 2x2 builder picks its
//! block preconditioner and boundary conditions.

use vstd::prelude::*;
use crate::components::{
    builder_supports, operator_key_views, preconditioner_key_views, solver_key_views, OperatorFactory,
    PreconditionerFactory, ProblemBuilder, SolverFactory,
};
use crate::error::SpinozaError;
use crate::keys::{
    operator_key_description, preconditioner_key_description, solver_key_description, OperatorKey,
    PreconditionerKey, SolverKey,
};
use crate::registry::{
    candidate_text, lemma_matching_indices_sound, matching_indices, BuilderCandidate, BuilderLookup, BuilderSelection, ComponentCandidate,
    ComponentLookup, ComponentSelection, MethodRegistry,
};
use crate::spec::CaseSpec;
use crate::text::{decimal, join, push_decimal, push_str, str_eq};

verus! {

/// Default number of cells along x.
pub const DEFAULT_NX: usize = 8;
/// Default number of cells along y.
pub const DEFAULT_NY: usize = 8;
/// Default number of cells along z (3D only).
pub const DEFAULT_NZ: usize = 8;

/// How the operator of a solve is represented.
#[derive(Debug, Clone, Copy, PartialEq, Eq, Structural)]
pub enum SolveBackend {
    Assembled,
    MatrixFree,
}

/// The name of a backend, as builders and keys spell it.
pub open spec fn backend_name(b: SolveBackend) -> Seq<char> {
    match b {
        SolveBackend::Assembled => "assembled"@,
        SolveBackend::MatrixFree => "matrixfree"@,
    }
}

impl SolveBackend {
    /// The name of this backend.
    pub fn as_str(self) -> (s: &'static str)
        ensures
            s@ == backend_name(self),
    {
        match self {
            SolveBackend::Assembled => "assembled",
            SolveBackend::MatrixFree => "matrixfree",
        }
    }
}

/// The preconditioner requested for a solve.
#[derive(Debug, Clone, Copy, PartialEq, Eq, Structural)]
pub enum SolvePreconditioner {
    Jacobi,
    Mg,
    BlockJacobi,
}

/// The name of a preconditioner, as keys spell it.
pub open spec fn preconditioner_name(p: SolvePreconditioner) -> Seq<char> {
    match p {
        SolvePreconditioner::Jacobi => "jacobi"@,
        SolvePreconditioner::Mg => "mg"@,
        SolvePreconditioner::BlockJacobi => "block_jacobi"@,
    }
}

impl SolvePreconditioner {
    /// The name of this preconditioner.
    pub fn as_str(self) -> (s: &'static str)
        ensures
            s@ == preconditioner_name(self),
    {
        match self {
            SolvePreconditioner::Jacobi => "jacobi",
            SolvePreconditioner::Mg => "mg",
            SolvePreconditioner::BlockJacobi => "block_jacobi",
        }
    }
}

// ---------------------------------------------------------------------------
// Grid resolution and solver key
// ---------------------------------------------------------------------------

/// The grid of a solve: cells along x, y and z (z is 1 in 2D), and the z
/// count reported in the output (only in 3D).
pub fn grid_resolution(dimension: u8) -> (r: (usize, usize, usize, Option<usize>))
    ensures
        r.0 == DEFAULT_NX,
        r.1 == DEFAULT_NY,
        dimension == 3 ==> r.2 == DEFAULT_NZ && r.3 == Some(DEFAULT_NZ),
        dimension != 3 ==> r.2 == 1 && r.3 is None,
{
    if dimension == 3 {
        (DEFAULT_NX, DEFAULT_NY, DEFAULT_NZ, Some(DEFAULT_NZ))
    } else {
        (DEFAULT_NX, DEFAULT_NY, 1, None)
    }
}

/// The block structure of an equation type: coupled 2x2 systems are
/// `block2x2`, everything else a single field.
pub open spec fn block_structure_of(equation_type: Seq<char>) -> Seq<char> {
    if equation_type == "coupled_elliptic_2x2"@ {
        "block2x2"@
    } else {
        "single_field"@
    }
}

/// The block structure of an equation type.
pub fn infer_block_structure(equation_type: &str) -> (s: String)
    ensures
        s@ == block_structure_of(equation_type@),
{
    if str_eq(equation_type, "coupled_elliptic_2x2") {
        String::from_str("block2x2")
    } else {
        String::from_str("single_field")
    }
}

/// The key of the solver a case asks for: its linear solver type,
/// symmetric positive definite unless the solver is GMRES, real valued,
/// with the block structure of its equation.
pub fn solver_key_for(spec: &CaseSpec) -> (k: SolverKey)
    ensures
        k@ == (
            spec.solver.linear@,
            spec.solver.linear@ != "gmres"@,
            false,
            block_structure_of(spec.equation.eq_type@),
        ),
{
    let solver_type = spec.solver.linear.as_str();
    let block = infer_block_structure(spec.equation.eq_type.as_str());
    let spd = !str_eq(solver_type, "gmres");
    SolverKey::new(solver_type, spd, false, block.as_str())
}

// ---------------------------------------------------------------------------
// Selection with errors
// ---------------------------------------------------------------------------

/// The message when no builder supports a request.
pub open spec fn no_builder_text(equation_type: Seq<char>, dimension: u8, backend: Seq<char>) -> Seq<char> {
    "no builder found for equation='"@ + equation_type + "', dim="@ + decimal(dimension as nat) + ", backend='"@
        + backend + "'"@
}

/// The message when several registered builders support a request.
pub open spec fn builder_ambiguity_text(
    es: Seq<(Seq<char>, ProblemBuilder)>,
    m: Seq<int>,
    equation_type: Seq<char>,
    dimension: u8,
    backend: Seq<char>,
) -> Seq<char> {
    "ambiguous builder selection: "@ + decimal(m.len()) + " builders match equation='"@ + equation_type
        + "', dim="@ + decimal(dimension as nat) + ", backend='"@ + backend + "': "@ + join(
        m.map_values(|i: int| candidate_text(es[i].0, es[i].1.name@)),
        ", "@,
    )
}

/// The message when several registered factories list a key.
pub open spec fn component_ambiguity_text(
    component_type: Seq<char>,
    key_description: Seq<char>,
    packs: Seq<Seq<char>>,
    names: Seq<Seq<char>>,
    m: Seq<int>,
) -> Seq<char> {
    "ambiguous "@ + component_type + " selection: "@ + decimal(m.len()) + " factories match "@ + key_description
        + ": "@ + join(m.map_values(|i: int| candidate_text(packs[i], names[i])), ", "@)
}

/// The builders that support a request, by registration position.
pub open spec fn supporting_builders(
    es: Seq<(Seq<char>, ProblemBuilder)>,
    equation_type: Seq<char>,
    dimension: u8,
    backend: Seq<char>,
) -> Seq<int> {
    matching_indices(es, |e: (Seq<char>, ProblemBuilder)| builder_supports(e.1, equation_type, dimension, backend))
}

/// The solver factories that list a key, by registration position.
pub open spec fn solvers_listing(es: Seq<(Seq<char>, SolverFactory)>, key: crate::keys::SolverKeyView) -> Seq<int> {
    matching_indices(es, |e: (Seq<char>, SolverFactory)| solver_key_views(e.1).contains(key))
}

/// The operator factories that list a key, by registration position.
pub open spec fn operators_listing(es: Seq<(Seq<char>, OperatorFactory)>, key: crate::keys::OperatorKeyView) -> Seq<int> {
    matching_indices(es, |e: (Seq<char>, OperatorFactory)| operator_key_views(e.1).contains(key))
}

/// The preconditioner factories that list a key, by registration position.
pub open spec fn preconditioners_listing(
    es: Seq<(Seq<char>, PreconditionerFactory)>,
    key: crate::keys::PreconditionerKeyView,
) -> Seq<int> {
    matching_indices(es, |e: (Seq<char>, PreconditionerFactory)| preconditioner_key_views(e.1).contains(key))
}

proof fn lemma_builder_candidates(
    es: Seq<(Seq<char>, ProblemBuilder)>,
    m: Seq<int>,
    candidates: Seq<BuilderCandidate>,
)
    requires
        candidates.len() == m.len(),
        forall|k: int| 0 <= k < m.len() ==> {
            &&& (#[trigger] candidates[k]).pack_name@ == es[m[k]].0
            &&& candidates[k].builder_name@ == es[m[k]].1.name@
        },
    ensures
        candidates.map_values(|c: BuilderCandidate| candidate_text(c.pack_name@, c.builder_name@))
            == m.map_values(|i: int| candidate_text(es[i].0, es[i].1.name@)),
{
    assert(candidates.map_values(|c: BuilderCandidate| candidate_text(c.pack_name@, c.builder_name@))
        =~= m.map_values(|i: int| candidate_text(es[i].0, es[i].1.name@)));
}

proof fn lemma_component_candidates(
    packs: Seq<Seq<char>>,
    names: Seq<Seq<char>>,
    m: Seq<int>,
    candidates: Seq<ComponentCandidate>,
)
    requires
        candidates.len() == m.len(),
        forall|k: int| 0 <= k < m.len() ==> {
            &&& (#[trigger] candidates[k]).pack_name@ == packs[m[k]]
            &&& candidates[k].component_name@ == names[m[k]]
        },
    ensures
        candidates.map_values(|c: ComponentCandidate| candidate_text(c.pack_name@, c.component_name@))
            == m.map_values(|i: int| candidate_text(packs[i], names[i])),
{
    assert(candidates.map_values(|c: ComponentCandidate| candidate_text(c.pack_name@, c.component_name@))
        =~= m.map_values(|i: int| candidate_text(packs[i], names[i])));
}

/// Select the one builder that supports the case's equation type and
/// dimension with the given backend.
pub fn select_builder(registry: &MethodRegistry, spec: &CaseSpec, backend: SolveBackend) -> (r: Result<
    (usize, BuilderSelection),
    SpinozaError,
>)
    ensures
        ({
            let es = registry.builder_entries();
            let eq = spec.equation.eq_type@;
            let dim = spec.mesh.dimension;
            let b = backend_name(backend);
            let m = supporting_builders(es, eq, dim, b);
            &&& (r is Ok <==> m.len() == 1)
            &&& (r matches Ok((index, sel)) ==> {
                &&& index == m[0]
                &&& index < es.len()
                &&& sel.pack_name@ == es[m[0]].0
                &&& sel.builder_name@ == es[m[0]].1.name@
            })
            &&& (m.len() == 0 ==> (r matches Err(SpinozaError::ValidationError(msg)) && msg@ == no_builder_text(
                eq,
                dim,
                b,
            )))
            &&& (m.len() > 1 ==> (r matches Err(SpinozaError::ValidationError(msg)) && msg@
                == builder_ambiguity_text(es, m, eq, dim, b)))
        }),
{
    let b = backend.as_str();
    let dim = spec.mesh.dimension;
    let eq = spec.equation.eq_type.as_str();
    proof {
        let es = registry.builder_entries();
        lemma_matching_indices_sound(
            es,
            |e: (Seq<char>, ProblemBuilder)| builder_supports(e.1, eq@, dim, b@),
        );
    }
    match registry.find_builder_checked(eq, dim, b) {
        BuilderLookup::Found { index, selection } => Ok((index, selection)),
        BuilderLookup::NotFound => {
            let mut msg = String::new();
            push_str(&mut msg, "no builder found for equation='");
            push_str(&mut msg, eq);
            push_str(&mut msg, "', dim=");
            push_decimal(&mut msg, dim as usize);
            push_str(&mut msg, ", backend='");
            push_str(&mut msg, b);
            push_str(&mut msg, "'");
            Err(SpinozaError::ValidationError(msg))
        },
        BuilderLookup::Ambiguous(err) => {
            proof {
                let es = registry.builder_entries();
                let m = supporting_builders(es, eq@, dim, b@);
                lemma_builder_candidates(es, m, err.candidates@);
            }
            Err(SpinozaError::ValidationError(err.message()))
        },
    }
}

/// The message when no solver factory lists a key.
pub open spec fn no_solver_text(key: crate::keys::SolverKeyView) -> Seq<char> {
    "COMPONENT_NOT_FOUND: no solver factory registered for key ("@ + solver_key_description(key)
        + "). Ensure spinoza-pack-linear-solvers is linked."@
}

/// Select the one solver factory that lists the key.
pub fn select_solver(registry: &MethodRegistry, key: &SolverKey) -> (r: Result<
    (usize, ComponentSelection),
    SpinozaError,
>)
    ensures
        ({
            let es = registry.solver_entries();
            let packs = es.map_values(|e: (Seq<char>, SolverFactory)| e.0);
            let names = es.map_values(|e: (Seq<char>, SolverFactory)| e.1.name@);
            let m = solvers_listing(es, key@);
            &&& (r is Ok <==> m.len() == 1)
            &&& (r matches Ok((index, sel)) ==> {
                &&& index == m[0]
                &&& index < es.len()
                &&& sel.pack_name@ == packs[m[0]]
                &&& sel.component_name@ == names[m[0]]
                &&& sel.component_type@ == "solver_factory"@
            })
            &&& (m.len() == 0 ==> (r matches Err(SpinozaError::ValidationError(msg)) && msg@ == no_solver_text(key@)))
            &&& (m.len() > 1 ==> (r matches Err(SpinozaError::ValidationError(msg)) && msg@
                == component_ambiguity_text("solver_factory"@, solver_key_description(key@), packs, names, m)))
        }),
{
    proof {
        lemma_matching_indices_sound(
            registry.solver_entries(),
            |e: (Seq<char>, SolverFactory)| solver_key_views(e.1).contains(key@),
        );
    }
    match registry.find_solver(key) {
        ComponentLookup::Found { index, selection } => Ok((index, selection)),
        ComponentLookup::NotFound => {
            let mut msg = String::new();
            push_str(&mut msg, "COMPONENT_NOT_FOUND: no solver factory registered for key (");
            let d = key.describe();
            push_str(&mut msg, d.as_str());
            push_str(&mut msg, "). Ensure spinoza-pack-linear-solvers is linked.");
            Err(SpinozaError::ValidationError(msg))
        },
        ComponentLookup::Ambiguous(err) => {
            proof {
                let es = registry.solver_entries();
                lemma_component_candidates(
                    es.map_values(|e: (Seq<char>, SolverFactory)| e.0),
                    es.map_values(|e: (Seq<char>, SolverFactory)| e.1.name@),
                    solvers_listing(es, key@),
                    err.candidates@,
                );
            }
            Err(SpinozaError::ValidationError(err.message()))
        },
    }
}

/// How a selected component is named in the solve output: `pack::name`.
pub fn selection_label(sel: &ComponentSelection) -> (s: String)
    ensures
        s@ == candidate_text(sel.pack_name@, sel.component_name@),
{
    let mut s = String::new();
    push_str(&mut s, sel.pack_name.as_str());
    push_str(&mut s, "::");
    push_str(&mut s, sel.component_name.as_str());
    s
}

// ---------------------------------------------------------------------------
// Components of a single-field builder
// ---------------------------------------------------------------------------

/// The element family of a dimension: quadrilaterals in 2D, hexahedra
/// otherwise.
pub open spec fn element_family_of(dimension: u8) -> Seq<char> {
    if dimension == 2 {
        "quad"@
    } else {
        "hex"@
    }
}

fn element_family(dimension: u8) -> (s: &'static str)
    ensures
        s@ == element_family_of(dimension),
{
    if dimension == 2 {
        "quad"
    } else {
        "hex"
    }
}

/// The operator key a single-field builder requests: its equation family
/// and space, the backend and dimension of the solve, first order
/// elements of the dimension's family.
pub fn single_field_operator_key(family: &str, space: &str, dimension: u8, backend: &str) -> (k: OperatorKey)
    ensures
        k@ == (family@, backend@, dimension, space@, element_family_of(dimension), 1u8, "single_field"@),
{
    OperatorKey::new(family, backend, dimension, space, element_family(dimension), 1, "single_field")
}

/// The preconditioner key a single-field builder requests for the
/// preconditioner named by the solve.
pub fn single_field_preconditioner_key(
    family: &str,
    space: &str,
    dimension: u8,
    backend: &str,
    precond: &str,
) -> (k: PreconditionerKey)
    ensures
        k@ == (precond@, backend@, dimension, family@, space@, element_family_of(dimension), 1u8, "single_field"@),
{
    PreconditionerKey::new(precond, backend, dimension, family, space, element_family(dimension), 1, "single_field")
}

/// The message when no operator factory serves a single-field builder.
pub open spec fn no_operator_text(family: Seq<char>, backend: Seq<char>, dimension: u8) -> Seq<char> {
    "no operator factory for equation='"@ + family + "', backend='"@ + backend + "', dim="@ + decimal(
        dimension as nat,
    )
}

/// The operator factory a single-field builder uses: the one that lists
/// the key; none is an error, and so are several.
pub fn resolve_operator(registry: &MethodRegistry, key: &OperatorKey) -> (r: Result<usize, String>)
    ensures
        ({
            let es = registry.operator_entries();
            let packs = es.map_values(|e: (Seq<char>, OperatorFactory)| e.0);
            let names = es.map_values(|e: (Seq<char>, OperatorFactory)| e.1.name@);
            let m = operators_listing(es, key@);
            &&& (r is Ok <==> m.len() == 1)
            &&& (r matches Ok(index) ==> index == m[0] && index < es.len())
            &&& (m.len() == 0 ==> (r matches Err(msg) && msg@ == no_operator_text(key.equation_family@, key.backend@, key.dimension)))
            &&& (m.len() > 1 ==> (r matches Err(msg) && msg@ == component_ambiguity_text(
                "operator_factory"@,
                operator_key_description(key@),
                packs,
                names,
                m,
            )))
        }),
{
    proof {
        lemma_matching_indices_sound(
            registry.operator_entries(),
            |e: (Seq<char>, OperatorFactory)| operator_key_views(e.1).contains(key@),
        );
    }
    match registry.find_operator(key) {
        ComponentLookup::Found { index, selection: _ } => Ok(index),
        ComponentLookup::NotFound => {
            let mut msg = String::new();
            push_str(&mut msg, "no operator factory for equation='");
            push_str(&mut msg, key.equation_family.as_str());
            push_str(&mut msg, "', backend='");
            push_str(&mut msg, key.backend.as_str());
            push_str(&mut msg, "', dim=");
            push_decimal(&mut msg, key.dimension as usize);
            Err(msg)
        },
        ComponentLookup::Ambiguous(err) => {
            proof {
                let es = registry.operator_entries();
                lemma_component_candidates(
                    es.map_values(|e: (Seq<char>, OperatorFactory)| e.0),
                    es.map_values(|e: (Seq<char>, OperatorFactory)| e.1.name@),
                    operators_listing(es, key@),
                    err.candidates@,
                );
            }
            Err(err.message())
        },
    }
}

/// The preconditioner factory a single-field builder uses: the one that
/// lists the key, or none when no factory does; several is an error.
pub fn resolve_preconditioner(registry: &MethodRegistry, key: &PreconditionerKey) -> (r: Result<Option<usize>, String>)
    ensures
        ({
            let es = registry.preconditioner_entries();
            let packs = es.map_values(|e: (Seq<char>, PreconditionerFactory)| e.0);
            let names = es.map_values(|e: (Seq<char>, PreconditionerFactory)| e.1.name@);
            let m = preconditioners_listing(es, key@);
            &&& (r is Ok <==> m.len() <= 1)
            &&& (m.len() == 0 ==> r == Ok::<Option<usize>, String>(None))
            &&& (m.len() == 1 ==> (r matches Ok(Some(index)) && index == m[0] && index < es.len()))
            &&& (m.len() > 1 ==> (r matches Err(msg) && msg@ == component_ambiguity_text(
                "preconditioner_factory"@,
                preconditioner_key_description(key@),
                packs,
                names,
                m,
            )))
        }),
{
    proof {
        lemma_matching_indices_sound(
            registry.preconditioner_entries(),
            |e: (Seq<char>, PreconditionerFactory)| preconditioner_key_views(e.1).contains(key@),
        );
    }
    match registry.find_preconditioner(key) {
        ComponentLookup::Found { index, selection: _ } => Ok(Some(index)),
        ComponentLookup::NotFound => Ok(None),
        ComponentLookup::Ambiguous(err) => {
            proof {
                let es = registry.preconditioner_entries();
                lemma_component_candidates(
                    es.map_values(|e: (Seq<char>, PreconditionerFactory)| e.0),
                    es.map_values(|e: (Seq<char>, PreconditionerFactory)| e.1.name@),
                    preconditioners_listing(es, key@),
                    err.candidates@,
                );
            }
            Err(err.message())
        },
    }
}

// ---------------------------------------------------------------------------
// Coupled 2x2 systems
// ---------------------------------------------------------------------------

/// How each diagonal block of a coupled system is preconditioned.
#[derive(Debug, Clone, Copy, PartialEq, Eq, Structural)]
pub enum BlockSmoother {
    /// A multigrid V-cycle per block.
    Multigrid,
    /// Jacobi per block.
    Jacobi,
}

/// The block preconditioner of a preconditioner name, if it has one.
pub open spec fn block_smoother_of(hint: Seq<char>) -> Option<BlockSmoother> {
    if hint == "block_jacobi"@ || hint == "mg"@ {
        Some(BlockSmoother::Multigrid)
    } else if hint == "jacobi"@ {
        Some(BlockSmoother::Jacobi)
    } else {
        None
    }
}

/// The block preconditioner a coupled builder uses for a preconditioner
/// name: multigrid blocks for `block_jacobi` and `mg`, Jacobi blocks for
/// `jacobi`; any other name is an error.
pub fn block_smoother_for(hint: &str) -> (r: Result<BlockSmoother, String>)
    ensures
        match block_smoother_of(hint@) {
            Some(b) => r == Ok::<BlockSmoother, String>(b),
            None => r matches Err(msg) && msg@ == "unknown preconditioner hint: "@ + hint@,
        },
{
    proof {
        reveal_strlit("block_jacobi");
        reveal_strlit("mg");
        reveal_strlit("jacobi");
    }
    if str_eq(hint, "block_jacobi") || str_eq(hint, "mg") {
        Ok(BlockSmoother::Multigrid)
    } else if str_eq(hint, "jacobi") {
        Ok(BlockSmoother::Jacobi)
    } else {
        let mut msg = String::new();
        push_str(&mut msg, "unknown preconditioner hint: ");
        push_str(&mut msg, hint);
        Err(msg)
    }
}

/// The position of the first boundary condition on field `name`, if any.
pub open spec fn first_bc_on(bcs: Seq<crate::spec::BcSpec>, name: Seq<char>) -> Option<int>
    decreases bcs.len(),
{
    if bcs.len() == 0 {
        None
    } else {
        match first_bc_on(bcs.drop_last(), name) {
            Some(k) => Some(k),
            None => if bcs.last().field@ == name {
                Some(bcs.len() - 1)
            } else {
                None
            },
        }
    }
}

/// The position of the first boundary condition on the field `name`.
pub fn find_bc_for_field(spec: &CaseSpec, name: &str) -> (r: Option<usize>)
    ensures
        match first_bc_on(spec.bcs@, name@) {
            Some(k) => r == Some(k as usize),
            None => r is None,
        },
{
    let n = spec.bcs.len();
    let mut i: usize = 0;
    while i < n
        invariant
            n == spec.bcs@.len(),
            i <= n,
            first_bc_on(spec.bcs@.take(i as int), name@) is None,
        decreases n - i,
    {
        assert(spec.bcs@.take(i + 1).drop_last() =~= spec.bcs@.take(i as int));
        if str_eq(spec.bcs[i].field.as_str(), name) {
            proof {
                assert(first_bc_on(spec.bcs@.take(i + 1), name@) == Some(i as int));
                lemma_first_bc_extends(spec.bcs@, name@, i as int + 1, i as int);
            }
            return Some(i);
        }
        i = i + 1;
    }
    assert(spec.bcs@.take(n as int) =~= spec.bcs@);
    None
}

proof fn lemma_first_bc_extends(bcs: Seq<crate::spec::BcSpec>, name: Seq<char>, k: int, j: int)
    requires
        0 <= k <= bcs.len(),
        first_bc_on(bcs.take(k), name) == Some(j),
    ensures
        first_bc_on(bcs, name) == Some(j),
    decreases bcs.len() - k,
{
    if k < bcs.len() {
        assert(bcs.take(k + 1).drop_last() =~= bcs.take(k));
        assert(first_bc_on(bcs.take(k + 1), name) == Some(j));
        lemma_first_bc_extends(bcs, name, k + 1, j);
    } else {
        assert(bcs.take(k) =~= bcs);
    }
}

/// The boundary conditions a coupled system uses: it needs exactly two
/// fields, and takes for each the first boundary condition on it.
pub fn coupled_boundary_conditions(spec: &CaseSpec) -> (r: Result<(Option<usize>, Option<usize>), String>)
    ensures
        r is Ok <==> spec.fields@.len() == 2,
        r matches Err(msg) ==> msg@ == "coupled_elliptic_2x2 requires exactly 2 fields, got "@ + decimal(
            spec.fields@.len(),
        ),
        r matches Ok((u, v)) ==> {
            &&& (match first_bc_on(spec.bcs@, spec.fields@[0].name@) {
                Some(k) => u == Some(k as usize),
                None => u is None,
            })
            &&& (match first_bc_on(spec.bcs@, spec.fields@[1].name@) {
                Some(k) => v == Some(k as usize),
                None => v is None,
            })
        },
{
    if spec.fields.len() != 2 {
        let mut msg = String::new();
        push_str(&mut msg, "coupled_elliptic_2x2 requires exactly 2 fields, got ");
        push_decimal(&mut msg, spec.fields.len());
        return Err(msg);
    }
    let u = find_bc_for_field(spec, spec.fields[0].name.as_str());
    let v = find_bc_for_field(spec, spec.fields[1].name.as_str());
    Ok((u, v))
}

} // verus!
